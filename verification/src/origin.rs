//! The cultural, linguistic and geographic tags that a name record may carry.

use vstd::prelude::*;

verus! {

/// A tag that associates a name with a culture, a language or a region.
///
/// Tags are compared for equality only; they carry no order.
#[derive(Debug, Clone, Copy, PartialEq, Eq, Hash, Structural)]
pub enum Origin {
    African,
    Arabic,
    Armenian,
    Biblical,
    Celtic,
    Chinese,
    Czech,
    Danish,
    Dutch,
    English,
    Finnish,
    French,
    German,
    Greek,
    Hawaiian,
    Hebrew,
    Hungarian,
    Indian,
    Irish,
    Italian,
    Japanese,
    Korean,
    Latin,
    Norse,
    Persian,
    Polish,
    Portuguese,
    Russian,
    Scottish,
    Slavic,
    Spanish,
    Swedish,
    Turkish,
    Vietnamese,
    Welsh,
}

impl Origin {
    /// The place of the tag in the list of tags, counted from zero.
    pub open spec fn ordinal(self) -> int {
        match self {
            Origin::African => 0,
            Origin::Arabic => 1,
            Origin::Armenian => 2,
            Origin::Biblical => 3,
            Origin::Celtic => 4,
            Origin::Chinese => 5,
            Origin::Czech => 6,
            Origin::Danish => 7,
            Origin::Dutch => 8,
            Origin::English => 9,
            Origin::Finnish => 10,
            Origin::French => 11,
            Origin::German => 12,
            Origin::Greek => 13,
            Origin::Hawaiian => 14,
            Origin::Hebrew => 15,
            Origin::Hungarian => 16,
            Origin::Indian => 17,
            Origin::Irish => 18,
            Origin::Italian => 19,
            Origin::Japanese => 20,
            Origin::Korean => 21,
            Origin::Latin => 22,
            Origin::Norse => 23,
            Origin::Persian => 24,
            Origin::Polish => 25,
            Origin::Portuguese => 26,
            Origin::Russian => 27,
            Origin::Scottish => 28,
            Origin::Slavic => 29,
            Origin::Spanish => 30,
            Origin::Swedish => 31,
            Origin::Turkish => 32,
            Origin::Vietnamese => 33,
            Origin::Welsh => 34,
        }
    }
}

/// The number of tags.
pub const ORIGIN_COUNT: usize = 35;

} // verus!
