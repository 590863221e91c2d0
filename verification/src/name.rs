//! Name records and their mathematical model.

use crate::origin::Origin;
use vstd::prelude::*;

verus! {

/// The gender that a first name is used for. It has no meaning on a last name.
#[derive(Debug, Clone, Copy, PartialEq, Eq, Hash, Structural)]
pub enum Gender {
    Unisex,
    Female,
    Male,
}

/// Whether a record is used as a first name or as a last name.
#[derive(Debug, Clone, Copy, PartialEq, Eq, Hash, Structural)]
pub enum NameKind {
    First,
    Last,
}

/// One record of the dataset.
#[derive(Debug, PartialEq, Eq)]
pub struct Name {
    /// The name as it is written.
    pub text: String,
    /// The origins of the name, in no order that matters; there may be none.
    pub origins: Vec<Origin>,
    /// The gender that the name is used for, where it is a first name.
    pub gender: Gender,
    /// Whether this is a first name or a last name.
    pub kind: NameKind,
}

/// What a [`Name`] holds, as plain mathematical values.
pub struct NameView {
    pub text: Seq<char>,
    pub origins: Seq<Origin>,
    pub gender: Gender,
    pub kind: NameKind,
}

impl View for Name {
    type V = NameView;

    open spec fn view(&self) -> NameView {
        NameView {
            text: self.text@,
            origins: self.origins@,
            gender: self.gender,
            kind: self.kind,
        }
    }
}

impl Clone for Name {
    fn clone(&self) -> (copy: Self)
        ensures
            copy@ == self@,
    {
        Name {
            text: self.text.clone(),
            origins: self.origins.clone(),
            gender: self.gender,
            kind: self.kind,
        }
    }
}

} // verus!
