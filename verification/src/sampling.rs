//! The random draw.
//!
//! Which item a draw yields is up to the random number generator, so nothing
//! here says which: only what holds of every draw.

use rand::rngs::StdRng;
use rand::seq::IteratorRandom;
use vstd::prelude::*;

verus! {

/// `rand::rngs::StdRng`: handed on to the draw and never looked into.
#[verifier::external_type_specification]
#[verifier::external_body]
pub struct ExStdRng(StdRng);

/// `IteratorRandom::choose` over the items of a vector.
///
/// A vector's iterator knows its length, so the call draws one index below
/// that length and returns the item there. Taken on trust: it returns `None`
/// for the empty vector and for no other, and what it returns is an item of
/// the vector. That each item has the same chance is rand's promise; no
/// contract here speaks of chances.
#[verifier::external_body]
pub(crate) fn choose_one(items: &Vec<usize>, rng: &mut StdRng) -> (chosen: Option<usize>)
    ensures
        chosen is None <==> items@.len() == 0,
        chosen matches Some(item) ==> items@.contains(item),
{
    items.iter().choose(rng).copied()
}

} // verus!
