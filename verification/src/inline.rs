//! The inline vectors that hold a filter's entries.
//!
//! A filter usually names one letter or one origin, so its entries live in a
//! `SmallVec` with room for one item before it moves to the heap. Verus cannot
//! look inside such a vector: this module says what each operation on it is
//! taken to do, and nothing here is proved.

use crate::origin::Origin;
use smallvec::SmallVec;
use vstd::prelude::*;

verus! {

/// The number of entries below which an inline vector can always take one more.
///
/// `SmallVec` grows to the next power of two and gives up once that many items
/// no longer fit into `isize::MAX` bytes. With items of at most four bytes this
/// bound keeps every growth far away from that, on 32-bit machines too.
pub const ENTRY_LIMIT: usize = 0x0100_0000;

/// A vector of letters: `SmallVec<[char; 1]>`.
#[verifier::external_body]
#[derive(Debug)]
pub struct LetterVec {
    items: SmallVec<[char; 1]>,
}

/// A vector of origins: `SmallVec<[Origin; 1]>`.
#[verifier::external_body]
#[derive(Debug)]
pub struct OriginVec {
    items: SmallVec<[Origin; 1]>,
}

/// The letters that a vector holds, in the order in which they were pushed.
pub uninterp spec fn letters_in(v: LetterVec) -> Seq<char>;

/// The origins that a vector holds, in the order in which they were pushed.
pub uninterp spec fn origins_in(v: OriginVec) -> Seq<Origin>;

/// `SmallVec::new`: the new vector holds nothing.
///
/// The call checks the layout of the backing array, which for an array of one
/// item cannot fail.
#[verifier::external_body]
pub(crate) fn new_letters() -> (v: LetterVec)
    ensures
        letters_in(v) == Seq::<char>::empty(),
{
    LetterVec { items: SmallVec::new() }
}

/// `SmallVec::push`: the letter is appended behind those already held.
///
/// The call panics when the vector cannot grow; `ENTRY_LIMIT` rules that out.
#[verifier::external_body]
pub(crate) fn push_letter(v: &mut LetterVec, letter: char)
    requires
        letters_in(*old(v)).len() < ENTRY_LIMIT,
    ensures
        letters_in(*final(v)) == letters_in(*old(v)).push(letter),
{
    v.items.push(letter)
}

/// `SmallVec::as_slice`: the slice holds the vector's letters in their order.
#[verifier::external_body]
pub(crate) fn letters_as_slice(v: &LetterVec) -> (s: &[char])
    ensures
        s@ == letters_in(*v),
{
    v.items.as_slice()
}

/// `SmallVec::clone`: the copy holds the same letters in the same order.
///
/// The copy is collected from the slice, so it grows as `push` does.
#[verifier::external_body]
pub(crate) fn clone_letters(v: &LetterVec) -> (copy: LetterVec)
    requires
        letters_in(*v).len() <= ENTRY_LIMIT,
    ensures
        letters_in(copy) == letters_in(*v),
{
    LetterVec { items: v.items.clone() }
}

/// `SmallVec::new`: the new vector holds nothing.
///
/// The call checks the layout of the backing array, which for an array of one
/// item cannot fail.
#[verifier::external_body]
pub(crate) fn new_origins() -> (v: OriginVec)
    ensures
        origins_in(v) == Seq::<Origin>::empty(),
{
    OriginVec { items: SmallVec::new() }
}

/// `SmallVec::push`: the origin is appended behind those already held.
///
/// The call panics when the vector cannot grow; `ENTRY_LIMIT` rules that out.
#[verifier::external_body]
pub(crate) fn push_origin(v: &mut OriginVec, origin: Origin)
    requires
        origins_in(*old(v)).len() < ENTRY_LIMIT,
    ensures
        origins_in(*final(v)) == origins_in(*old(v)).push(origin),
{
    v.items.push(origin)
}

/// `SmallVec::as_slice`: the slice holds the vector's origins in their order.
#[verifier::external_body]
pub(crate) fn origins_as_slice(v: &OriginVec) -> (s: &[Origin])
    ensures
        s@ == origins_in(*v),
{
    v.items.as_slice()
}

/// `SmallVec::clone`: the copy holds the same origins in the same order.
///
/// The copy is collected from the slice, so it grows as `push` does.
#[verifier::external_body]
pub(crate) fn clone_origins(v: &OriginVec) -> (copy: OriginVec)
    requires
        origins_in(*v).len() <= ENTRY_LIMIT,
    ensures
        origins_in(copy) == origins_in(*v),
{
    OriginVec { items: v.items.clone() }
}

} // verus!
