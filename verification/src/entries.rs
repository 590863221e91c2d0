//! Sets of letters and of origins, kept in inline vectors without duplicates.

use crate::inline::{
    letters_as_slice, letters_in, origins_as_slice, origins_in, push_letter, push_origin,
    LetterVec, OriginVec, ENTRY_LIMIT,
};
use crate::origin::{Origin, ORIGIN_COUNT};
use vstd::prelude::*;
use vstd::set_lib::{lemma_int_range, lemma_len_subset, set_int_range};

verus! {

/// A sequence without duplicates whose items have distinct codes in `0..bound`
/// holds at most `bound` items.
pub(crate) proof fn lemma_distinct_items_bounded<T>(
    items: Seq<T>,
    code: spec_fn(T) -> int,
    bound: nat,
)
    requires
        items.no_duplicates(),
        forall|i: int| 0 <= i < items.len() ==> 0 <= #[trigger] code(items[i]) < bound,
        forall|i: int, j: int|
            0 <= i < items.len() && 0 <= j < items.len() && #[trigger] code(items[i])
                == #[trigger] code(items[j]) ==> items[i] == items[j],
    ensures
        items.len() <= bound,
{
    let codes = items.map_values(code);
    assert(codes.no_duplicates());
    codes.unique_seq_to_set();
    let range = set_int_range(0, bound as int);
    assert forall|c: int| codes.to_set().contains(c) implies range.contains(c) by {
        let i = choose|i: int| 0 <= i < codes.len() && codes[i] == c;
        assert(c == code(items[i]));
    }
    lemma_int_range(0, bound as int);
    lemma_len_subset(codes.to_set(), range);
}

/// A letter's code point lies below `0x11_0000`.
proof fn lemma_code_point_bounded(letter: char)
    ensures
        0 <= (letter as int) < 0x11_0000,
{
}

/// Distinct letters are fewer than there are code points.
pub(crate) proof fn lemma_distinct_letters_bounded(letters: Seq<char>)
    requires
        letters.no_duplicates(),
    ensures
        letters.len() <= 0x11_0000,
        letters.len() <= ENTRY_LIMIT,
{
    let code = |c: char| c as int;
    assert forall|i: int| 0 <= i < letters.len() implies 0 <= #[trigger] code(letters[i])
        < 0x11_0000 by {
        lemma_code_point_bounded(letters[i]);
    }
    lemma_distinct_items_bounded(letters, code, 0x11_0000);
}

/// Distinct origins are at most as many as there are tags.
pub(crate) proof fn lemma_distinct_origins_bounded(origins: Seq<Origin>)
    requires
        origins.no_duplicates(),
    ensures
        origins.len() <= ORIGIN_COUNT,
        origins.len() <= ENTRY_LIMIT,
{
    let code = |o: Origin| o.ordinal();
    lemma_distinct_items_bounded(origins, code, ORIGIN_COUNT as nat);
}

/// Whether the vector holds the letter.
pub(crate) fn holds_letter(held: &LetterVec, letter: char) -> (found: bool)
    ensures
        found == letters_in(*held).contains(letter),
{
    let items = letters_as_slice(held);
    let mut i: usize = 0;
    while i < items.len()
        invariant
            i <= items@.len(),
            items@ == letters_in(*held),
            forall|k: int| 0 <= k < i ==> items@[k] != letter,
        decreases items@.len() - i,
    {
        if items[i] == letter {
            return true;
        }
        i += 1;
    }
    false
}

/// Whether the vector holds the origin.
pub(crate) fn holds_origin(held: &OriginVec, origin: Origin) -> (found: bool)
    ensures
        found == origins_in(*held).contains(origin),
{
    let items = origins_as_slice(held);
    let mut i: usize = 0;
    while i < items.len()
        invariant
            i <= items@.len(),
            items@ == origins_in(*held),
            forall|k: int| 0 <= k < i ==> items@[k] != origin,
        decreases items@.len() - i,
    {
        if items[i] == origin {
            return true;
        }
        i += 1;
    }
    false
}

/// Whether the vector holds one of the tags.
pub(crate) fn holds_any_origin(held: &OriginVec, tags: &Vec<Origin>) -> (found: bool)
    ensures
        found == exists|j: int|
            0 <= j < tags@.len() && origins_in(*held).to_set().contains(#[trigger] tags@[j]),
{
    let mut j: usize = 0;
    while j < tags.len()
        invariant
            j <= tags@.len(),
            forall|k: int| 0 <= k < j ==> !origins_in(*held).contains(#[trigger] tags@[k]),
        decreases tags@.len() - j,
    {
        if holds_origin(held, tags[j]) {
            return true;
        }
        j += 1;
    }
    false
}

/// Adds the letter to the set that the vector holds.
pub(crate) fn insert_letter(held: &mut LetterVec, letter: char)
    requires
        letters_in(*old(held)).no_duplicates(),
    ensures
        letters_in(*final(held)).no_duplicates(),
        letters_in(*final(held)).to_set() == letters_in(*old(held)).to_set().insert(letter),
{
    if !holds_letter(held, letter) {
        proof {
            let grown = letters_in(*held).push(letter);
            assert(grown.no_duplicates());
            lemma_distinct_letters_bounded(grown);
            letters_in(*held).lemma_push_to_set_commute(letter);
        }
        push_letter(held, letter);
    } else {
        assert(letters_in(*held).to_set().insert(letter) =~= letters_in(*held).to_set());
    }
}

/// Adds the origin to the set that the vector holds.
pub(crate) fn insert_origin(held: &mut OriginVec, origin: Origin)
    requires
        origins_in(*old(held)).no_duplicates(),
    ensures
        origins_in(*final(held)).no_duplicates(),
        origins_in(*final(held)).to_set() == origins_in(*old(held)).to_set().insert(origin),
{
    if !holds_origin(held, origin) {
        proof {
            let grown = origins_in(*held).push(origin);
            assert(grown.no_duplicates());
            lemma_distinct_origins_bounded(grown);
            origins_in(*held).lemma_push_to_set_commute(origin);
        }
        push_origin(held, origin);
    } else {
        assert(origins_in(*held).to_set().insert(origin) =~= origins_in(*held).to_set());
    }
}

} // verus!
