//! What holds of every query and every dataset.

use crate::filter::{lemma_matching_exact, positions, Filter};
use crate::name::{Gender, NameKind, NameView};
use crate::origin::Origin;
use vstd::prelude::*;

verus! {

/// Two tests that agree on every item of a sequence keep the same items.
pub proof fn lemma_filter_agrees<A>(
    items: Seq<A>,
    keep: spec_fn(A) -> bool,
    other: spec_fn(A) -> bool,
)
    requires
        forall|i: int| 0 <= i < items.len() ==> keep(#[trigger] items[i]) == other(items[i]),
    ensures
        items.filter(keep) == items.filter(other),
    decreases items.len(),
{
    reveal(Seq::filter);
    if items.len() > 0 {
        lemma_filter_agrees(items.drop_last(), keep, other);
    }
}

/// Two queries that admit the same records of a dataset have the same
/// candidates in it.
pub proof fn lemma_same_verdicts_same_candidates(a: Filter, b: Filter, records: Seq<NameView>)
    requires
        forall|i: int|
            0 <= i < records.len() ==> a.admits(#[trigger] records[i]) == b.admits(records[i]),
    ensures
        a.matching(records) == b.matching(records),
{
    let all = positions(records.len());
    assert forall|i: int| 0 <= i < all.len() implies a.admits_at(records)(#[trigger] all[i])
        == b.admits_at(records)(all[i]) by {
        assert(a.admits(records[i]) == b.admits(records[i]));
    }
    lemma_filter_agrees(all, a.admits_at(records), b.admits_at(records));
}

/// A query without criteria admits every record, so in a dataset that is not
/// empty it has a candidate.
pub proof fn lemma_unfiltered_admits_all(records: Seq<NameView>)
    ensures
        forall|name: NameView| Filter::unfiltered().admits(name),
        Filter::unfiltered().matching(records).len() == records.len(),
        records.len() > 0 ==> Filter::unfiltered().admits_any(records),
{
    let filter = Filter::unfiltered();
    if records.len() > 0 {
        assert(filter.admits(records[0]));
    }
    let keep = filter.admits_at(records);
    lemma_all_kept(records.len(), keep);
}

/// Where every position passes, every position is kept.
proof fn lemma_all_kept(n: nat, keep: spec_fn(int) -> bool)
    requires
        forall|p: int| #[trigger] keep(p),
    ensures
        positions(n).filter(keep) == positions(n),
    decreases n,
{
    reveal(Seq::filter);
    if n > 0 {
        let m = (n - 1) as nat;
        lemma_all_kept(m, keep);
        assert(positions(n).drop_last() =~= positions(m));
        assert(positions(m).push(m as int) =~= positions(n));
    }
}

/// A query has a candidate in a dataset exactly where it admits one of the
/// records, and every candidate is the position of a record that it admits.
pub proof fn lemma_candidates_sound_and_complete(filter: Filter, records: Seq<NameView>)
    ensures
        filter.matching(records).len() == 0 <==> forall|i: int|
            0 <= i < records.len() ==> !filter.admits(#[trigger] records[i]),
        forall|k: int|
            0 <= k < filter.matching(records).len() ==> {
                let p = #[trigger] filter.matching(records)[k];
                0 <= p < records.len() && filter.admits(records[p])
            },
{
    lemma_matching_exact(filter, records);
    if filter.matching(records).len() == 0 {
        assert forall|i: int| 0 <= i < records.len() implies !filter.admits(
            #[trigger] records[i],
        ) by {
            if filter.admits(records[i]) {
                assert(filter.matching(records).contains(i));
            }
        }
    }
}

/// A last name passes or fails whatever gender the query asks for.
pub proof fn lemma_gender_not_applied_to_last_names(
    filter: Filter,
    gender: Gender,
    name: NameView,
)
    requires
        name.kind == NameKind::Last,
    ensures
        filter.with_gender(gender).admits(name) == filter.admits(name),
        filter.with_gender(gender).admits(name) == (Filter { gender: None, ..filter }).admits(name),
{
}

/// Among queries that ask for last names, the gender asked for changes
/// nothing: two such queries that differ in it alone have the same candidates.
pub proof fn lemma_last_names_ignore_gender(a: Filter, b: Filter, records: Seq<NameView>)
    requires
        a.kind == Some(NameKind::Last),
        b == (Filter { gender: b.gender, ..a }),
    ensures
        a.matching(records) == b.matching(records),
        a.admits_any(records) == b.admits_any(records),
{
    lemma_same_verdicts_same_candidates(a, b, records);
    lemma_matching_exact(a, records);
    lemma_matching_exact(b, records);
}

/// A query for the last names of one origin has no candidate in a dataset
/// none of whose last names carries that origin.
pub proof fn lemma_origin_without_last_names(
    filter: Filter,
    origin: Origin,
    records: Seq<NameView>,
)
    requires
        filter.origins == Some(set![origin]),
        filter.kind == Some(NameKind::Last),
        forall|i: int|
            0 <= i < records.len() && (#[trigger] records[i]).kind == NameKind::Last
                ==> !records[i].origins.contains(origin),
    ensures
        !filter.admits_any(records),
        filter.matching(records).len() == 0,
{
    lemma_matching_exact(filter, records);
    assert forall|i: int| 0 <= i < records.len() implies !filter.admits(#[trigger] records[i]) by {
        if filter.admits(records[i]) {
            let tags = records[i].origins;
            let j = choose|j: int| 0 <= j < tags.len() && set![origin].contains(#[trigger] tags[j]);
            assert(tags[j] == origin);
            assert(tags.contains(origin));
        }
    }
}

/// A pair of a first name and a last name can be drawn exactly where the
/// criteria other than the kind admit a first name and admit a last name.
pub proof fn lemma_pair_needs_both_kinds(filter: Filter, records: Seq<NameView>)
    ensures
        (filter.with_kind(NameKind::First).admits_any(records) && filter.with_kind(
            NameKind::Last,
        ).admits_any(records)) <==> ((exists|i: int|
            0 <= i < records.len() && (#[trigger] records[i]).kind == NameKind::First && (Filter {
                kind: None,
                ..filter
            }).admits(records[i])) && (exists|i: int|
            0 <= i < records.len() && (#[trigger] records[i]).kind == NameKind::Last && (Filter {
                kind: None,
                ..filter
            }).admits(records[i]))),
{
    let open = Filter { kind: None, ..filter };
    let firsts = filter.with_kind(NameKind::First);
    let lasts = filter.with_kind(NameKind::Last);
    if firsts.admits_any(records) {
        let i = choose|i: int| 0 <= i < records.len() && firsts.admits(#[trigger] records[i]);
        assert(records[i].kind == NameKind::First && open.admits(records[i]));
    }
    if lasts.admits_any(records) {
        let i = choose|i: int| 0 <= i < records.len() && lasts.admits(#[trigger] records[i]);
        assert(records[i].kind == NameKind::Last && open.admits(records[i]));
    }
    if exists|i: int|
        0 <= i < records.len() && (#[trigger] records[i]).kind == NameKind::First && open.admits(
            records[i],
        ) {
        let i = choose|i: int|
            0 <= i < records.len() && (#[trigger] records[i]).kind == NameKind::First
                && open.admits(records[i]);
        assert(firsts.admits(records[i]));
    }
    if exists|i: int|
        0 <= i < records.len() && (#[trigger] records[i]).kind == NameKind::Last && open.admits(
            records[i],
        ) {
        let i = choose|i: int|
            0 <= i < records.len() && (#[trigger] records[i]).kind == NameKind::Last
                && open.admits(records[i]);
        assert(lasts.admits(records[i]));
    }
}

/// Letters and origins add up: naming some and then more of them comes to
/// naming all of them at once.
pub proof fn lemma_entries_accumulate(
    filter: Filter,
    letters: Set<char>,
    more_letters: Set<char>,
    origins: Set<Origin>,
    more_origins: Set<Origin>,
)
    ensures
        filter.with_letters(letters).with_letters(more_letters) == filter.with_letters(
            letters.union(more_letters),
        ),
        filter.with_origins(origins).with_origins(more_origins) == filter.with_origins(
            origins.union(more_origins),
        ),
{
    assert(filter.with_letters(letters).letters().union(more_letters) =~= filter.letters().union(
        letters.union(more_letters),
    ));
    assert(filter.with_origins(origins).tags().union(more_origins) =~= filter.tags().union(
        origins.union(more_origins),
    ));
}

/// After letters are named, a text passes exactly where it starts with one of
/// them or with one named before; after origins are named, tags pass exactly
/// where one of them is among those origins or among the ones named before.
pub proof fn lemma_either_entry_admits(
    filter: Filter,
    letters: Set<char>,
    origins: Set<Origin>,
    name: NameView,
)
    ensures
        filter.with_letters(letters).admits_text(name.text) <==> name.text.len() > 0 && (
        filter.letters().contains(name.text[0]) || letters.contains(name.text[0])),
        filter.with_origins(origins).admits_tags(name.origins) <==> exists|j: int|
            0 <= j < name.origins.len() && (filter.tags().contains(#[trigger] name.origins[j])
                || origins.contains(name.origins[j])),
{
    let named = filter.tags().union(origins);
    if filter.with_origins(origins).admits_tags(name.origins) {
        let j = choose|j: int|
            0 <= j < name.origins.len() && named.contains(#[trigger] name.origins[j]);
        assert(filter.tags().contains(name.origins[j]) || origins.contains(name.origins[j]));
    }
    if exists|j: int|
        0 <= j < name.origins.len() && (filter.tags().contains(#[trigger] name.origins[j])
            || origins.contains(name.origins[j])) {
        let j = choose|j: int|
            0 <= j < name.origins.len() && (filter.tags().contains(#[trigger] name.origins[j])
                || origins.contains(name.origins[j]));
        assert(named.contains(name.origins[j]));
    }
}

/// A kind or a gender asked for replaces the one asked for before.
pub proof fn lemma_last_choice_counts(
    filter: Filter,
    kind: NameKind,
    then_kind: NameKind,
    gender: Gender,
    then_gender: Gender,
)
    ensures
        filter.with_kind(kind).with_kind(then_kind) == filter.with_kind(then_kind),
        filter.with_gender(gender).with_gender(then_gender) == filter.with_gender(then_gender),
{
}

} // verus!
