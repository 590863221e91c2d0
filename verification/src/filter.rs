//! The mathematical model of a query: which records a set of criteria admits.

use crate::name::{Gender, Name, NameKind, NameView};
use crate::origin::Origin;
use vstd::prelude::*;

verus! {

/// The criteria that a query has gathered.
///
/// Each dimension is either absent, and then restricts nothing, or present.
/// In the criteria of a generator a present set of letters or of origins
/// names at least one: see [`Filter::well_formed`].
pub struct Filter {
    /// The letters one of which a record's text must start with.
    pub first_letters: Option<Set<char>>,
    /// The origins one of which a record must carry.
    pub origins: Option<Set<Origin>>,
    /// The kind that a record must have.
    pub kind: Option<NameKind>,
    /// The gender that a first name must have. Last names are not held to it.
    pub gender: Option<Gender>,
}

impl Filter {
    /// The query that restricts nothing.
    pub open spec fn unfiltered() -> Filter {
        Filter { first_letters: None, origins: None, kind: None, gender: None }
    }

    /// A set of letters or of origins that is present is not empty.
    pub open spec fn well_formed(self) -> bool {
        &&& self.first_letters matches Some(held) ==> exists|letter: char| held.contains(letter)
        &&& self.origins matches Some(held) ==> exists|origin: Origin| held.contains(origin)
    }

    /// The letters that this query allows, none where it has no letter criterion.
    pub open spec fn letters(self) -> Set<char> {
        match self.first_letters {
            Some(held) => held,
            None => Set::empty(),
        }
    }

    /// The origins that this query names, none where it has no origin criterion.
    pub open spec fn tags(self) -> Set<Origin> {
        match self.origins {
            Some(held) => held,
            None => Set::empty(),
        }
    }

    /// This query with `more` added to the letters it allows.
    ///
    /// The result is well formed where `more` is not empty or letters were
    /// named before; a generator is never given an empty `more`.
    pub open spec fn with_letters(self, more: Set<char>) -> Filter {
        Filter { first_letters: Some(self.letters().union(more)), ..self }
    }

    /// This query with `more` added to the origins it names.
    ///
    /// The result is well formed where `more` is not empty or origins were
    /// named before; a generator is never given an empty `more`.
    pub open spec fn with_origins(self, more: Set<Origin>) -> Filter {
        Filter { origins: Some(self.tags().union(more)), ..self }
    }

    /// This query with its kind criterion set to `kind`, whatever it was.
    pub open spec fn with_kind(self, kind: NameKind) -> Filter {
        Filter { kind: Some(kind), ..self }
    }

    /// This query with its gender criterion set to `gender`, whatever it was.
    pub open spec fn with_gender(self, gender: Gender) -> Filter {
        Filter { gender: Some(gender), ..self }
    }

    /// The text starts with one of the allowed letters, where letters are named.
    pub open spec fn admits_text(self, text: Seq<char>) -> bool {
        self.first_letters matches Some(allowed) ==> text.len() > 0 && allowed.contains(text[0])
    }

    /// One of the tags is among the named origins, where origins are named.
    pub open spec fn admits_tags(self, tags: Seq<Origin>) -> bool {
        self.origins matches Some(named) ==> exists|j: int|
            0 <= j < tags.len() && named.contains(#[trigger] tags[j])
    }

    /// The kind is the one asked for, where a kind is asked for.
    pub open spec fn admits_kind(self, kind: NameKind) -> bool {
        self.kind matches Some(wanted) ==> kind == wanted
    }

    /// A first name has the gender asked for, where a gender is asked for.
    /// A last name passes whatever its gender field holds.
    pub open spec fn admits_gender(self, kind: NameKind, gender: Gender) -> bool {
        self.gender matches Some(wanted) ==> kind == NameKind::First ==> gender == wanted
    }

    /// The record passes every criterion that is present.
    pub open spec fn admits(self, name: NameView) -> bool {
        &&& self.admits_text(name.text)
        &&& self.admits_tags(name.origins)
        &&& self.admits_kind(name.kind)
        &&& self.admits_gender(name.kind, name.gender)
    }

    /// Some record of the dataset passes.
    pub open spec fn admits_any(self, records: Seq<NameView>) -> bool {
        exists|i: int| 0 <= i < records.len() && self.admits(#[trigger] records[i])
    }

    /// The record is one of the dataset's and passes: what a draw may yield.
    pub open spec fn draws(self, records: Seq<NameView>, name: NameView) -> bool {
        exists|i: int| 0 <= i < records.len() && #[trigger] records[i] == name && self.admits(name)
    }

    /// Whether the record at a position of the dataset passes.
    pub open spec fn admits_at(self, records: Seq<NameView>) -> spec_fn(int) -> bool {
        |i: int| self.admits(records[i])
    }

    /// The positions of the records that pass, in the order of the dataset.
    pub open spec fn matching(self, records: Seq<NameView>) -> Seq<int> {
        positions(records.len()).filter(self.admits_at(records))
    }
}

/// The positions `0, 1, .., n - 1`.
pub open spec fn positions(n: nat) -> Seq<int> {
    Seq::new(n, |i: int| i)
}

/// What a dataset holds: the model of each of its records, in order.
pub open spec fn records_of(names: Seq<Name>) -> Seq<NameView> {
    names.map_values(|name: Name| name@)
}

/// Filtering a sequence that has grown by one item keeps what was kept before
/// and, where the new item passes, keeps that item behind it.
pub proof fn lemma_filter_push<A>(items: Seq<A>, last: A, keep: spec_fn(A) -> bool)
    ensures
        items.push(last).filter(keep) == if keep(last) {
            items.filter(keep).push(last)
        } else {
            items.filter(keep)
        },
{
    reveal(Seq::filter);
    assert(items.push(last).drop_last() =~= items);
}

/// The positions below `n + 1` are those below `n`, and then `n`.
pub proof fn lemma_positions_push(n: nat)
    ensures
        positions(n + 1) == positions(n).push(n as int),
{
    assert(positions(n + 1) =~= positions(n).push(n as int));
}

/// The matching positions are exactly the positions of the records that pass,
/// each once, in rising order.
pub proof fn lemma_matching_exact(filter: Filter, records: Seq<NameView>)
    ensures
        forall|k: int|
            0 <= k < filter.matching(records).len() ==> {
                let p = #[trigger] filter.matching(records)[k];
                0 <= p < records.len() && filter.admits(records[p])
            },
        forall|j: int, k: int|
            0 <= j < k < filter.matching(records).len() ==> filter.matching(records)[j]
                < filter.matching(records)[k],
        forall|p: int|
            0 <= p < records.len() && filter.admits(#[trigger] records[p])
                ==> filter.matching(records).contains(p),
        filter.matching(records).len() > 0 <==> filter.admits_any(records),
{
    let keep = filter.admits_at(records);
    let matching = filter.matching(records);
    lemma_kept_positions(records.len(), keep);
    assert forall|p: int| 0 <= p < records.len() && filter.admits(
        #[trigger] records[p],
    ) implies matching.contains(p) by {
        assert(keep(p));
    }
    if matching.len() > 0 {
        let p = matching[0];
        assert(filter.admits(records[p]));
    }
    if filter.admits_any(records) {
        let p = choose|p: int| 0 <= p < records.len() && filter.admits(#[trigger] records[p]);
        assert(matching.contains(p));
    }
}

/// Of the positions below `n`, those kept are in range, pass, and rise; and
/// every position in range that passes is kept.
pub proof fn lemma_kept_positions(n: nat, keep: spec_fn(int) -> bool)
    ensures
        forall|k: int|
            0 <= k < positions(n).filter(keep).len() ==> {
                let p = #[trigger] positions(n).filter(keep)[k];
                0 <= p < n && keep(p)
            },
        forall|j: int, k: int|
            0 <= j < k < positions(n).filter(keep).len() ==> positions(n).filter(keep)[j]
                < positions(n).filter(keep)[k],
        forall|p: int| 0 <= p < n && keep(p) ==> positions(n).filter(keep).contains(p),
    decreases n,
{
    let kept = positions(n).filter(keep);
    if n == 0 {
        reveal(Seq::filter);
    } else {
        let m = (n - 1) as nat;
        let before = positions(m).filter(keep);
        lemma_kept_positions(m, keep);
        lemma_positions_push(m);
        lemma_filter_push(positions(m), m as int, keep);
        assert forall|p: int| 0 <= p < n && keep(p) implies kept.contains(p) by {
            if p < m {
                assert(before.contains(p));
                let k = before.index_of(p);
                assert(kept[k] == p);
            } else {
                assert(kept == before.push(m as int));
                assert(kept[kept.len() - 1] == p);
            }
        }
    }
}

} // verus!
