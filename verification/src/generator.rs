//! The query builder: it gathers criteria and draws records that meet them.

use crate::entries::{
    holds_any_origin, holds_letter, insert_letter, insert_origin,
    lemma_distinct_letters_bounded, lemma_distinct_origins_bounded,
};
use crate::filter::{
    lemma_filter_push, lemma_matching_exact, lemma_positions_push, positions, records_of, Filter,
};
use crate::inline::{
    clone_letters, clone_origins, letters_in, new_letters, new_origins, origins_in, LetterVec,
    OriginVec,
};
use crate::name::{Gender, Name, NameKind};
use crate::origin::Origin;
use crate::sampling::choose_one;
use rand::rngs::StdRng;
use vstd::prelude::*;
use vstd::string::StrSliceExecFns;

verus! {

/// A query over a dataset of names.
///
/// A new generator admits every record. Each call that names letters or
/// origins adds to those named before; each call that asks for a kind or a
/// gender replaces what was asked for before. The model of a generator is the
/// [`Filter`] it has gathered.
#[derive(Debug)]
pub struct Generator {
    first_letters: Option<LetterVec>,
    origins: Option<OriginVec>,
    kind: Option<NameKind>,
    gender: Option<Gender>,
}

impl View for Generator {
    type V = Filter;

    closed spec fn view(&self) -> Filter {
        Filter {
            first_letters: match self.first_letters {
                Some(held) => Some(letters_in(held).to_set()),
                None => None,
            },
            origins: match self.origins {
                Some(held) => Some(origins_in(held).to_set()),
                None => None,
            },
            kind: self.kind,
            gender: self.gender,
        }
    }
}

impl Clone for Generator {
    /// The copy has gathered the same criteria; changing it leaves `self` alone.
    fn clone(&self) -> (copy: Self)
        ensures
            copy@ == self@,
            copy@.well_formed(),
    {
        proof {
            use_type_invariant(self);
        }
        let first_letters = match &self.first_letters {
            Some(held) => {
                proof {
                    lemma_distinct_letters_bounded(letters_in(*held));
                }
                Some(clone_letters(held))
            },
            None => None,
        };
        let origins = match &self.origins {
            Some(held) => {
                proof {
                    lemma_distinct_origins_bounded(origins_in(*held));
                }
                Some(clone_origins(held))
            },
            None => None,
        };
        proof {
            self.lemma_well_formed();
        }
        Generator { first_letters, origins, kind: self.kind, gender: self.gender }
    }
}

impl Default for Generator {
    fn default() -> (g: Self)
        ensures
            g@ == Filter::unfiltered(),
            g@.well_formed(),
    {
        Generator::new()
    }
}

impl Generator {
    /// A vector of entries that is present holds at least one entry, and
    /// holds none twice: so a set of entries stays small however often the
    /// same letter or origin is added.
    #[verifier::type_invariant]
    spec fn entries_well_formed(self) -> bool {
        &&& self.first_letters matches Some(held) ==> letters_in(held).len() > 0 && letters_in(
            held,
        ).no_duplicates()
        &&& self.origins matches Some(held) ==> origins_in(held).len() > 0 && origins_in(
            held,
        ).no_duplicates()
    }

    /// Vectors that hold an entry stand for sets that are not empty.
    proof fn lemma_well_formed(self)
        requires
            self.entries_well_formed(),
        ensures
            self@.well_formed(),
    {
        if let Some(held) = self.first_letters {
            let first = letters_in(held)[0];
            assert(letters_in(held).contains(first));
            assert(self@.first_letters->0.contains(first));
        }
        if let Some(held) = self.origins {
            let first = origins_in(held)[0];
            assert(origins_in(held).contains(first));
            assert(self@.origins->0.contains(first));
        }
    }

    /// A generator without criteria.
    pub fn new() -> (g: Self)
        ensures
            g@ == Filter::unfiltered(),
            g@.well_formed(),
    {
        Generator { first_letters: None, origins: None, kind: None, gender: None }
    }

    /// Also admits names that start with `letter`.
    pub fn by_first_letter(&mut self, letter: char) -> (chain: &mut Self)
        ensures
            chain@ == old(self)@.with_letters(set![letter]),
            chain@.well_formed(),
            *final(self) == *final(chain),
    {
        proof {
            use_type_invariant(&*self);
        }
        let mut slot: Option<LetterVec> = None;
        core::mem::swap(&mut self.first_letters, &mut slot);
        let mut held = match slot {
            Some(held) => held,
            None => new_letters(),
        };
        insert_letter(&mut held, letter);
        proof {
            assert(letters_in(held).to_set().contains(letter));
            assert(letters_in(held).contains(letter));
        }
        self.first_letters = Some(held);
        proof {
            assert(self@.first_letters->0 =~= old(self)@.letters().union(set![letter]));
            self.lemma_well_formed();
        }
        self
    }

    /// Also admits names that start with one of `letters`.
    ///
    /// Where `letters` is empty nothing changes: a generator without a letter
    /// criterion stays without one.
    pub fn by_first_letters(&mut self, letters: &[char]) -> (chain: &mut Self)
        ensures
            chain@ == if letters@.len() == 0 {
                old(self)@
            } else {
                old(self)@.with_letters(letters@.to_set())
            },
            chain@.well_formed(),
            *final(self) == *final(chain),
    {
        proof {
            use_type_invariant(&*self);
            self.lemma_well_formed();
        }
        if letters.len() == 0 {
            return self;
        }
        let mut slot: Option<LetterVec> = None;
        core::mem::swap(&mut self.first_letters, &mut slot);
        let mut held = match slot {
            Some(held) => held,
            None => new_letters(),
        };
        let ghost before = letters_in(held).to_set();
        let mut i: usize = 0;
        while i < letters.len()
            invariant
                i <= letters@.len(),
                letters_in(held).no_duplicates(),
                letters_in(held).to_set() =~= before.union(letters@.take(i as int).to_set()),
            decreases letters@.len() - i,
        {
            insert_letter(&mut held, letters[i]);
            proof {
                letters@.take(i as int).lemma_push_to_set_commute(letters@[i as int]);
                assert(letters@.take(i + 1) =~= letters@.take(i as int).push(letters@[i as int]));
            }
            i += 1;
        }
        proof {
            assert(letters@.take(i as int) =~= letters@);
            assert(letters@.contains(letters@[0]));
            assert(letters_in(held).to_set().contains(letters@[0]));
            assert(letters_in(held).contains(letters@[0]));
        }
        self.first_letters = Some(held);
        proof {
            assert(self@.first_letters->0 =~= old(self)@.letters().union(letters@.to_set()));
            self.lemma_well_formed();
        }
        self
    }

    /// Also admits names that carry `origin`.
    pub fn by_origin(&mut self, origin: Origin) -> (chain: &mut Self)
        ensures
            chain@ == old(self)@.with_origins(set![origin]),
            chain@.well_formed(),
            *final(self) == *final(chain),
    {
        proof {
            use_type_invariant(&*self);
        }
        let mut slot: Option<OriginVec> = None;
        core::mem::swap(&mut self.origins, &mut slot);
        let mut held = match slot {
            Some(held) => held,
            None => new_origins(),
        };
        insert_origin(&mut held, origin);
        proof {
            assert(origins_in(held).to_set().contains(origin));
            assert(origins_in(held).contains(origin));
        }
        self.origins = Some(held);
        proof {
            assert(self@.origins->0 =~= old(self)@.tags().union(set![origin]));
            self.lemma_well_formed();
        }
        self
    }

    /// Also admits names that carry one of `origins`.
    ///
    /// Where `origins` is empty nothing changes: a generator without an
    /// origin criterion stays without one.
    pub fn by_origins(&mut self, origins: &[Origin]) -> (chain: &mut Self)
        ensures
            chain@ == if origins@.len() == 0 {
                old(self)@
            } else {
                old(self)@.with_origins(origins@.to_set())
            },
            chain@.well_formed(),
            *final(self) == *final(chain),
    {
        proof {
            use_type_invariant(&*self);
            self.lemma_well_formed();
        }
        if origins.len() == 0 {
            return self;
        }
        let mut slot: Option<OriginVec> = None;
        core::mem::swap(&mut self.origins, &mut slot);
        let mut held = match slot {
            Some(held) => held,
            None => new_origins(),
        };
        let ghost before = origins_in(held).to_set();
        let mut i: usize = 0;
        while i < origins.len()
            invariant
                i <= origins@.len(),
                origins_in(held).no_duplicates(),
                origins_in(held).to_set() =~= before.union(origins@.take(i as int).to_set()),
            decreases origins@.len() - i,
        {
            insert_origin(&mut held, origins[i]);
            proof {
                origins@.take(i as int).lemma_push_to_set_commute(origins@[i as int]);
                assert(origins@.take(i + 1) =~= origins@.take(i as int).push(origins@[i as int]));
            }
            i += 1;
        }
        proof {
            assert(origins@.take(i as int) =~= origins@);
            assert(origins@.contains(origins@[0]));
            assert(origins_in(held).to_set().contains(origins@[0]));
            assert(origins_in(held).contains(origins@[0]));
        }
        self.origins = Some(held);
        proof {
            assert(self@.origins->0 =~= old(self)@.tags().union(origins@.to_set()));
            self.lemma_well_formed();
        }
        self
    }

    /// Admits first names only, whatever kind was asked for before.
    pub fn only_first_names(&mut self) -> (chain: &mut Self)
        ensures
            chain@ == old(self)@.with_kind(NameKind::First),
            chain@.well_formed(),
            *final(self) == *final(chain),
    {
        proof {
            use_type_invariant(&*self);
            self.lemma_well_formed();
        }
        self.kind = Some(NameKind::First);
        self
    }

    /// Admits last names only, whatever kind was asked for before.
    pub fn only_last_names(&mut self) -> (chain: &mut Self)
        ensures
            chain@ == old(self)@.with_kind(NameKind::Last),
            chain@.well_formed(),
            *final(self) == *final(chain),
    {
        proof {
            use_type_invariant(&*self);
            self.lemma_well_formed();
        }
        self.kind = Some(NameKind::Last);
        self
    }

    /// Among first names admits the masculine ones only.
    pub fn only_masculine(&mut self) -> (chain: &mut Self)
        ensures
            chain@ == old(self)@.with_gender(Gender::Male),
            chain@.well_formed(),
            *final(self) == *final(chain),
    {
        proof {
            use_type_invariant(&*self);
            self.lemma_well_formed();
        }
        self.gender = Some(Gender::Male);
        self
    }

    /// Among first names admits the feminine ones only.
    pub fn only_feminine(&mut self) -> (chain: &mut Self)
        ensures
            chain@ == old(self)@.with_gender(Gender::Female),
            chain@.well_formed(),
            *final(self) == *final(chain),
    {
        proof {
            use_type_invariant(&*self);
            self.lemma_well_formed();
        }
        self.gender = Some(Gender::Female);
        self
    }

    /// Among first names admits the unisex ones only.
    pub fn only_unisex(&mut self) -> (chain: &mut Self)
        ensures
            chain@ == old(self)@.with_gender(Gender::Unisex),
            chain@.well_formed(),
            *final(self) == *final(chain),
    {
        proof {
            use_type_invariant(&*self);
            self.lemma_well_formed();
        }
        self.gender = Some(Gender::Unisex);
        self
    }

    /// Whether the record passes every criterion gathered so far.
    pub fn matches(&self, name: &Name) -> (admitted: bool)
        ensures
            admitted == self@.admits(name@),
    {
        if let Some(held) = &self.first_letters {
            match first_letter(name.text.as_str()) {
                Some(letter) => {
                    if !holds_letter(held, letter) {
                        return false;
                    }
                },
                None => {
                    return false;
                },
            }
        }
        if let Some(held) = &self.origins {
            if !holds_any_origin(held, &name.origins) {
                return false;
            }
        }
        if let Some(kind) = self.kind {
            if name.kind != kind {
                return false;
            }
        }
        if let Some(gender) = self.gender {
            if name.kind == NameKind::First && name.gender != gender {
                return false;
            }
        }
        true
    }

    /// The positions in `names` of the records that pass, in rising order.
    ///
    /// This is what a draw is made from: each passing record stands in it
    /// once.
    pub fn candidates(&self, names: &[Name]) -> (found: Vec<usize>)
        ensures
            found@.map_values(|p: usize| p as int) == self@.matching(records_of(names@)),
            forall|k: int|
                0 <= k < found@.len() ==> (#[trigger] found@[k]) < names@.len() && self@.admits(
                    names@[found@[k] as int]@,
                ),
            forall|j: int, k: int| 0 <= j < k < found@.len() ==> found@[j] < found@[k],
            forall|p: int|
                0 <= p < names@.len() && self@.admits((#[trigger] names@[p])@) ==> exists|k: int|
                    0 <= k < found@.len() && found@[k] == p,
    {
        let ghost records = records_of(names@);
        let ghost keep = self@.admits_at(records);
        let mut found: Vec<usize> = Vec::new();
        let mut i: usize = 0;
        proof {
            reveal(Seq::filter);
            assert(found@.map_values(|p: usize| p as int) =~= positions(0).filter(keep));
        }
        while i < names.len()
            invariant
                i <= names@.len(),
                records == records_of(names@),
                keep == self@.admits_at(records),
                found@.map_values(|p: usize| p as int) == positions(i as nat).filter(keep),
            decreases names@.len() - i,
        {
            let ghost before = found@.map_values(|p: usize| p as int);
            proof {
                lemma_positions_push(i as nat);
                lemma_filter_push(positions(i as nat), i as int, keep);
            }
            if self.matches(&names[i]) {
                found.push(i);
                assert(found@.map_values(|p: usize| p as int) =~= before.push(i as int));
            }
            i += 1;
        }
        proof {
            let matching = self@.matching(records);
            lemma_matching_exact(self@, records);
            assert forall|k: int| 0 <= k < found@.len() implies (#[trigger] found@[k])
                < names@.len() && self@.admits(names@[found@[k] as int]@) by {
                assert(matching[k] == found@[k] as int);
            }
            assert forall|j: int, k: int| 0 <= j < k < found@.len() implies found@[j]
                < found@[k] by {
                assert(matching[j] == found@[j] as int);
                assert(matching[k] == found@[k] as int);
            }
            assert forall|p: int|
                0 <= p < names@.len() && self@.admits((#[trigger] names@[p])@) implies exists|
                k: int,
            | 0 <= k < found@.len() && found@[k] == p by {
                assert(self@.admits(records[p]));
                let k = matching.index_of(p);
                assert(found@[k] as int == matching[k]);
            }
        }
        found
    }

    /// Draws one of the records that pass and returns a copy of it; `None`
    /// where no record passes. A generator without criteria always finds a
    /// record in a dataset that is not empty.
    ///
    /// Which record is drawn is up to `rng`: it is handed the candidates,
    /// each passing record once, and picks one of them with equal chance.
    /// The generator is left as it was, so further draws under the same
    /// criteria can follow.
    pub fn finish(&self, names: &[Name], rng: &mut StdRng) -> (drawn: Option<Name>)
        ensures
            drawn is Some <==> self@.admits_any(records_of(names@)),
            drawn matches Some(name) ==> self@.draws(records_of(names@), name@),
            self@ == Filter::unfiltered() && names@.len() > 0 ==> drawn is Some,
    {
        let found = self.candidates(names);
        let chosen = choose_one(&found, rng);
        proof {
            let records = records_of(names@);
            if self@ == Filter::unfiltered() && names@.len() > 0 {
                assert(self@.admits(records[0]));
            }
            lemma_matching_exact(self@, records);
            assert(self@.matching(records).len() == found@.len());
            if let Some(p) = chosen {
                let k = found@.index_of(p);
                assert(records[p as int] == names@[found@[k] as int]@);
            }
        }
        record_at(names, chosen)
    }

    /// Draws a first name and a last name under the criteria gathered so far,
    /// whatever kind they ask for, and returns both; `None` unless both draws
    /// find a record.
    pub fn full_name(&self, names: &[Name], rng: &mut StdRng) -> (pair: Option<(Name, Name)>)
        ensures
            pair is Some <==> self@.with_kind(NameKind::First).admits_any(records_of(names@))
                && self@.with_kind(NameKind::Last).admits_any(records_of(names@)),
            pair matches Some((first, last)) ==> self@.with_kind(NameKind::First).draws(
                records_of(names@),
                first@,
            ) && self@.with_kind(NameKind::Last).draws(records_of(names@), last@),
    {
        let mut first_names = self.clone();
        first_names.only_first_names();
        let first = first_names.finish(names, rng);
        let mut last_names = self.clone();
        last_names.only_last_names();
        let last = last_names.finish(names, rng);
        match (first, last) {
            (Some(first), Some(last)) => Some((first, last)),
            _ => None,
        }
    }
}

/// The letter that a text starts with, `None` for the empty text.
pub fn first_letter(text: &str) -> (letter: Option<char>)
    ensures
        letter == if text@.len() > 0 {
            Some(text@[0])
        } else {
            None
        },
{
    if text.is_empty() {
        None
    } else {
        Some(text.get_char(0))
    }
}

/// A copy of the record at the chosen position; `None` where no position was
/// chosen or the position lies outside the dataset.
pub fn record_at(names: &[Name], chosen: Option<usize>) -> (record: Option<Name>)
    ensures
        record is Some <==> (chosen matches Some(p) && p < names@.len()),
        record matches Some(name) ==> name@ == names@[chosen->0 as int]@,
{
    match chosen {
        Some(p) => {
            if p < names.len() {
                Some(names[p].clone())
            } else {
                None
            }
        },
        None => None,
    }
}

} // verus!
