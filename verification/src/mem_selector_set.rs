//! The registry of selector sets kept in memory.

use vstd::prelude::*;
use crate::text::texts;
use crate::selector_set::DefineSelectorSetParams;
use crate::selector_set::DefineSelectorSetResult;
use crate::selector_set::ListSelectorSetParams;
use crate::selector_set::ListSelectorSetResult;
use crate::selector_set::RemoveSelectorSetParams;
use crate::selector_set::RegistryView;
use crate::selector_set::RemoveSelectorSetResult;
use crate::selector_set::SelectorSet;
use crate::selector_set::SelectorSetStorage;
use crate::selector_set::SelectorSetStorageError;
use crate::selector_set::SelectorSetView;
use crate::selector_set::define_all;
use crate::selector_set::distinct_names;
use crate::selector_set::find;
use crate::selector_set::find_from;
use crate::selector_set::lemma_upsert;
use crate::selector_set::pick;
use crate::selector_set::registered;
use crate::selector_set::registered_test;
use crate::selector_set::removed_names;
use crate::selector_set::sets_view;
use crate::selector_set::unnamed_test;
use crate::selector_set::upsert;

verus! {

/// A registry in memory: the sets in the order in which their names were
/// first defined, no name twice.
#[derive(Debug)]
pub struct MemSelectorSetStorage {
    selector_sets: Vec<SelectorSet>,
}

impl MemSelectorSetStorage {
    #[verifier::type_invariant]
    spec fn well_formed(&self) -> bool {
        distinct_names(self.held())
    }

    /// The sets that the registry holds.
    pub closed spec fn held(&self) -> Seq<SelectorSetView> {
        sets_view(self.selector_sets@)
    }

    /// A registry without sets.
    pub fn new() -> (r: Self)
        ensures
            r.registry() == Seq::<SelectorSetView>::empty(),
    {
        let r = MemSelectorSetStorage { selector_sets: Vec::new() };
        r
    }

    /// The number of registered sets.
    pub fn len(&self) -> (r: usize)
        ensures
            r == self.registry().len(),
            distinct_names(self.registry()),
    {
        proof {
            use_type_invariant(self);
        }
        self.selector_sets.len()
    }

    /// The sets, which leave the registry empty.
    fn take_sets(&mut self) -> (r: Vec<SelectorSet>)
        ensures
            sets_view(r@) == old(self).registry(),
            distinct_names(old(self).registry()),
    {
        proof {
            use_type_invariant(&*self);
        }
        let mut taken = MemSelectorSetStorage::new();
        std::mem::swap(self, &mut taken);
        taken.selector_sets
    }

    /// Of the given names those that are registered, in the order given.
    fn registered_among(&self, names: &Vec<String>) -> (r: Vec<String>)
        ensures
            texts(r@) == removed_names(self.registry(), texts(names@)),
    {
        let ghost given = texts(names@);
        let ghost known = registered_test(self.held());
        let mut found: Vec<String> = Vec::new();
        let mut i: usize = 0;
        while i < names.len()
            invariant
                i <= names.len(),
                given == texts(names@),
                known == registered_test(self.held()),
                texts(found@) == given.take(i as int).filter(known),
            decreases names.len() - i,
        {
            proof {
                let seen = given.take(i as int);
                seen.lemma_filter_push(given[i as int], known);
                assert(seen.push(given[i as int]) =~= given.take(i + 1));
            }
            let ghost held = texts(found@);
            if Self::position(&self.selector_sets, &names[i]) < self.selector_sets.len() {
                found.push(names[i].clone());
                assert(texts(found@) =~= held.push(given[i as int]));
            }
            i += 1;
        }
        assert(given.take(i as int) =~= given);
        found
    }

    /// The index of the set with the name, or the number of sets.
    fn position(sets: &Vec<SelectorSet>, name: &String) -> (r: usize)
        ensures
            r == find(sets_view(sets@), name@),
            r <= sets@.len(),
    {
        let mut i: usize = 0;
        while i < sets.len()
            invariant
                i <= sets.len(),
                find(sets_view(sets@), name@) == find_from(sets_view(sets@), name@, i as int),
            decreases sets.len() - i,
        {
            if sets[i].name == *name {
                return i;
            }
            i += 1;
        }
        i
    }
}

impl SelectorSetStorage for MemSelectorSetStorage {
    closed spec fn contents(&self) -> RegistryView {
        RegistryView { sets: self.held() }
    }

    open spec fn never_fails(&self) -> bool {
        true
    }

    fn define_selector_set(&mut self, params: &DefineSelectorSetParams) -> (r: Result<
        DefineSelectorSetResult,
        SelectorSetStorageError,
    >) {
        let mut sets = self.take_sets();
        let ghost before = old(self).registry();
        let ghost given = sets_view(params.selector_sets@);
        let mut i: usize = 0;
        while i < params.selector_sets.len()
            invariant
                i <= params.selector_sets.len(),
                given == sets_view(params.selector_sets@),
                sets_view(sets@) == define_all(before, given.take(i as int)),
                distinct_names(sets_view(sets@)),
            decreases params.selector_sets.len() - i,
        {
            let set = params.selector_sets[i].clone();
            proof {
                assert(given.take(i + 1).drop_last() =~= given.take(i as int));
                lemma_upsert(sets_view(sets@), set@);
            }
            let ghost held = sets_view(sets@);
            let at = Self::position(&sets, &set.name);
            if at < sets.len() {
                sets.set(at, set);
            } else {
                sets.push(set);
            }
            assert(sets_view(sets@) =~= upsert(held, given[i as int]));
            i += 1;
        }
        assert(given.take(i as int) =~= given);
        *self = MemSelectorSetStorage { selector_sets: sets };
        Ok(DefineSelectorSetResult {  })
    }

    fn remove_selector_set(&mut self, params: &RemoveSelectorSetParams) -> (r: Result<
        RemoveSelectorSetResult,
        SelectorSetStorageError,
    >) {
        let names = self.registered_among(&params.names);
        let mut sets = self.take_sets();
        let ghost before = old(self).registry();
        let ghost staying = unnamed_test(texts(params.names@));
        let mut kept: Vec<SelectorSet> = Vec::new();
        let mut i: usize = 0;
        while i < sets.len()
            invariant
                i <= sets.len(),
                sets@.len() == before.len(),
                distinct_names(before),
                staying == unnamed_test(texts(params.names@)),
                forall|j: int| i <= j < sets.len() ==> (#[trigger] sets@[j])@ == before[j],
                sets_view(kept@) == before.take(i as int).filter(staying),
                forall|j: int|
                    0 <= j < kept@.len() ==> exists|k: int|
                        0 <= k < i && before[k] == (#[trigger] kept@[j])@,
                distinct_names(sets_view(kept@)),
            decreases sets.len() - i,
        {
            let mut set = SelectorSet {
                name: String::new(),
                static_selectors: Vec::new(),
                dynamic_selectors: Vec::new(),
                modified_time: None,
            };
            std::mem::swap(&mut sets[i], &mut set);
            proof {
                let seen = before.take(i as int);
                seen.lemma_filter_push(set@, staying);
                assert(seen.push(set@) =~= before.take(i + 1));
            }
            if !crate::text::contains_string(&params.names, &set.name) {
                let ghost held = kept@;
                kept.push(set);
                assert(sets_view(kept@) =~= sets_view(held).push(set@));
            }
            i += 1;
        }
        assert(before.take(i as int) =~= before);
        *self = MemSelectorSetStorage { selector_sets: kept };
        Ok(RemoveSelectorSetResult { names })
    }

    fn list_selector_set(&self, params: &ListSelectorSetParams) -> (r: Result<
        ListSelectorSetResult,
        SelectorSetStorageError,
    >) {
        let ghost asked = texts(params.names@);
        let mut result: Vec<SelectorSet> = Vec::new();
        if params.names.len() == 0 {
            let mut i: usize = 0;
            while i < self.selector_sets.len()
                invariant
                    i <= self.selector_sets.len(),
                    result@.len() == i,
                    forall|j: int| 0 <= j < i ==> (#[trigger] result@[j])@ == self.held()[j],
                decreases self.selector_sets.len() - i,
            {
                result.push(self.selector_sets[i].clone());
                i += 1;
            }
            return Ok(ListSelectorSetResult { selector_set: result });
        }
        let mut i: usize = 0;
        while i < params.names.len()
            invariant
                i <= params.names.len(),
                asked == texts(params.names@),
                sets_view(result@) == pick(self.held(), asked.take(i as int)),
            decreases params.names.len() - i,
        {
            proof {
                assert(asked.take(i + 1).drop_last() =~= asked.take(i as int));
            }
            let at = Self::position(&self.selector_sets, &params.names[i]);
            if at < self.selector_sets.len() {
                result.push(self.selector_sets[at].clone());
            }
            i += 1;
        }
        assert(asked.take(i as int) =~= asked);
        Ok(ListSelectorSetResult { selector_set: result })
    }
}

} // verus!
