//! Selector sets: named templates of static selectors, which filter, and
//! dynamic selectors, which path tokens bind one by one from the left; and
//! the contract of a registry that keeps them by name.

use vstd::prelude::*;
use std::time::SystemTime;
use crate::clock::now;
use crate::selector::Selector;
use crate::selector::SelectorView;
use crate::selector::Selectors;
use crate::selector::clone_selectors;
use crate::selector::selectors_view;
use crate::text::texts;

verus! {

/// A selector set as mathematics.
pub struct SelectorSetView {
    pub name: Seq<char>,
    pub statics: Seq<SelectorView>,
    pub dynamics: Seq<SelectorView>,
    pub modified_time: Option<SystemTime>,
}

/// The index of the first selector at or after `from` that has no value, or
/// the length of the list when each has one.
pub open spec fn first_unbound_from(dynamics: Seq<SelectorView>, from: int) -> int
    decreases dynamics.len() - from,
{
    if from < 0 || from >= dynamics.len() {
        dynamics.len() as int
    } else if dynamics[from].values.len() == 0 {
        from
    } else {
        first_unbound_from(dynamics, from + 1)
    }
}

impl SelectorSetView {
    /// The index of the left-most dynamic selector without a value, or the
    /// number of dynamic selectors when each has one.
    pub open spec fn next_required_index(self) -> int {
        first_unbound_from(self.dynamics, 0)
    }

    /// Whether every dynamic selector has a value.
    pub open spec fn is_full(self) -> bool {
        self.next_required_index() == self.dynamics.len()
    }

    /// The set after `value` was bound: the left-most dynamic selector
    /// without a value takes it, and a full set stays as it is.
    pub open spec fn bind(self, value: Seq<char>) -> SelectorSetView {
        if self.is_full() {
            self
        } else {
            let at = self.next_required_index();
            SelectorSetView {
                dynamics: self.dynamics.update(
                    at,
                    SelectorView { key: self.dynamics[at].key, values: seq![value] },
                ),
                ..self
            }
        }
    }

    /// The static selectors followed by the dynamic ones.
    pub open spec fn all_selectors(self) -> Seq<SelectorView> {
        self.statics + self.dynamics
    }
}

/// What `first_unbound_from` finds: a selector without a value, and before it
/// only selectors that have one.
pub proof fn lemma_first_unbound(dynamics: Seq<SelectorView>, from: int)
    requires
        0 <= from <= dynamics.len(),
    ensures
        from <= first_unbound_from(dynamics, from) <= dynamics.len(),
        first_unbound_from(dynamics, from) < dynamics.len() ==> dynamics[first_unbound_from(
            dynamics,
            from,
        )].values.len() == 0,
        forall|j: int|
            from <= j < first_unbound_from(dynamics, from) ==> dynamics[j].values.len() > 0,
    decreases dynamics.len() - from,
{
    if from < dynamics.len() && dynamics[from].values.len() != 0 {
        lemma_first_unbound(dynamics, from + 1);
    }
}

/// A set is full exactly when each of its dynamic selectors has a value.
pub proof fn law_full_iff_all_bound(set: SelectorSetView)
    ensures
        set.is_full() <==> forall|i: int|
            0 <= i < set.dynamics.len() ==> set.dynamics[i].values.len() > 0,
{
    lemma_first_unbound(set.dynamics, 0);
}

/// Binding a value to a full set changes nothing.
pub proof fn law_bind_full(set: SelectorSetView, value: Seq<char>)
    requires
        set.is_full(),
    ensures
        set.bind(value) == set,
{
}

/// Binding fills the left-most open slot: when the first `k` dynamic
/// selectors have a value and the selector at `k` has none, binding gives
/// that selector the value alone, keeps every key and every other selector,
/// and the next open slot lies further right.
pub proof fn law_bind_leftmost(set: SelectorSetView, value: Seq<char>, k: int)
    requires
        0 <= k < set.dynamics.len(),
        forall|i: int| 0 <= i < k ==> set.dynamics[i].values.len() > 0,
        set.dynamics[k].values.len() == 0,
    ensures
        set.next_required_index() == k,
        set.bind(value).dynamics.len() == set.dynamics.len(),
        set.bind(value).dynamics[k] == (SelectorView {
            key: set.dynamics[k].key,
            values: seq![value],
        }),
        forall|i: int|
            0 <= i < set.dynamics.len() && i != k ==> set.bind(value).dynamics[i]
                == set.dynamics[i],
        set.bind(value).next_required_index() > k,
        set.bind(value).name == set.name,
        set.bind(value).statics == set.statics,
{
    lemma_first_unbound(set.dynamics, 0);
    lemma_first_unbound(set.bind(value).dynamics, 0);
}

/// The set after each of the values was bound, first to last.
pub open spec fn bind_all(set: SelectorSetView, values: Seq<Seq<char>>) -> SelectorSetView
    decreases values.len(),
{
    if values.len() == 0 {
        set
    } else {
        bind_all(set, values.drop_last()).bind(values.last())
    }
}

/// Values bind in declared order: on a set whose dynamic selectors are all
/// open, binding no more values than there are selectors gives the i-th value
/// to the i-th selector and leaves the selectors beyond them open.
pub proof fn law_bind_in_order(set: SelectorSetView, values: Seq<Seq<char>>)
    requires
        forall|i: int| 0 <= i < set.dynamics.len() ==> set.dynamics[i].values.len() == 0,
        values.len() <= set.dynamics.len(),
    ensures
        bind_all(set, values).dynamics.len() == set.dynamics.len(),
        forall|i: int|
            0 <= i < values.len() ==> bind_all(set, values).dynamics[i] == (SelectorView {
                key: set.dynamics[i].key,
                values: seq![values[i]],
            }),
        forall|i: int|
            values.len() <= i < set.dynamics.len() ==> bind_all(set, values).dynamics[i]
                == set.dynamics[i],
        bind_all(set, values).next_required_index() == values.len(),
    decreases values.len(),
{
    if values.len() == 0 {
        lemma_first_unbound(set.dynamics, 0);
    } else {
        let front = values.drop_last();
        let k = front.len() as int;
        law_bind_in_order(set, front);
        let mid = bind_all(set, front);
        assert forall|i: int| 0 <= i < k implies mid.dynamics[i].values.len() > 0 by {
            assert(mid.dynamics[i].values == seq![front[i]]);
        }
        assert(mid.dynamics[k] == set.dynamics[k]);
        law_bind_leftmost(mid, values.last(), k);
        let after = bind_all(set, values);
        assert forall|i: int| 0 <= i < values.len() implies after.dynamics[i] == (SelectorView {
            key: set.dynamics[i].key,
            values: seq![values[i]],
        }) by {
            if i < k {
                assert(after.dynamics[i] == mid.dynamics[i]);
                assert(front[i] == values[i]);
            }
        }
        assert forall|i: int| values.len() <= i < set.dynamics.len() implies after.dynamics[i]
            == set.dynamics[i] by {
            assert(after.dynamics[i] == mid.dynamics[i]);
        }
        lemma_first_unbound(after.dynamics, 0);
        let next = after.next_required_index();
        if next < values.len() {
            assert(after.dynamics[next].values == seq![values[next]]);
        }
        if next > values.len() {
            assert(after.dynamics[values.len() as int] == set.dynamics[values.len() as int]);
        }
    }
}

/// Binding a value and then a list of values is binding the list with the
/// value put before it.
pub proof fn lemma_bind_all_shift(set: SelectorSetView, value: Seq<char>, values: Seq<Seq<char>>)
    ensures
        bind_all(set.bind(value), values) == bind_all(set, seq![value] + values),
    decreases values.len(),
{
    let all = seq![value] + values;
    if values.len() == 0 {
        assert(all.drop_last() =~= Seq::<Seq<char>>::empty());
        assert(bind_all(set, all.drop_last()) == set);
    } else {
        lemma_bind_all_shift(set, value, values.drop_last());
        assert(all.drop_last() =~= seq![value] + values.drop_last());
    }
}

/// A named template of selectors.
#[derive(Debug)]
pub struct SelectorSet {
    pub name: String,
    pub static_selectors: Selectors,
    pub dynamic_selectors: Selectors,
    pub modified_time: Option<SystemTime>,
}

impl View for SelectorSet {
    type V = SelectorSetView;

    open spec fn view(&self) -> SelectorSetView {
        SelectorSetView {
            name: self.name@,
            statics: selectors_view(self.static_selectors@),
            dynamics: selectors_view(self.dynamic_selectors@),
            modified_time: self.modified_time,
        }
    }
}

impl Clone for SelectorSet {
    fn clone(&self) -> (r: Self)
        ensures
            r@ == self@,
    {
        SelectorSet {
            name: self.name.clone(),
            static_selectors: clone_selectors(&self.static_selectors),
            dynamic_selectors: clone_selectors(&self.dynamic_selectors),
            modified_time: self.modified_time,
        }
    }
}

impl SelectorSet {
    /// A set of the given name without selectors, stamped with the given
    /// time.
    pub fn new_at(name: &String, time: SystemTime) -> (r: SelectorSet)
        ensures
            r@ == (SelectorSetView {
                name: name@,
                statics: Seq::empty(),
                dynamics: Seq::empty(),
                modified_time: Some(time),
            }),
    {
        let r = SelectorSet {
            name: name.clone(),
            static_selectors: Vec::new(),
            dynamic_selectors: Vec::new(),
            modified_time: Some(time),
        };
        assert(r@.statics =~= Seq::<SelectorView>::empty());
        assert(r@.dynamics =~= Seq::<SelectorView>::empty());
        r
    }

    /// A set of the given name without selectors, stamped with the time of
    /// its making: what `new_at` gives for the reading of the clock.
    pub fn new(name: &String) -> (r: SelectorSet)
        ensures
            r@.name == name@,
            r@.statics == Seq::<SelectorView>::empty(),
            r@.dynamics == Seq::<SelectorView>::empty(),
            r@.modified_time is Some,
    {
        SelectorSet::new_at(name, now())
    }

    /// Whether every dynamic selector has a value.
    pub fn is_full(&self) -> (r: bool)
        ensures
            r == self@.is_full(),
    {
        self.get_next_required_index().is_none()
    }

    /// Binds `value` to the left-most dynamic selector that has no value; a
    /// full set stays as it is.
    pub fn add_required_value(&mut self, value: String)
        ensures
            final(self)@ == old(self)@.bind(value@),
    {
        match self.get_next_required_index() {
            Some(index) => {
                proof {
                    lemma_first_unbound(self@.dynamics, 0);
                }
                let ghost before = self@.dynamics;
                self.dynamic_selectors[index].add_value(value);
                assert(self@.dynamics =~= before.update(
                    index as int,
                    SelectorView { key: before[index as int].key, values: seq![value@] },
                )) by {
                    assert(before[index as int].values =~= Seq::<Seq<char>>::empty());
                }
            },
            None => {},
        }
    }

    /// The index of the left-most dynamic selector without a value.
    pub fn get_next_required_index(&self) -> (r: Option<usize>)
        ensures
            match r {
                Some(index) => index == self@.next_required_index() && index
                    < self.dynamic_selectors@.len(),
                None => self@.is_full(),
            },
    {
        let mut i: usize = 0;
        while i < self.dynamic_selectors.len()
            invariant
                i <= self.dynamic_selectors.len(),
                first_unbound_from(self@.dynamics, 0) == first_unbound_from(
                    self@.dynamics,
                    i as int,
                ),
            decreases self.dynamic_selectors.len() - i,
        {
            if self.dynamic_selectors[i].is_missing_value() {
                return Some(i);
            }
            i += 1;
        }
        None
    }

    /// The left-most dynamic selector without a value.
    pub fn get_next_required_selector(&self) -> (r: Option<&Selector>)
        ensures
            match r {
                Some(selector) => !self@.is_full() && selector@
                    == self@.dynamics[self@.next_required_index()],
                None => self@.is_full(),
            },
    {
        match self.get_next_required_index() {
            Some(v) => Some(&self.dynamic_selectors[v]),
            None => None,
        }
    }
}

/// The sets that a list holds.
pub open spec fn sets_view(sets: Seq<SelectorSet>) -> Seq<SelectorSetView> {
    sets.map_values(|s: SelectorSet| s@)
}

/// The index of the first set at or after `from` that has the name, or the
/// length of the list when none has.
pub open spec fn find_from(registry: Seq<SelectorSetView>, name: Seq<char>, from: int) -> int
    decreases registry.len() - from,
{
    if from < 0 || from >= registry.len() {
        registry.len() as int
    } else if registry[from].name == name {
        from
    } else {
        find_from(registry, name, from + 1)
    }
}

/// The index of the first set with the name, or the length of the list.
pub open spec fn find(registry: Seq<SelectorSetView>, name: Seq<char>) -> int {
    find_from(registry, name, 0)
}

/// Whether a set of that name is registered.
pub open spec fn registered(registry: Seq<SelectorSetView>, name: Seq<char>) -> bool {
    find(registry, name) < registry.len()
}

/// No name occurs twice.
pub open spec fn distinct_names(registry: Seq<SelectorSetView>) -> bool {
    forall|i: int, j: int| 0 <= i < j < registry.len() ==> registry[i].name != registry[j].name
}

/// The registry after one set was defined: a set of that name is replaced
/// where it stands, a new name goes to the end.
pub open spec fn upsert(registry: Seq<SelectorSetView>, set: SelectorSetView) -> Seq<
    SelectorSetView,
> {
    if registered(registry, set.name) {
        registry.update(find(registry, set.name), set)
    } else {
        registry.push(set)
    }
}

/// The registry after each of the sets was defined, first to last.
pub open spec fn define_all(registry: Seq<SelectorSetView>, sets: Seq<SelectorSetView>) -> Seq<
    SelectorSetView,
>
    decreases sets.len(),
{
    if sets.len() == 0 {
        registry
    } else {
        upsert(define_all(registry, sets.drop_last()), sets.last())
    }
}

/// The test that a removal applies to each set: whether it stays.
pub open spec fn unnamed_test(names: Seq<Seq<char>>) -> spec_fn(SelectorSetView) -> bool {
    |set: SelectorSetView| !names.contains(set.name)
}

/// The registry without the sets of the given names.
pub open spec fn remove_all(registry: Seq<SelectorSetView>, names: Seq<Seq<char>>) -> Seq<
    SelectorSetView,
> {
    registry.filter(unnamed_test(names))
}

/// The test for the names that a removal reports: those that are registered.
pub open spec fn registered_test(registry: Seq<SelectorSetView>) -> spec_fn(Seq<char>) -> bool {
    |name: Seq<char>| registered(registry, name)
}

/// The names that a removal reports: of the given names those that were
/// registered, in the order given.
pub open spec fn removed_names(registry: Seq<SelectorSetView>, names: Seq<Seq<char>>) -> Seq<
    Seq<char>,
> {
    names.filter(registered_test(registry))
}

/// The registered sets of the given names, one for each name that is
/// registered, in the order of the names.
pub open spec fn pick(registry: Seq<SelectorSetView>, names: Seq<Seq<char>>) -> Seq<
    SelectorSetView,
>
    decreases names.len(),
{
    if names.len() == 0 {
        Seq::empty()
    } else {
        let before = pick(registry, names.drop_last());
        if registered(registry, names.last()) {
            before.push(registry[find(registry, names.last())])
        } else {
            before
        }
    }
}

/// What a listing returns: every set when no name is given, else the sets
/// that `pick` finds.
pub open spec fn list_sets(registry: Seq<SelectorSetView>, names: Seq<Seq<char>>) -> Seq<
    SelectorSetView,
> {
    if names.len() == 0 {
        registry
    } else {
        pick(registry, names)
    }
}

/// What `find_from` finds: a set with the name, and none before it.
pub proof fn lemma_find_from(registry: Seq<SelectorSetView>, name: Seq<char>, from: int)
    requires
        0 <= from <= registry.len(),
    ensures
        from <= find_from(registry, name, from) <= registry.len(),
        find_from(registry, name, from) < registry.len() ==> registry[find_from(
            registry,
            name,
            from,
        )].name == name,
        forall|j: int| from <= j < find_from(registry, name, from) ==> registry[j].name != name,
    decreases registry.len() - from,
{
    if from < registry.len() && registry[from].name != name {
        lemma_find_from(registry, name, from + 1);
    }
}

/// Defining a set keeps the names distinct, and the set is then found under
/// its name.
pub proof fn lemma_upsert(registry: Seq<SelectorSetView>, set: SelectorSetView)
    ensures
        distinct_names(registry) ==> distinct_names(upsert(registry, set)),
        registered(upsert(registry, set), set.name),
        upsert(registry, set)[find(upsert(registry, set), set.name)] == set,
{
    let after = upsert(registry, set);
    lemma_find_from(registry, set.name, 0);
    lemma_find_is(after, set.name, find(registry, set.name));
}

/// `find` is the one index that holds the name with no earlier set holding
/// it.
pub proof fn lemma_find_is(registry: Seq<SelectorSetView>, name: Seq<char>, at: int)
    requires
        0 <= at <= registry.len(),
        at < registry.len() ==> registry[at].name == name,
        forall|j: int| 0 <= j < at ==> registry[j].name != name,
    ensures
        find(registry, name) == at,
{
    lemma_find_from(registry, name, 0);
}

/// Names stay distinct: a registry without a name twice has none twice after
/// sets were defined or removed.
pub proof fn law_names_stay_distinct(
    registry: Seq<SelectorSetView>,
    sets: Seq<SelectorSetView>,
    names: Seq<Seq<char>>,
)
    requires
        distinct_names(registry),
    ensures
        distinct_names(define_all(registry, sets)),
        distinct_names(remove_all(registry, names)),
    decreases sets.len(), registry.len(),
{
    if sets.len() > 0 {
        law_names_stay_distinct(registry, sets.drop_last(), names);
        lemma_upsert(define_all(registry, sets.drop_last()), sets.last());
    }
    lemma_removal_keeps_order(registry, names);
}

/// What a removal leaves stands in the order it had, so that names that were
/// distinct stay distinct.
proof fn lemma_removal_keeps_order(registry: Seq<SelectorSetView>, names: Seq<Seq<char>>)
    requires
        distinct_names(registry),
    ensures
        distinct_names(remove_all(registry, names)),
        forall|i: int|
            0 <= i < remove_all(registry, names).len() ==> registry.contains(
                #[trigger] remove_all(registry, names)[i],
            ),
    decreases registry.len(),
{
    reveal(Seq::filter);
    if registry.len() > 0 {
        let front = registry.drop_last();
        lemma_removal_keeps_order(front, names);
        let kept = remove_all(front, names);
        let all = remove_all(registry, names);
        assert forall|i: int| 0 <= i < all.len() implies registry.contains(#[trigger] all[i]) by {
            if i < kept.len() {
                assert(front.contains(kept[i]));
                let j = choose|j: int| 0 <= j < front.len() && front[j] == kept[i];
                assert(registry[j] == all[i]);
            } else {
                assert(registry[registry.len() - 1] == all[i]);
            }
        }
        assert forall|i: int, j: int| 0 <= i < j < all.len() implies all[i].name
            != all[j].name by {
            if j >= kept.len() {
                assert(front.contains(kept[i]));
                let k = choose|k: int| 0 <= k < front.len() && front[k] == kept[i];
                assert(registry[k].name != registry[registry.len() - 1].name);
            } else {
                assert(kept[i].name != kept[j].name);
            }
        }
    }
}

/// What a registry holds: the registered sets, in the registry's order.
pub struct RegistryView {
    pub sets: Seq<SelectorSetView>,
}

/// Why a request to the registry failed.
#[derive(Debug, Clone, Copy, PartialEq, Eq)]
pub enum SelectorSetStorageError {
    NotFound,
}

impl SelectorSetStorageError {
    /// The error in words.
    pub fn message(&self) -> (r: String)
        ensures
            r@ == "NotFound"@,
    {
        "NotFound".to_owned()
    }
}

/// The sets to define.
#[derive(Debug)]
pub struct DefineSelectorSetParams {
    pub selector_sets: Vec<SelectorSet>,
}

/// The names of the sets to remove.
#[derive(Debug, Clone)]
pub struct RemoveSelectorSetParams {
    pub names: Vec<String>,
}

/// The names of the sets to list; every set, when no name is given.
#[derive(Debug, Clone)]
pub struct ListSelectorSetParams {
    pub names: Vec<String>,
}

/// The answer to a definition.
#[derive(Debug, Clone)]
pub struct DefineSelectorSetResult {}

/// The names of the sets that were removed.
#[derive(Debug, Clone)]
pub struct RemoveSelectorSetResult {
    pub names: Vec<String>,
}

/// The listed sets.
#[derive(Debug)]
pub struct ListSelectorSetResult {
    pub selector_set: Vec<SelectorSet>,
}

/// A registry of selector sets by name.
///
/// An implementation states what it holds as a list of sets, and whether its
/// requests can fail for reasons of its own; a failed request leaves what it
/// holds as it was.
pub trait SelectorSetStorage {
    /// What the registry holds.
    spec fn contents(&self) -> RegistryView;

    /// The registered sets, in the registry's order.
    open spec fn registry(&self) -> Seq<SelectorSetView> {
        self.contents().sets
    }

    /// Whether every request that the state allows succeeds.
    spec fn never_fails(&self) -> bool;

    /// Defines each of the sets, replacing a registered set of the same name.
    fn define_selector_set(&mut self, params: &DefineSelectorSetParams) -> (r: Result<
        DefineSelectorSetResult,
        SelectorSetStorageError,
    >)
        ensures
            final(self).never_fails() == old(self).never_fails(),
            r is Ok ==> final(self).registry() == define_all(
                old(self).registry(),
                sets_view(params.selector_sets@),
            ),
            r is Err ==> final(self).registry() == old(self).registry(),
            old(self).never_fails() ==> r is Ok,
    ;

    /// Removes the sets of the given names and returns the names that were
    /// removed: those of the given names that were registered, in the order
    /// given. A name that is not registered is passed over.
    fn remove_selector_set(&mut self, params: &RemoveSelectorSetParams) -> (r: Result<
        RemoveSelectorSetResult,
        SelectorSetStorageError,
    >)
        ensures
            final(self).never_fails() == old(self).never_fails(),
            r matches Ok(res) ==> {
                &&& final(self).registry() == remove_all(
                    old(self).registry(),
                    texts(params.names@),
                )
                &&& texts(res.names@) == removed_names(
                    old(self).registry(),
                    texts(params.names@),
                )
            },
            r is Err ==> final(self).registry() == old(self).registry(),
            old(self).never_fails() ==> r is Ok,
    ;

    /// The sets of the given names; every set, when no name is given.
    fn list_selector_set(&self, params: &ListSelectorSetParams) -> (r: Result<
        ListSelectorSetResult,
        SelectorSetStorageError,
    >)
        ensures
            r matches Ok(res) ==> sets_view(res.selector_set@) == list_sets(
                self.registry(),
                texts(params.names@),
            ),
            self.never_fails() ==> r is Ok,
    ;

    /// The set of the given name. `NotFound` when none is registered.
    fn get_selector_set_by_name(&self, name: &String) -> (r: Result<
        SelectorSet,
        SelectorSetStorageError,
    >)
        ensures
            r matches Ok(set) ==> registered(self.registry(), name@) && set@
                == self.registry()[find(self.registry(), name@)],
            self.never_fails() ==> (r is Ok <==> registered(self.registry(), name@)),
    {
        let mut names: Vec<String> = Vec::new();
        names.push(name.clone());
        let params = ListSelectorSetParams { names };
        proof {
            let asked = texts(params.names@);
            assert(pick(self.registry(), asked.drop_last()) =~= Seq::<SelectorSetView>::empty());
        }
        let listing = self.list_selector_set(&params);
        proof {
            if listing is Ok {
                let found = listing->Ok_0.selector_set@;
                assert(sets_view(found).len() == found.len());
                if found.len() > 0 {
                    assert(sets_view(found)[0] == found[0]@);
                }
            }
        }
        first_set(listing)
    }
}

/// The first set of a listing; `NotFound` when the listing is empty, and the
/// listing's own error when it failed.
pub fn first_set(listing: Result<ListSelectorSetResult, SelectorSetStorageError>) -> (r: Result<
    SelectorSet,
    SelectorSetStorageError,
>)
    ensures
        match listing {
            Ok(res) => if res.selector_set@.len() > 0 {
                r matches Ok(set) && set@ == res.selector_set@[0]@
            } else {
                r == Err::<SelectorSet, SelectorSetStorageError>(SelectorSetStorageError::NotFound)
            },
            Err(e) => r == Err::<SelectorSet, SelectorSetStorageError>(e),
        },
{
    match listing {
        Ok(res) => {
            if res.selector_set.len() > 0 {
                Ok(res.selector_set[0].clone())
            } else {
                Err(SelectorSetStorageError::NotFound)
            }
        },
        Err(e) => Err(e),
    }
}

} // verus!
