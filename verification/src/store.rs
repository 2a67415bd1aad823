//! The tagged object store and its tag catalog as mathematics: the state of
//! a store, and each operation as a function on that state.

use vstd::prelude::*;
use crate::labels::Labels;
use crate::labels::distinct_keys;
use crate::labels::has_key;
use crate::labels::lookup;
use crate::labels::put;
use crate::labels::put_all;
use crate::selector::SelectorView;
use crate::selector::all_match;
use crate::selector::with_value;
use crate::selector::with_values;

verus! {

/// An object of the store: its id and its labels.
pub struct FileView {
    pub id: u64,
    pub labels: Labels,
}

/// The state of a store: the default labels that every new object starts
/// from, the objects in the order of their ids, and the id given out last.
pub struct StoreView {
    pub defaults: Labels,
    pub files: Seq<FileView>,
    pub last_id: u64,
}

/// The values that `key` takes on the given objects, in their order, joined
/// to `values`.
pub open spec fn observed(files: Seq<FileView>, key: Seq<char>, values: Seq<Seq<char>>) -> Seq<
    Seq<char>,
>
    decreases files.len(),
{
    if files.len() == 0 {
        values
    } else {
        let before = observed(files.drop_last(), key, values);
        match lookup(files.last().labels, key) {
            Some(value) => with_value(before, value),
            None => before,
        }
    }
}

/// The requested keys, each once, in the order in which they were first
/// asked for.
pub open spec fn asked_once(keys: Seq<Seq<char>>) -> Seq<Seq<char>> {
    with_values(Seq::empty(), keys)
}

/// Whether a listing returns the object: its id is asked for (or no id is
/// given), and every selector matches its labels.
pub open spec fn listed(ids: Seq<u64>, selectors: Seq<SelectorView>, file: FileView) -> bool {
    (ids.len() == 0 || ids.contains(file.id)) && all_match(selectors, file.labels)
}

/// The test that a listing applies to each object.
pub open spec fn listing_test(ids: Seq<u64>, selectors: Seq<SelectorView>) -> spec_fn(
    FileView,
) -> bool {
    |file: FileView| listed(ids, selectors, file)
}

/// The test that a removal applies to each object: whether it stays.
pub open spec fn staying_test(ids: Seq<u64>) -> spec_fn(FileView) -> bool {
    |file: FileView| !ids.contains(file.id)
}

impl StoreView {
    /// The store that holds nothing and has given out no id.
    pub open spec fn empty() -> StoreView {
        StoreView { defaults: Seq::empty(), files: Seq::empty(), last_id: 0 }
    }

    /// What holds of every store: no label key occurs twice on one object,
    /// ids grow along the list, and none is above the last one given out.
    pub open spec fn wf(self) -> bool {
        &&& distinct_keys(self.defaults)
        &&& forall|i: int|
            0 <= i < self.files.len() ==> distinct_keys((#[trigger] self.files[i]).labels)
        &&& forall|i: int|
            0 <= i < self.files.len() ==> 0 < (#[trigger] self.files[i]).id <= self.last_id
        &&& forall|i: int, j: int|
            0 <= i < j < self.files.len() ==> self.files[i].id < self.files[j].id
    }

    /// Whether the catalog knows the key: it was declared with a default.
    pub open spec fn declared(self, key: Seq<char>) -> bool {
        has_key(self.defaults, key)
    }

    /// The store after `key` was declared: the default is recorded, and every
    /// object gets the default under the key when `propagate` is set, and the
    /// empty text when it is not.
    pub open spec fn define(self, key: Seq<char>, default_value: Seq<char>, propagate: bool)
        -> StoreView {
        let given = if propagate {
            default_value
        } else {
            Seq::empty()
        };
        StoreView {
            defaults: put(self.defaults, key, default_value),
            files: self.files.map_values(
                |f: FileView| FileView { id: f.id, labels: put(f.labels, key, given) },
            ),
            last_id: self.last_id,
        }
    }

    /// The declared default of a key, as a list of at most one value.
    pub open spec fn default_values(self, key: Seq<char>) -> Seq<Seq<char>> {
        match lookup(self.defaults, key) {
            Some(value) => seq![value],
            None => Seq::empty(),
        }
    }

    /// The values of a key: its declared default, then the values observed on
    /// the objects in the order of their ids, each value once.
    pub open spec fn values_of(self, key: Seq<char>) -> Seq<Seq<char>> {
        observed(self.files, key, self.default_values(key))
    }

    /// The selector that the catalog holds for a key.
    pub open spec fn selector_of(self, key: Seq<char>) -> SelectorView {
        SelectorView { key, values: self.values_of(key) }
    }

    /// The selector of a key that holds its declared default alone.
    pub open spec fn default_selector_of(self, key: Seq<char>) -> SelectorView {
        SelectorView { key, values: self.default_values(key) }
    }

    /// The catalog's answer for the requested keys: for each key, once, in
    /// the order in which the keys were first asked for, the selector that the
    /// catalog holds for it.
    pub open spec fn select(self, keys: Seq<Seq<char>>) -> Seq<SelectorView> {
        asked_once(keys).map_values(|key: Seq<char>| self.selector_of(key))
    }

    /// The declared defaults of the requested keys: for each key, once, in
    /// the order in which the keys were first asked for, the selector with its
    /// declared default alone, which has no value for a key that was never
    /// declared.
    pub open spec fn select_defaults(self, keys: Seq<Seq<char>>) -> Seq<SelectorView> {
        asked_once(keys).map_values(|key: Seq<char>| self.default_selector_of(key))
    }

    /// Asked for one key, the catalog answers with that key's selector, and
    /// the default selector has a value exactly when the key is declared.
    pub proof fn lemma_select_one(self, key: Seq<char>)
        ensures
            self.select(seq![key]) == seq![self.selector_of(key)],
            self.select_defaults(seq![key]) == seq![self.default_selector_of(key)],
            self.declared(key) <==> self.default_selector_of(key).values.len() > 0,
    {
        crate::selector::lemma_with_values_one(key);
        assert(self.select(seq![key]) =~= seq![self.selector_of(key)]);
        assert(self.select_defaults(seq![key]) =~= seq![self.default_selector_of(key)]);
    }

    /// Whether the store can still give out an id.
    pub open spec fn has_room(self) -> bool {
        self.last_id < u64::MAX
    }

    /// The id that the next new object gets.
    pub open spec fn next_id(self) -> u64 {
        (self.last_id + 1) as u64
    }

    /// The labels that a new object gets: the defaults with the supplied
    /// labels put over them.
    pub open spec fn seeded(self, labels: Labels) -> Labels {
        put_all(self.defaults, labels)
    }

    /// The store after a new object with the supplied labels was added.
    pub open spec fn add(self, labels: Labels) -> StoreView {
        StoreView {
            defaults: self.defaults,
            files: self.files.push(FileView { id: self.next_id(), labels: self.seeded(labels) }),
            last_id: self.next_id(),
        }
    }

    /// The index of the object with the id, or the number of objects.
    pub open spec fn index_of(self, id: u64) -> int {
        if self.contains_id(id) {
            choose|i: int| 0 <= i < self.files.len() && self.files[i].id == id
        } else {
            self.files.len() as int
        }
    }

    /// Whether an object has the id.
    pub open spec fn contains_id(self, id: u64) -> bool {
        exists|i: int| 0 <= i < self.files.len() && self.files[i].id == id
    }

    /// The store without the objects whose id is among `ids`.
    pub open spec fn remove(self, ids: Seq<u64>) -> StoreView {
        StoreView {
            defaults: self.defaults,
            files: self.files.filter(staying_test(ids)),
            last_id: self.last_id,
        }
    }

    /// How many objects `remove` takes away.
    pub open spec fn removed_count(self, ids: Seq<u64>) -> nat {
        (self.files.len() - self.remove(ids).files.len()) as nat
    }

    /// The store after the labels were put over those of the object `id`.
    pub open spec fn set_label(self, id: u64, labels: Labels) -> StoreView {
        StoreView {
            defaults: self.defaults,
            files: self.files.map_values(
                |f: FileView|
                    if f.id == id {
                        FileView { id: f.id, labels: put_all(f.labels, labels) }
                    } else {
                        f
                    },
            ),
            last_id: self.last_id,
        }
    }

    /// The labels of the object `id`.
    pub open spec fn labels_of(self, id: u64) -> Labels {
        self.files[self.index_of(id)].labels
    }

    /// The objects that a listing returns, in the order of their ids: those
    /// whose id is asked for (every id, when none is given) and whose labels
    /// satisfy every selector.
    pub open spec fn list(self, ids: Seq<u64>, selectors: Seq<SelectorView>) -> Seq<FileView> {
        self.files.filter(listing_test(ids, selectors))
    }
}

/// A filter that every element passes keeps the list as it is.
pub proof fn lemma_filter_all<A>(list: Seq<A>, test: spec_fn(A) -> bool)
    requires
        forall|i: int| 0 <= i < list.len() ==> test(list[i]),
    ensures
        list.filter(test) == list,
    decreases list.len(),
{
    reveal(Seq::filter);
    if list.len() > 0 {
        lemma_filter_all(list.drop_last(), test);
        assert(list.drop_last().push(list.last()) =~= list);
    }
}

/// A filter that no element passes leaves nothing.
pub proof fn lemma_filter_none<A>(list: Seq<A>, test: spec_fn(A) -> bool)
    requires
        forall|i: int| 0 <= i < list.len() ==> !test(list[i]),
    ensures
        list.filter(test) == Seq::<A>::empty(),
    decreases list.len(),
{
    reveal(Seq::filter);
    if list.len() > 0 {
        lemma_filter_none(list.drop_last(), test);
    }
}

/// What a filter keeps: the elements of the list that pass the test.
pub proof fn lemma_filter_members<A>(list: Seq<A>, test: spec_fn(A) -> bool)
    ensures
        forall|x: A|
            #![trigger list.filter(test).contains(x)]
            #![trigger list.contains(x)]
            list.filter(test).contains(x) <==> list.contains(x) && test(x),
        list.filter(test).len() <= list.len(),
    decreases list.len(),
{
    reveal(Seq::filter);
    if list.len() > 0 {
        let front = list.drop_last();
        let kept = front.filter(test);
        lemma_filter_members(front, test);
        assert forall|x: A|
            #![trigger list.filter(test).contains(x)]
            #![trigger list.contains(x)]
            list.filter(test).contains(x) <==> list.contains(x) && test(x) by {
            let all = list.filter(test);
            if all.contains(x) {
                let i = choose|i: int| 0 <= i < all.len() && all[i] == x;
                if i < kept.len() {
                    assert(kept[i] == x);
                    assert(kept.contains(x));
                    let j = choose|j: int| 0 <= j < front.len() && front[j] == x;
                    assert(list[j] == x);
                } else {
                    assert(list[list.len() - 1] == x);
                }
            }
            if list.contains(x) && test(x) {
                let j = choose|j: int| 0 <= j < list.len() && list[j] == x;
                if j < front.len() {
                    assert(front[j] == x);
                    assert(kept.contains(x));
                    let i = choose|i: int| 0 <= i < kept.len() && kept[i] == x;
                    assert(all[i] == x);
                } else {
                    assert(all[all.len() - 1] == x);
                }
            }
        }
    }
}

/// A listing without ids and without selectors returns every object.
pub proof fn law_list_everything(store: StoreView)
    ensures
        store.list(Seq::empty(), Seq::empty()) == store.files,
{
    lemma_filter_all(store.files, listing_test(Seq::empty(), Seq::empty()));
}

/// A listing returns exactly the objects of the store whose id is asked for
/// (any id, when none is given) and whose labels satisfy each of the
/// selectors.
pub proof fn law_list_exact(store: StoreView, ids: Seq<u64>, selectors: Seq<SelectorView>)
    ensures
        forall|file: FileView|
            store.list(ids, selectors).contains(file) <==> {
                &&& store.files.contains(file)
                &&& ids.len() == 0 || ids.contains(file.id)
                &&& forall|i: int|
                    0 <= i < selectors.len() ==> crate::selector::selector_matches(
                        selectors[i],
                        file.labels,
                    )
            },
{
    lemma_filter_members(store.files, listing_test(ids, selectors));
}

/// A listing by one selector with one value returns exactly the objects that
/// carry that value under the selector's key.
pub proof fn law_list_by_value(store: StoreView, key: Seq<char>, value: Seq<char>)
    ensures
        forall|file: FileView|
            store.list(Seq::empty(), seq![SelectorView { key, values: seq![value] }]).contains(
                file,
            ) <==> store.files.contains(file) && lookup(file.labels, key) == Some(value),
{
    let selectors = seq![SelectorView { key, values: seq![value] }];
    lemma_filter_members(store.files, listing_test(Seq::empty(), selectors));
    assert forall|file: FileView|
        listed(Seq::empty(), selectors, file) <==> lookup(file.labels, key) == Some(value) by {
        if lookup(file.labels, key) == Some(value) {
            assert(seq![value][0] == value);
        }
        if listed(Seq::empty(), selectors, file) {
            assert(crate::selector::selector_matches(selectors[0], file.labels));
        }
    }
}

/// Removal is idempotent: once the ids are removed, removing them again
/// changes nothing and counts no object.
pub proof fn law_remove_twice(store: StoreView, ids: Seq<u64>)
    ensures
        store.remove(ids).remove(ids) == store.remove(ids),
        store.remove(ids).removed_count(ids) == 0,
{
    let once = store.remove(ids);
    lemma_filter_members(store.files, staying_test(ids));
    assert forall|i: int| 0 <= i < once.files.len() implies staying_test(ids)(once.files[i]) by {
        assert(once.files.contains(once.files[i]));
    }
    lemma_filter_all(once.files, staying_test(ids));
}

/// Removing ids that no object has changes nothing and counts no object.
pub proof fn law_remove_absent(store: StoreView, ids: Seq<u64>)
    requires
        forall|i: int| 0 <= i < ids.len() ==> !store.contains_id(ids[i]),
    ensures
        store.remove(ids) == store,
        store.removed_count(ids) == 0,
{
    assert forall|i: int| 0 <= i < store.files.len() implies staying_test(ids)(
        store.files[i],
    ) by {
        if ids.contains(store.files[i].id) {
            let j = choose|j: int| 0 <= j < ids.len() && ids[j] == store.files[i].id;
            assert(store.contains_id(ids[j]));
        }
    }
    lemma_filter_all(store.files, staying_test(ids));
}

/// Every operation keeps a store well formed.
pub proof fn law_operations_keep_wf(
    store: StoreView,
    key: Seq<char>,
    value: Seq<char>,
    propagate: bool,
    labels: Labels,
    ids: Seq<u64>,
    id: u64,
)
    requires
        store.wf(),
        distinct_keys(labels),
    ensures
        store.define(key, value, propagate).wf(),
        store.has_room() ==> store.add(labels).wf(),
        store.remove(ids).wf(),
        store.set_label(id, labels).wf(),
{
    crate::labels::lemma_put(store.defaults, key, value);
    let defined = store.define(key, value, propagate);
    assert forall|i: int| 0 <= i < defined.files.len() implies distinct_keys(
        (#[trigger] defined.files[i]).labels,
    ) by {
        let given = if propagate {
            value
        } else {
            Seq::empty()
        };
        crate::labels::lemma_put(store.files[i].labels, key, given);
    }
    if store.has_room() {
        crate::labels::lemma_put_all(store.defaults, labels);
        let added = store.add(labels);
        assert forall|i: int| 0 <= i < added.files.len() implies distinct_keys(
            (#[trigger] added.files[i]).labels,
        ) by {
            if i < store.files.len() {
                assert(added.files[i] == store.files[i]);
            }
        }
    }
    lemma_filter_rises(store, ids);
    let changed = store.set_label(id, labels);
    assert forall|i: int| 0 <= i < changed.files.len() implies distinct_keys(
        (#[trigger] changed.files[i]).labels,
    ) by {
        crate::labels::lemma_put_all(store.files[i].labels, labels);
    }
}

/// After a removal the objects still stand in rising order of their ids.
proof fn lemma_filter_rises(store: StoreView, ids: Seq<u64>)
    requires
        store.wf(),
    ensures
        store.remove(ids).wf(),
    decreases store.files.len(),
{
    reveal(Seq::filter);
    if store.files.len() > 0 {
        let front = StoreView { files: store.files.drop_last(), ..store };
        lemma_filter_rises(front, ids);
        lemma_filter_members(front.files, staying_test(ids));
        let kept = front.remove(ids).files;
        let last = store.files.last();
        assert forall|i: int| 0 <= i < kept.len() implies kept[i].id < last.id by {
            assert(kept.contains(kept[i]));
            let j = choose|j: int| 0 <= j < front.files.len() && front.files[j] == kept[i];
            assert(store.files[j] == kept[i]);
        }
    }
}

/// Round trip: after an object was added with some labels and other labels
/// were then put over them, a listing by the object's id returns that one
/// object, and each of its keys has the value that was put last: a key of the
/// second labels has their value, any other key the value it was added with.
pub proof fn law_add_set_list(store: StoreView, first: Labels, second: Labels)
    requires
        store.wf(),
        store.has_room(),
        distinct_keys(second),
    ensures
        store.add(first).contains_id(store.next_id()),
        store.add(first).set_label(store.next_id(), second).list(
            seq![store.next_id()],
            Seq::empty(),
        ) == seq![
            FileView { id: store.next_id(), labels: put_all(store.seeded(first), second) },
        ],
        forall|key: Seq<char>|
            #[trigger] lookup(put_all(store.seeded(first), second), key) == if has_key(
                second,
                key,
            ) {
                lookup(second, key)
            } else {
                lookup(store.seeded(first), key)
            },
{
    let id = store.next_id();
    let added = store.add(first);
    let changed = added.set_label(id, second);
    let object = FileView { id, labels: put_all(store.seeded(first), second) };
    let test = listing_test(seq![id], Seq::empty());
    assert(added.files[store.files.len() as int].id == id);
    crate::labels::lemma_put_all(store.seeded(first), second);
    let front = changed.files.drop_last();
    assert(changed.files.last() == object);
    assert forall|i: int| 0 <= i < front.len() implies !test(front[i]) by {
        assert(front[i] == store.files[i]);
        if seq![id].contains(front[i].id) {
            let j = choose|j: int| 0 <= j < 1 && seq![id][j] == front[i].id;
        }
    }
    lemma_filter_none(front, test);
    front.lemma_filter_push(object, test);
    assert(seq![id][0] == id);
    assert(front.push(object) =~= changed.files);
    assert(changed.list(seq![id], Seq::empty()) =~= seq![object]);
}

/// The observed values hold no value twice, and hold exactly the values
/// they started from and the values that the objects carry under the key.
pub proof fn lemma_observed(files: Seq<FileView>, key: Seq<char>, values: Seq<Seq<char>>)
    requires
        values.no_duplicates(),
    ensures
        observed(files, key, values).no_duplicates(),
        forall|v: Seq<char>|
            #![trigger observed(files, key, values).contains(v)]
            observed(files, key, values).contains(v) <==> values.contains(v) || exists|i: int|
                0 <= i < files.len() && lookup(#[trigger] files[i].labels, key) == Some(v),
    decreases files.len(),
{
    if files.len() > 0 {
        let front = files.drop_last();
        let before = observed(front, key, values);
        let all = observed(files, key, values);
        lemma_observed(front, key, values);
        assert forall|v: Seq<char>| #![trigger all.contains(v)]
            all.contains(v) <==> values.contains(v) || exists|i: int|
                0 <= i < files.len() && lookup(#[trigger] files[i].labels, key) == Some(v) by {
            if all.contains(v) {
                let at = choose|at: int| 0 <= at < all.len() && all[at] == v;
                if at < before.len() {
                    assert(before[at] == v);
                    assert(before.contains(v));
                    if !values.contains(v) {
                        let i = choose|i: int|
                            0 <= i < front.len() && lookup(#[trigger] front[i].labels, key)
                                == Some(v);
                        assert(lookup(files[i].labels, key) == Some(v));
                    }
                } else {
                    assert(lookup(files[files.len() - 1].labels, key) == Some(v));
                }
            }
            if values.contains(v) {
                assert(before.contains(v));
                let at = choose|at: int| 0 <= at < before.len() && before[at] == v;
                assert(all[at] == v);
            }
            if exists|i: int|
                0 <= i < files.len() && lookup(#[trigger] files[i].labels, key) == Some(v) {
                let i = choose|i: int|
                    0 <= i < files.len() && lookup(#[trigger] files[i].labels, key) == Some(v);
                if i < front.len() {
                    assert(lookup(front[i].labels, key) == Some(v));
                    assert(before.contains(v));
                    let at = choose|at: int| 0 <= at < before.len() && before[at] == v;
                    assert(all[at] == v);
                } else if before.contains(v) {
                    let at = choose|at: int| 0 <= at < before.len() && before[at] == v;
                    assert(all[at] == v);
                } else {
                    assert(all[all.len() - 1] == v);
                }
            }
        }
    }
}

/// The values that the catalog holds for a key are, each once, the declared
/// default of the key and the values that the objects carry under it.
pub proof fn law_catalog_values(store: StoreView, key: Seq<char>)
    ensures
        store.values_of(key).no_duplicates(),
        forall|v: Seq<char>|
            #![trigger store.values_of(key).contains(v)]
            store.values_of(key).contains(v) <==> lookup(store.defaults, key) == Some(v)
                || exists|i: int|
                0 <= i < store.files.len() && lookup(#[trigger] store.files[i].labels, key)
                    == Some(v),
{
    let start = store.default_values(key);
    lemma_observed(store.files, key, start);
    assert forall|v: Seq<char>| start.contains(v) <==> lookup(store.defaults, key) == Some(
        v,
    ) by {
        if lookup(store.defaults, key) == Some(v) {
            assert(start[0] == v);
        }
    }
}

/// The id that a new object gets is above every id in the store, so no
/// object has it.
pub proof fn law_fresh_id(store: StoreView)
    requires
        store.wf(),
        store.has_room(),
    ensures
        !store.contains_id(store.next_id()),
        forall|i: int| 0 <= i < store.files.len() ==> store.files[i].id < store.next_id(),
{
}

} // verus!
