//! Labelled items by id: labels are put on an item, taken from it, read, and
//! items are found by the labels they carry.

use vstd::prelude::*;
use vstd::string::StringExecFns;
use crate::labels::LabelMap;
use crate::labels::Labels;
use crate::labels::distinct_keys;
use crate::labels::put_all;
use crate::labels::without_keys;
use crate::selector::Selectors;
use crate::selector::SelectorView;
use crate::selector::all_match;
use crate::text::contains_string;
use crate::selector::selectors_view;
use crate::text::texts;
use crate::store::FileView;

verus! {

/// The index of the first item at or after `from` that has the id, or the
/// length of the list when none has.
pub open spec fn item_from(items: Seq<FileView>, id: u64, from: int) -> int
    decreases items.len() - from,
{
    if from < 0 || from >= items.len() {
        items.len() as int
    } else if items[from].id == id {
        from
    } else {
        item_from(items, id, from + 1)
    }
}

/// The index of the item with the id, or the length of the list.
pub open spec fn item_index(items: Seq<FileView>, id: u64) -> int {
    item_from(items, id, 0)
}

/// Whether an item has the id.
pub open spec fn has_item(items: Seq<FileView>, id: u64) -> bool {
    item_index(items, id) < items.len()
}

/// The labels of the item with the id; none for an id that no item has.
pub open spec fn labels_of(items: Seq<FileView>, id: u64) -> Labels {
    if has_item(items, id) {
        items[item_index(items, id)].labels
    } else {
        Seq::empty()
    }
}

/// The items after labels were put on the item `id`, which joins the list
/// when it is new.
pub open spec fn labelled(items: Seq<FileView>, id: u64, labels: Labels) -> Seq<FileView> {
    let item = FileView { id, labels: put_all(labels_of(items, id), labels) };
    if has_item(items, id) {
        items.update(item_index(items, id), item)
    } else {
        items.push(item)
    }
}

/// The items after the labels under the keys were taken from the item `id`;
/// an id that no item has changes nothing.
pub open spec fn unlabelled(items: Seq<FileView>, id: u64, keys: Seq<Seq<char>>) -> Seq<FileView> {
    if has_item(items, id) {
        items.update(
            item_index(items, id),
            FileView { id, labels: without_keys(labels_of(items, id), keys) },
        )
    } else {
        items
    }
}

/// The test that a search applies to each item: every selector matches its
/// labels.
pub open spec fn matching_test(selectors: Seq<SelectorView>) -> spec_fn(FileView) -> bool {
    |item: FileView| all_match(selectors, item.labels)
}

/// The ids of the items whose labels satisfy every selector, in the order of
/// the items.
pub open spec fn matching_ids(items: Seq<FileView>, selectors: Seq<SelectorView>) -> Seq<u64> {
    items.filter(matching_test(selectors)).map_values(|item: FileView| item.id)
}

/// What holds of every list of items: no id twice, and no label key twice on
/// one item.
pub open spec fn items_wf(items: Seq<FileView>) -> bool {
    &&& forall|i: int, j: int| 0 <= i < j < items.len() ==> items[i].id != items[j].id
    &&& forall|i: int| 0 <= i < items.len() ==> distinct_keys((#[trigger] items[i]).labels)
}

/// What `item_from` finds: an item with the id, and none before it.
pub proof fn lemma_item_from(items: Seq<FileView>, id: u64, from: int)
    requires
        0 <= from <= items.len(),
    ensures
        from <= item_from(items, id, from) <= items.len(),
        item_from(items, id, from) < items.len() ==> items[item_from(items, id, from)].id == id,
        forall|j: int| from <= j < item_from(items, id, from) ==> items[j].id != id,
    decreases items.len() - from,
{
    if from < items.len() && items[from].id != id {
        lemma_item_from(items, id, from + 1);
    }
}

/// What a keeper holds: the items, in the keeper's order.
pub struct ItemsView {
    pub items: Seq<FileView>,
}

/// Why a request about labelled items failed.
#[derive(Debug, Clone)]
pub enum SelectorError {
    /// No item has the id.
    NotFound(u64),
}

impl SelectorError {
    /// The error in words: the error as `Debug` shows it, and a colon.
    pub fn message(&self) -> (r: String)
        ensures
            self matches SelectorError::NotFound(id) && r@ == "NotFound("@
                + crate::text::decimal(id as nat) + "):"@,
    {
        match self {
            SelectorError::NotFound(id) => "NotFound(".to_owned().concat(
                crate::text::u64_text(*id).as_str(),
            ).concat("):"),
        }
    }

    /// The id that the error is about.
    pub fn id(&self) -> (r: u64)
        ensures
            self matches SelectorError::NotFound(id) && r == id,
    {
        match self {
            SelectorError::NotFound(id) => *id,
        }
    }
}

/// A keeper of labelled items.
///
/// An implementation states the items that it holds, and whether its
/// requests can fail for reasons of its own; a failed request changes
/// nothing.
pub trait Selector {
    /// What the keeper holds.
    spec fn contents(&self) -> ItemsView;

    /// The items, in the keeper's order.
    open spec fn items(&self) -> Seq<FileView> {
        self.contents().items
    }

    /// Whether every request that the state allows succeeds.
    spec fn never_fails(&self) -> bool;

    /// Puts the labels on the item `id`, overwriting on equal keys, and
    /// returns the labels that the item then has. An id that is new gets an
    /// item.
    fn add_label(&mut self, id: u64, label: &LabelMap) -> (r: Result<LabelMap, SelectorError>)
        ensures
            final(self).never_fails() == old(self).never_fails(),
            r matches Ok(all) ==> {
                &&& final(self).items() == labelled(old(self).items(), id, label@)
                &&& all@ == put_all(labels_of(old(self).items(), id), label@)
            },
            r is Err ==> final(self).items() == old(self).items(),
            old(self).never_fails() ==> r is Ok,
    ;

    /// Takes the labels under the given keys from the item `id`; an id that
    /// no item has is passed over.
    fn remove_label(&mut self, id: u64, label: &Vec<String>) -> (r: Result<(), SelectorError>)
        ensures
            final(self).never_fails() == old(self).never_fails(),
            r is Ok ==> final(self).items() == unlabelled(old(self).items(), id, texts(label@)),
            r is Err ==> final(self).items() == old(self).items(),
            old(self).never_fails() ==> r is Ok,
    ;

    /// The labels of the item `id`. `NotFound` with the id when no item has
    /// it.
    fn get_label(&self, id: u64) -> (r: Result<LabelMap, SelectorError>)
        ensures
            r matches Ok(all) ==> has_item(self.items(), id) && all@ == labels_of(self.items(), id),
            !has_item(self.items(), id) ==> (r matches Err(SelectorError::NotFound(missing))
                && missing == id),
            self.never_fails() && has_item(self.items(), id) ==> r is Ok,
    ;

    /// The ids of the items whose labels satisfy every selector.
    fn get_id_by_label(&self, labels: &Selectors) -> (r: Result<Vec<u64>, SelectorError>)
        ensures
            r matches Ok(ids) ==> ids@ == matching_ids(self.items(), selectors_view(labels@)),
            self.never_fails() ==> r is Ok,
    ;
}

/// An item: its labels.
#[derive(Debug)]
pub struct Item {
    label: LabelMap,
}

impl Item {
    /// The item's labels.
    pub closed spec fn labels(&self) -> Labels {
        self.label@
    }

    /// An item without labels.
    pub fn new() -> (r: Self)
        ensures
            r.labels() == Seq::<(Seq<char>, Seq<char>)>::empty(),
    {
        Item { label: LabelMap::new() }
    }

    /// Whether the item holds the key with one of the values.
    pub fn is_match(&self, label_key: &String, label_values: &Vec<String>) -> (r: bool)
        ensures
            r == crate::selector::selector_matches(
                SelectorView { key: label_key@, values: texts(label_values@) },
                self.labels(),
            ),
    {
        match self.label.get(label_key) {
            Some(label_value) => contains_string(label_values, &label_value),
            None => false,
        }
    }
}

/// An item with its id.
#[derive(Debug)]
struct Entry {
    id: u64,
    item: Item,
}

impl View for Entry {
    type V = FileView;

    closed spec fn view(&self) -> FileView {
        FileView { id: self.id, labels: self.item.labels() }
    }
}

/// The items that a list of entries holds.
spec fn entries_view(entries: Seq<Entry>) -> Seq<FileView> {
    entries.map_values(|entry: Entry| entry@)
}

/// A keeper of labelled items in memory: the items in the order in which
/// their ids first came.
#[derive(Debug)]
pub struct MemSelector {
    items: Vec<Entry>,
}

impl MemSelector {
    #[verifier::type_invariant]
    spec fn well_formed(&self) -> bool {
        items_wf(self.held())
    }

    /// The items that the keeper holds.
    pub closed spec fn held(&self) -> Seq<FileView> {
        entries_view(self.items@)
    }

    /// A keeper without items.
    pub fn new() -> (r: Self)
        ensures
            r.items() == Seq::<FileView>::empty(),
    {
        let r = MemSelector { items: Vec::new() };
        r
    }

    /// The entries, which leave the keeper empty.
    fn take_items(&mut self) -> (r: Vec<Entry>)
        ensures
            entries_view(r@) == old(self).items(),
            items_wf(old(self).items()),
    {
        proof {
            use_type_invariant(&*self);
        }
        let mut taken = MemSelector::new();
        std::mem::swap(self, &mut taken);
        taken.items
    }

    /// The index of the entry with the id, or the number of entries.
    fn position(items: &Vec<Entry>, id: u64) -> (r: usize)
        ensures
            r == item_index(entries_view(items@), id),
            r <= items@.len(),
            r < items@.len() ==> items@[r as int].id == id,
    {
        let mut i: usize = 0;
        while i < items.len()
            invariant
                i <= items.len(),
                item_index(entries_view(items@), id) == item_from(
                    entries_view(items@),
                    id,
                    i as int,
                ),
            decreases items.len() - i,
        {
            if items[i].id == id {
                return i;
            }
            i += 1;
        }
        i
    }
}

impl Selector for MemSelector {
    closed spec fn contents(&self) -> ItemsView {
        ItemsView { items: self.held() }
    }

    open spec fn never_fails(&self) -> bool {
        true
    }

    fn add_label(&mut self, id: u64, new_label: &LabelMap) -> (r: Result<
        LabelMap,
        SelectorError,
    >) {
        let mut items = self.take_items();
        let ghost before = entries_view(items@);
        proof {
            lemma_item_from(before, id, 0);
        }
        let at = Self::position(&items, id);
        if at >= items.len() {
            items.push(Entry { id, item: Item::new() });
        }
        items[at].item.label.merge(new_label);
        let all = items[at].item.label.clone();
        assert(entries_view(items@) =~= labelled(before, id, new_label@));
        *self = MemSelector { items };
        Ok(all)
    }

    fn remove_label(&mut self, id: u64, label: &Vec<String>) -> (r: Result<(), SelectorError>) {
        let mut items = self.take_items();
        let ghost before = entries_view(items@);
        let at = Self::position(&items, id);
        if at < items.len() {
            items[at].item.label.remove_all(label);
        }
        assert(entries_view(items@) =~= unlabelled(before, id, texts(label@)));
        *self = MemSelector { items };
        Ok(())
    }

    fn get_label(&self, id: u64) -> (r: Result<LabelMap, SelectorError>) {
        let at = Self::position(&self.items, id);
        if at < self.items.len() {
            Ok(self.items[at].item.label.clone())
        } else {
            Err(SelectorError::NotFound(id))
        }
    }

    fn get_id_by_label(&self, labels: &Selectors) -> (r: Result<Vec<u64>, SelectorError>) {
        let ghost wanted = matching_test(selectors_view(labels@));
        let mut result: Vec<u64> = Vec::new();
        let mut i: usize = 0;
        while i < self.items.len()
            invariant
                i <= self.items.len(),
                wanted == matching_test(selectors_view(labels@)),
                result@ == self.held().take(i as int).filter(wanted).map_values(
                    |item: FileView| item.id,
                ),
            decreases self.items.len() - i,
        {
            let entry = &self.items[i];
            proof {
                let seen = self.held().take(i as int);
                seen.lemma_filter_push(entry@, wanted);
                assert(seen.push(entry@) =~= self.held().take(i + 1));
            }
            if crate::selector::Selector::is_match_selectors(labels, &entry.item.label) {
                result.push(entry.id);
            }
            i += 1;
        }
        assert(self.held().take(i as int) =~= self.held());
        Ok(result)
    }
}

} // verus!
