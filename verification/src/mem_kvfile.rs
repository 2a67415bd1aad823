//! The object store and tag catalog kept in memory.

use vstd::prelude::*;
use crate::catalog::DefineSelectorParams;
use crate::catalog::DefineSelectorResult;
use crate::catalog::ListSelectorParams;
use crate::catalog::ListSelectorResult;
use crate::catalog::SelectorStorage;
use crate::catalog::SelectorStorageError;
use crate::kvfile::AddFileParams;
use crate::kvfile::AddFileResult;
use crate::kvfile::KVFile;
use crate::kvfile::KVFileStorage;
use crate::kvfile::KVFileStorageError;
use crate::kvfile::ListFileParams;
use crate::kvfile::ListFileResult;
use crate::kvfile::RemoveFileParams;
use crate::kvfile::RemoveFileResult;
use crate::kvfile::SetLabelParams;
use crate::kvfile::SetLabelResult;
use crate::kvfile::files_view;
use crate::labels::LabelMap;
use crate::labels::Labels;
use crate::labels::distinct_keys;
use crate::labels::kvs_view;
use crate::labels::lookup;
use crate::labels::put;
use crate::labels::put_all;
use crate::labels::text_of;
use crate::selector::Selector;
use crate::selector::SelectorView;
use crate::selector::Selectors;
use crate::text::contains_string;
use crate::selector::lemma_with_values_one;
use crate::selector::selectors_view;
use crate::text::texts;
use crate::store::FileView;
use crate::store::StoreView;
use crate::store::asked_once;
use crate::store::listing_test;
use crate::store::observed;
use crate::store::staying_test;

verus! {

/// An object as the store keeps it.
#[derive(Debug)]
pub struct FileItem {
    pub id: u64,
    pub kvs: LabelMap,
}

impl View for FileItem {
    type V = FileView;

    open spec fn view(&self) -> FileView {
        FileView { id: self.id, labels: self.kvs@ }
    }
}

impl Clone for FileItem {
    fn clone(&self) -> (r: Self)
        ensures
            r@ == self@,
    {
        FileItem { id: self.id, kvs: self.kvs.clone() }
    }
}

impl FileItem {
    /// An object without labels.
    pub fn new(id: u64) -> (r: FileItem)
        ensures
            r@ == (FileView { id, labels: Seq::empty() }),
    {
        FileItem { id, kvs: LabelMap::new() }
    }

    /// Puts the given labels over the object's own.
    pub fn set_labels(&mut self, labels: &LabelMap)
        ensures
            final(self).id == old(self).id,
            final(self)@.labels == put_all(old(self)@.labels, labels@),
            distinct_keys(final(self)@.labels),
    {
        self.kvs.merge(labels);
    }

    /// The object as a listing returns it.
    pub fn to_kv_file(&self) -> (r: KVFile)
        ensures
            r@ == self@,
    {
        KVFile { id: self.id, label: self.kvs.to_kvs() }
    }

    /// The selector that picks the objects with the given label.
    pub fn to_selector(pair: (&String, &String)) -> (r: Selector)
        ensures
            r@ == label_selector((pair.0@, pair.1@)),
    {
        let mut value: Vec<String> = Vec::new();
        value.push(pair.1.clone());
        proof {
            assert(texts(value@) =~= seq![pair.1@]);
            lemma_with_values_one(pair.1@);
        }
        let r = Selector::new(pair.0.clone(), value);
        r
    }

    /// The selectors for the object's labels under the given keys; for every
    /// label, when no key is given.
    pub fn to_selectors(&self, keys: &Vec<String>) -> (r: Selectors)
        ensures
            selectors_view(r@) == label_selectors(
                self@.labels,
                texts(keys@),
            ),
    {
        let labels = self.kvs.to_kvs();
        let ghost pairs = kvs_view(labels@);
        let ghost wanted = asked_test(texts(keys@));
        let mut selectors: Selectors = Vec::new();
        let mut i: usize = 0;
        while i < labels.len()
            invariant
                i <= labels.len(),
                pairs == kvs_view(labels@),
                wanted == asked_test(texts(keys@)),
                selectors_view(selectors@) == pairs.take(i as int).filter(
                    wanted,
                ).map_values(|pair: (Seq<char>, Seq<char>)| label_selector(pair)),
            decreases labels.len() - i,
        {
            let kv = &labels[i];
            proof {
                let seen = pairs.take(i as int);
                seen.lemma_filter_push(kv@, wanted);
                assert(seen.push(kv@) =~= pairs.take(i + 1));
            }
            let ghost made = selectors@;
            if keys.len() == 0 || contains_string(keys, &kv.key) {
                selectors.push(FileItem::to_selector((&kv.key, &kv.value)));
                assert(selectors_view(selectors@)
                    =~= selectors_view(made).push(label_selector(kv@)));
            }
            i += 1;
        }
        assert(pairs.take(i as int) =~= pairs);
        selectors
    }

    /// The object's value under `key`.
    pub fn get_label(&self, key: &String) -> (r: Option<String>)
        ensures
            text_of(r) == lookup(self@.labels, key@),
    {
        self.kvs.get(key)
    }
}

/// The selector that picks the objects with one label.
pub open spec fn label_selector(pair: (Seq<char>, Seq<char>)) -> SelectorView {
    SelectorView { key: pair.0, values: seq![pair.1] }
}

/// The test for the labels that are asked for: those under one of the keys,
/// or every label when no key is given.
pub open spec fn asked_test(keys: Seq<Seq<char>>) -> spec_fn((Seq<char>, Seq<char>)) -> bool {
    |pair: (Seq<char>, Seq<char>)| keys.len() == 0 || keys.contains(pair.0)
}

/// The selectors for the labels that are asked for, one for each label.
pub open spec fn label_selectors(labels: Labels, keys: Seq<Seq<char>>) -> Seq<
    SelectorView,
> {
    labels.filter(asked_test(keys)).map_values(
        |pair: (Seq<char>, Seq<char>)| label_selector(pair),
    )
}

/// The objects that a list of items stands for.
pub open spec fn items_view(items: Seq<FileItem>) -> Seq<FileView> {
    items.map_values(|f: FileItem| f@)
}

/// Whether `id` is one of `ids`.
pub fn contains_id(ids: &Vec<u64>, id: u64) -> (r: bool)
    ensures
        r == ids@.contains(id),
{
    let mut i: usize = 0;
    while i < ids.len()
        invariant
            i <= ids.len(),
            forall|j: int| 0 <= j < i ==> ids@[j] != id,
        decreases ids.len() - i,
    {
        if ids[i] == id {
            return true;
        }
        i += 1;
    }
    false
}

/// A store of tagged objects in memory. It keeps the default labels, the
/// objects in the order of their ids, and the id it gave out last.
#[derive(Debug)]
pub struct MemFileKVFileStorage {
    default_file: FileItem,
    files: Vec<FileItem>,
    last_id: u64,
}

impl MemFileKVFileStorage {
    #[verifier::type_invariant]
    spec fn well_formed(&self) -> bool {
        self.state().wf()
    }

    /// What the store holds.
    pub closed spec fn state(&self) -> StoreView {
        StoreView {
            defaults: self.default_file.kvs@,
            files: items_view(self.files@),
            last_id: self.last_id,
        }
    }

    /// A store without objects and without declared keys.
    pub fn new() -> (r: Self)
        ensures
            r.store() == StoreView::empty(),
    {
        let default_file = FileItem::new(0);
        let r = MemFileKVFileStorage { default_file, files: Vec::new(), last_id: 0 };
        assert(r.state().files =~= Seq::<FileView>::empty());
        r
    }

    /// The parts of the store, which is left empty.
    fn take_apart(&mut self) -> (r: (FileItem, Vec<FileItem>, u64))
        ensures
            r.0@.labels == old(self).store().defaults,
            items_view(r.1@) == old(self).store().files,
            r.2 == old(self).store().last_id,
            old(self).store().wf(),
    {
        proof {
            use_type_invariant(&*self);
        }
        let mut taken = MemFileKVFileStorage::new();
        std::mem::swap(self, &mut taken);
        (taken.default_file, taken.files, taken.last_id)
    }

    /// The store made of the given parts.
    fn assemble(default_file: FileItem, files: Vec<FileItem>, last_id: u64) -> (r: Self)
        requires
            (StoreView {
                defaults: default_file@.labels,
                files: items_view(files@),
                last_id,
            }).wf(),
        ensures
            r.store() == (StoreView {
                defaults: default_file@.labels,
                files: items_view(files@),
                last_id,
            }),
    {
        MemFileKVFileStorage { default_file, files, last_id }
    }

    /// The id given out last; 0 when none was.
    pub fn last_id(&self) -> (r: u64)
        ensures
            r == self.store().last_id,
    {
        self.last_id
    }

    /// The number of objects.
    pub fn len(&self) -> (r: usize)
        ensures
            r == self.store().files.len(),
            self.store().wf(),
    {
        proof {
            use_type_invariant(self);
        }
        self.files.len()
    }

    /// The index of the object with the id, or the number of objects.
    fn find(&self, id: u64) -> (r: usize)
        ensures
            r <= self.store().files.len(),
            r < self.store().files.len() <==> self.store().contains_id(id),
            r == self.store().index_of(id),
    {
        proof {
            use_type_invariant(self);
        }
        let mut i: usize = 0;
        while i < self.files.len()
            invariant
                i <= self.files.len(),
                self.state().wf(),
                forall|j: int| 0 <= j < i ==> self.state().files[j].id != id,
            decreases self.files.len() - i,
        {
            if self.files[i].id == id {
                assert(self.state().files[i as int].id == id);
                return i;
            }
            i += 1;
        }
        i
    }

    /// The selector of a key that holds its declared default alone; it has
    /// no value when the key was never declared.
    fn default_selector(&self, key: &String) -> (r: Selector)
        ensures
            r@ == self.store().default_selector_of(key@),
    {
        let mut values: Vec<String> = Vec::new();
        match self.default_file.get_label(key) {
            Some(v) => {
                values.push(v);
            },
            None => {},
        }
        proof {
            let given = texts(values@);
            assert(given =~= self.store().default_values(key@));
            if given.len() == 1 {
                assert(given =~= seq![given[0]]);
                lemma_with_values_one(given[0]);
            }
        }
        Selector::new(key.clone(), values)
    }

    /// The selector of a key: its declared default and the values observed.
    fn observed_selector(&self, key: &String) -> (r: Selector)
        ensures
            r@ == self.store().selector_of(key@),
    {
        let mut selector = self.default_selector(key);
        let mut i: usize = 0;
        while i < self.files.len()
            invariant
                i <= self.files.len(),
                selector@.key == key@,
                selector@.values == observed(
                    self.state().files.take(i as int),
                    key@,
                    self.state().default_values(key@),
                ),
            decreases self.files.len() - i,
        {
            proof {
                assert(self.state().files.take(i + 1).drop_last() =~= self.state().files.take(
                    i as int,
                ));
            }
            match self.files[i].get_label(key) {
                Some(v) => {
                    selector.add_value(v);
                },
                None => {},
            }
            i += 1;
        }
        assert(self.state().files.take(i as int) =~= self.state().files);
        selector
    }
}

impl SelectorStorage for MemFileKVFileStorage {
    closed spec fn store(&self) -> StoreView {
        self.state()
    }

    open spec fn never_fails(&self) -> bool {
        true
    }

    fn define_selector(&mut self, params: &DefineSelectorParams) -> (r: Result<
        DefineSelectorResult,
        SelectorStorageError,
    >) {
        let (mut default_file, mut files, last_id) = self.take_apart();
        let ghost before = old(self).store();
        let ghost given = if params.set_default_for_history {
            params.default_value@
        } else {
            Seq::<char>::empty()
        };
        default_file.kvs.insert(params.key.clone(), params.default_value.clone());
        assert forall|j: int| 0 <= j < files.len() implies (#[trigger] files@[j])@
            == before.files[j] by {
            assert(items_view(files@)[j] == files@[j]@);
        }
        let mut i: usize = 0;
        while i < files.len()
            invariant
                i <= files.len(),
                files@.len() == before.files.len(),
                before.wf(),
                given == if params.set_default_for_history {
                    params.default_value@
                } else {
                    Seq::<char>::empty()
                },
                forall|j: int|
                    0 <= j < i ==> (#[trigger] files@[j])@ == (FileView {
                        id: before.files[j].id,
                        labels: put(before.files[j].labels, params.key@, given),
                    }),
                forall|j: int| i <= j < files.len() ==> (#[trigger] files@[j])@ == before.files[j],
                forall|j: int| 0 <= j < files.len() ==> distinct_keys((#[trigger] files@[j])@.labels),
            decreases files.len() - i,
        {
            let value = if params.set_default_for_history {
                params.default_value.clone()
            } else {
                String::new()
            };
            files[i].kvs.insert(params.key.clone(), value);
            i += 1;
        }
        proof {
            let after = before.define(
                params.key@,
                params.default_value@,
                params.set_default_for_history,
            );
            assert(items_view(files@) =~= after.files);
        }
        *self = MemFileKVFileStorage::assemble(default_file, files, last_id);
        Ok(DefineSelectorResult {  })
    }

    fn list_selector(&self, params: &ListSelectorParams) -> (r: Result<
        ListSelectorResult,
        SelectorStorageError,
    >) {
        let ghost asked = texts(params.key@);
        let mut default_selector: Selectors = Vec::new();
        let mut selectors: Selectors = Vec::new();
        let mut chosen: Vec<String> = Vec::new();
        let mut i: usize = 0;
        while i < params.key.len()
            invariant
                i <= params.key.len(),
                asked == texts(params.key@),
                texts(chosen@) == asked_once(asked.take(i as int)),
                selectors@.len() == chosen@.len(),
                default_selector@.len() == chosen@.len(),
                forall|j: int|
                    0 <= j < chosen@.len() ==> (#[trigger] selectors@[j])@
                        == self.state().selector_of(chosen@[j]@),
                forall|j: int|
                    0 <= j < chosen@.len() ==> (#[trigger] default_selector@[j])@
                        == self.state().default_selector_of(chosen@[j]@),
            decreases params.key.len() - i,
        {
            proof {
                assert(asked.take(i + 1).drop_last() =~= asked.take(i as int));
            }
            let key = &params.key[i];
            if !contains_string(&chosen, key) {
                default_selector.push(self.default_selector(key));
                selectors.push(self.observed_selector(key));
                chosen.push(key.clone());
            }
            i += 1;
        }
        proof {
            assert(asked.take(i as int) =~= asked);
        }
        Ok(ListSelectorResult { default_selector, selectors })
    }
}

impl KVFileStorage for MemFileKVFileStorage {
    fn list_file(&self, params: &ListFileParams) -> (r: Result<ListFileResult, KVFileStorageError>)
    {
        let ghost wanted = listing_test(
            params.ids@,
            selectors_view(params.selectors@),
        );
        let mut files: Vec<KVFile> = Vec::new();
        let mut i: usize = 0;
        while i < self.files.len()
            invariant
                i <= self.files.len(),
                wanted == listing_test(
                    params.ids@,
                    selectors_view(params.selectors@),
                ),
                files_view(files@) == self.state().files.take(i as int).filter(wanted),
            decreases self.files.len() - i,
        {
            let item = &self.files[i];
            proof {
                let seen = self.state().files.take(i as int);
                seen.lemma_filter_push(item@, wanted);
                assert(seen.push(item@) =~= self.state().files.take(i + 1));
            }
            if (params.ids.len() == 0 || contains_id(&params.ids, item.id))
                && Selector::is_match_selectors(&params.selectors, &item.kvs) {
                files.push(item.to_kv_file());
            }
            i += 1;
        }
        assert(self.state().files.take(i as int) =~= self.state().files);
        Ok(ListFileResult { files })
    }

    fn add_file(&mut self, params: &AddFileParams) -> (r: Result<AddFileResult, KVFileStorageError>)
    {
        let (default_file, mut files, last_id) = self.take_apart();
        let ghost before = old(self).store();
        let mut new_file = default_file.clone();
        new_file.kvs.insert_all(&params.label);
        let id = last_id + 1;
        new_file.id = id;
        let label = new_file.kvs.clone();
        files.push(new_file);
        proof {
            let after = before.add(kvs_view(params.label@));
            assert(items_view(files@) =~= after.files);
        }
        *self = MemFileKVFileStorage::assemble(default_file, files, id);
        Ok(AddFileResult { id, label })
    }

    fn remove_file(&mut self, params: &RemoveFileParams) -> (r: Result<
        RemoveFileResult,
        KVFileStorageError,
    >) {
        let (default_file, mut files, last_id) = self.take_apart();
        let ghost before = old(self).store();
        let ghost staying = staying_test(params.ids@);
        let mut kept: Vec<FileItem> = Vec::new();
        let mut i: usize = 0;
        while i < files.len()
            invariant
                i <= files.len(),
                files@.len() == before.files.len(),
                kept@.len() <= i,
                before.wf(),
                staying == staying_test(params.ids@),
                forall|j: int| i <= j < files.len() ==> (#[trigger] files@[j])@ == before.files[j],
                items_view(kept@) == before.files.take(i as int).filter(staying),
                forall|j: int| 0 <= j < kept@.len() ==> distinct_keys((#[trigger] kept@[j])@.labels),
                forall|j: int|
                    0 <= j < kept@.len() ==> 0 < (#[trigger] kept@[j]).id <= before.last_id,
                forall|j: int, k: int| 0 <= j < k < kept@.len() ==> kept@[j].id < kept@[k].id,
                forall|j: int|
                    0 <= j < kept@.len() && i < files.len() ==> (#[trigger] kept@[j]).id
                        < before.files[i as int].id,
            decreases files.len() - i,
        {
            let mut item = FileItem::new(0);
            std::mem::swap(&mut files[i], &mut item);
            proof {
                let seen = before.files.take(i as int);
                seen.lemma_filter_push(item@, staying);
                assert(seen.push(item@) =~= before.files.take(i + 1));
            }
            if !contains_id(&params.ids, item.id) {
                kept.push(item);
            }
            i += 1;
        }
        assert(before.files.take(i as int) =~= before.files);
        let amount = files.len() - kept.len();
        *self = MemFileKVFileStorage::assemble(default_file, kept, last_id);
        Ok(RemoveFileResult { amount })
    }

    fn set_label(&mut self, params: &SetLabelParams) -> (r: Result<
        SetLabelResult,
        KVFileStorageError,
    >) {
        let at = self.find(params.id);
        if at >= self.files.len() {
            return Err(KVFileStorageError::NotFound);
        }
        let (default_file, mut files, last_id) = self.take_apart();
        let ghost before = old(self).store();
        files[at].set_labels(&params.label);
        let kvs = files[at].kvs.clone();
        proof {
            let after = before.set_label(params.id, params.label@);
            assert(items_view(files@) =~= after.files);
            assert(after.files[at as int].id == params.id);
        }
        *self = MemFileKVFileStorage::assemble(default_file, files, last_id);
        Ok(SetLabelResult { kvs })
    }
}

} // verus!
