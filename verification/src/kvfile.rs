//! The tagged object store: objects with an id and labels, and the contract
//! of a store that keeps them.

use vstd::prelude::*;
use crate::catalog::SelectorStorage;
use crate::labels::KVs;
use crate::labels::LabelMap;
use crate::labels::kvs_view;
use crate::selector::Selectors;
use crate::selector::selectors_view;
use crate::store::FileView;

verus! {

/// Why a request to the object store failed.
#[derive(Debug, Clone, Copy, PartialEq, Eq)]
pub enum KVFileStorageError {
    NotFound,
}

impl KVFileStorageError {
    /// The error in words.
    pub fn message(&self) -> (r: String)
        ensures
            r@ == "NotFound"@,
    {
        "NotFound".to_owned()
    }
}

/// An object as a listing returns it.
#[derive(Debug)]
pub struct KVFile {
    pub id: u64,
    pub label: KVs,
}

impl View for KVFile {
    type V = FileView;

    open spec fn view(&self) -> FileView {
        FileView { id: self.id, labels: kvs_view(self.label@) }
    }
}

impl Clone for KVFile {
    fn clone(&self) -> (r: Self)
        ensures
            r@ == self@,
    {
        let mut label: KVs = Vec::new();
        let mut i: usize = 0;
        while i < self.label.len()
            invariant
                i <= self.label.len(),
                label@.len() == i,
                forall|j: int| 0 <= j < i ==> label@[j]@ == self.label@[j]@,
            decreases self.label.len() - i,
        {
            label.push(self.label[i].clone());
            i += 1;
        }
        assert(kvs_view(label@) =~= kvs_view(self.label@));
        KVFile { id: self.id, label }
    }
}

/// The objects that a list of files stands for.
pub open spec fn files_view(files: Seq<KVFile>) -> Seq<FileView> {
    files.map_values(|f: KVFile| f@)
}

/// Which objects to list: those with one of the ids (every object, when no
/// id is given) whose labels satisfy every selector.
#[derive(Debug)]
pub struct ListFileParams {
    pub ids: Vec<u64>,
    pub selectors: Selectors,
}

/// The listed objects.
#[derive(Debug)]
pub struct ListFileResult {
    pub files: Vec<KVFile>,
}

/// The labels to put over those of the object `id`.
#[derive(Debug)]
pub struct SetLabelParams {
    pub id: u64,
    pub label: LabelMap,
}

/// The labels of the object after the change.
#[derive(Debug)]
pub struct SetLabelResult {
    pub kvs: LabelMap,
}

/// The ids of the objects to remove.
#[derive(Debug, Clone)]
pub struct RemoveFileParams {
    pub ids: Vec<u64>,
}

/// How many objects were removed.
#[derive(Debug, Clone)]
pub struct RemoveFileResult {
    pub amount: usize,
}

/// The labels of a new object.
#[derive(Debug)]
pub struct AddFileParams {
    pub label: KVs,
}

/// The id and the labels that the new object got.
#[derive(Debug)]
pub struct AddFileResult {
    pub id: u64,
    pub label: LabelMap,
}

/// A store of tagged objects, which keeps the tag catalog too.
pub trait KVFileStorage: SelectorStorage {
    /// The objects that the ids and selectors pick, in the order of their ids.
    fn list_file(&self, params: &ListFileParams) -> (r: Result<ListFileResult, KVFileStorageError>)
        ensures
            r matches Ok(res) ==> files_view(res.files@) == self.store().list(
                params.ids@,
                selectors_view(params.selectors@),
            ),
            self.never_fails() ==> r is Ok,
    ;

    /// Adds an object: the default labels with the given labels put over
    /// them, under the next id.
    fn add_file(&mut self, params: &AddFileParams) -> (r: Result<AddFileResult, KVFileStorageError>)
        requires
            old(self).store().has_room(),
        ensures
            final(self).never_fails() == old(self).never_fails(),
            r matches Ok(res) ==> {
                &&& final(self).store() == old(self).store().add(kvs_view(params.label@))
                &&& res.id == old(self).store().next_id()
                &&& res.label@ == old(self).store().seeded(kvs_view(params.label@))
            },
            r is Err ==> final(self).store() == old(self).store(),
            old(self).never_fails() ==> r is Ok,
    ;

    /// Removes the objects with the given ids and says how many there were;
    /// an id that no object has is passed over.
    fn remove_file(&mut self, params: &RemoveFileParams) -> (r: Result<
        RemoveFileResult,
        KVFileStorageError,
    >)
        ensures
            final(self).never_fails() == old(self).never_fails(),
            r matches Ok(res) ==> {
                &&& final(self).store() == old(self).store().remove(params.ids@)
                &&& res.amount == old(self).store().removed_count(params.ids@)
            },
            r is Err ==> final(self).store() == old(self).store(),
            old(self).never_fails() ==> r is Ok,
    ;

    /// Puts the given labels over those of the object `id` and returns the
    /// labels it then has. `NotFound` when no object has the id.
    fn set_label(&mut self, params: &SetLabelParams) -> (r: Result<
        SetLabelResult,
        KVFileStorageError,
    >)
        ensures
            final(self).never_fails() == old(self).never_fails(),
            r matches Ok(res) ==> {
                &&& old(self).store().contains_id(params.id)
                &&& final(self).store() == old(self).store().set_label(params.id, params.label@)
                &&& res.kvs@ == final(self).store().labels_of(params.id)
            },
            r is Err ==> final(self).store() == old(self).store(),
            old(self).never_fails() ==> (r is Ok <==> old(self).store().contains_id(params.id)),
    ;
}

} // verus!
