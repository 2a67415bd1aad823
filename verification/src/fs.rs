//! The navigator: it resolves the tokens of a path against the registry of
//! selector sets and the object store, and renders what it finds as directory
//! entries. It also hands the management requests on to the stores.

use vstd::prelude::*;
use vstd::utf8::decode_utf8;
use vstd::utf8::valid_utf8;
use std::str::Utf8Error;
use std::time::SystemTime;
use crate::catalog::DefineSelectorParams;
use crate::catalog::ListSelectorParams;
use crate::catalog::first_selector;
use crate::catalog::SelectorStorage;
use crate::catalog::SelectorStorageError;
use crate::clock::now;
use crate::entry::DirEntry;
use crate::entry::EntryView;
use crate::entry::StaticDir;
use crate::entry::StaticFile;
use crate::entry::dir_entry;
use crate::entry::entries_view;
use crate::entry::label_entries;
use crate::entry::object_entries;
use crate::entry::set_entries;
use crate::entry::shown_test;
use crate::entry::title_key;
use crate::entry::title_text;
use crate::entry::value_entries;
use crate::kvfile::KVFileStorage;
use crate::kvfile::KVFileStorageError;
use crate::kvfile::ListFileParams;
use crate::kvfile::ListFileResult;
use crate::kvfile::files_view;
use crate::labels::KV;
use crate::labels::kvs_view;
use crate::path::percent_decoded;
use crate::path::split_tokens;
use crate::selector::Selector;
use crate::selector::SelectorView;
use crate::selector::clone_selectors;
use crate::selector::lemma_with_values_one;
use crate::selector::selectors_view;
use crate::text::clone_strings;
use crate::text::texts;
use crate::selector_set::DefineSelectorSetParams;
use crate::selector_set::ListSelectorSetParams;
use crate::selector_set::ListSelectorSetResult;
use crate::selector_set::RegistryView;
use crate::selector_set::RemoveSelectorSetParams;
use crate::selector_set::SelectorSet;
use crate::selector_set::SelectorSetStorage;
use crate::selector_set::SelectorSetStorageError;
use crate::selector_set::SelectorSetView;
use crate::selector_set::find;
use crate::selector_set::registered;
use crate::selector_set::remove_all;
use crate::selector_set::sets_view;
use crate::selector_set::upsert;
use crate::store::StoreView;

verus! {

/// Why a request to the file system failed.
#[derive(Debug, Clone, Copy, PartialEq, Eq)]
pub enum FilesystemError {
    /// A set, a key or an object that the request names is absent.
    NotFound,
    /// The path cannot be decoded, or a token that starts with `.` stands
    /// where a value is bound.
    InvalidPath,
    /// Two objects claim one title.
    Conflict,
    /// A store failed for reasons of its own.
    StorageUnavailable,
}

impl FilesystemError {
    /// The error in words.
    pub fn message(&self) -> (r: String)
        ensures
            r@ == match *self {
                FilesystemError::NotFound => "NotFound"@,
                FilesystemError::InvalidPath => "InvalidPath"@,
                FilesystemError::Conflict => "Conflict"@,
                FilesystemError::StorageUnavailable => "StorageUnavailable"@,
            },
    {
        match self {
            FilesystemError::NotFound => "NotFound".to_owned(),
            FilesystemError::InvalidPath => "InvalidPath".to_owned(),
            FilesystemError::Conflict => "Conflict".to_owned(),
            FilesystemError::StorageUnavailable => "StorageUnavailable".to_owned(),
        }
    }
}

impl From<SelectorStorageError> for FilesystemError {
    fn from(value: SelectorStorageError) -> (r: Self) {
        match value {
            SelectorStorageError::NotFound => FilesystemError::NotFound,
        }
    }
}

impl vstd::std_specs::convert::FromSpecImpl<SelectorStorageError> for FilesystemError {
    open spec fn obeys_from_spec() -> bool {
        true
    }

    open spec fn from_spec(value: SelectorStorageError) -> Self {
        FilesystemError::NotFound
    }
}

impl From<KVFileStorageError> for FilesystemError {
    fn from(value: KVFileStorageError) -> (r: Self) {
        match value {
            KVFileStorageError::NotFound => FilesystemError::NotFound,
        }
    }
}

impl vstd::std_specs::convert::FromSpecImpl<KVFileStorageError> for FilesystemError {
    open spec fn obeys_from_spec() -> bool {
        true
    }

    open spec fn from_spec(value: KVFileStorageError) -> Self {
        FilesystemError::NotFound
    }
}

impl From<SelectorSetStorageError> for FilesystemError {
    fn from(value: SelectorSetStorageError) -> (r: Self) {
        match value {
            SelectorSetStorageError::NotFound => FilesystemError::NotFound,
        }
    }
}

impl vstd::std_specs::convert::FromSpecImpl<SelectorSetStorageError> for FilesystemError {
    open spec fn obeys_from_spec() -> bool {
        true
    }

    open spec fn from_spec(value: SelectorSetStorageError) -> Self {
        FilesystemError::NotFound
    }
}

/// Whether a token carries the marker of an attribute file: a leading `.`.
pub open spec fn is_marked(token: Seq<char>) -> bool {
    token.len() > 0 && token[0] == '.'
}

/// Binds tokens to the open slots of a set, first to last, until the tokens
/// or the slots run out. It gives the set as bound and the tokens that are
/// left, or nothing when a marked token stands where a value is due.
pub open spec fn bind_path(set: SelectorSetView, tokens: Seq<Seq<char>>) -> Option<
    (SelectorSetView, Seq<Seq<char>>),
>
    decreases tokens.len(),
{
    if tokens.len() == 0 || set.is_full() {
        Some((set, tokens))
    } else if is_marked(tokens[0]) {
        None
    } else {
        bind_path(set.bind(tokens[0]), tokens.drop_first())
    }
}

/// The number of tokens that a set takes whose first `bound` dynamic
/// selectors have a value and whose other ones are open.
pub open spec fn taken(set: SelectorSetView, bound: int, tokens: Seq<Seq<char>>) -> int {
    if tokens.len() <= set.dynamics.len() - bound {
        tokens.len() as int
    } else {
        set.dynamics.len() - bound
    }
}

/// Tokens bind in the order of the path: on a set whose open slots are its
/// last ones, a path without marked tokens binds its tokens, first to last,
/// to those slots, and the tokens beyond the slots are left.
pub proof fn law_tokens_bind_in_order(set: SelectorSetView, bound: int, tokens: Seq<Seq<char>>)
    requires
        0 <= bound <= set.dynamics.len(),
        forall|i: int| 0 <= i < bound ==> set.dynamics[i].values.len() > 0,
        forall|i: int| bound <= i < set.dynamics.len() ==> set.dynamics[i].values.len() == 0,
        forall|j: int| 0 <= j < taken(set, bound, tokens) ==> !is_marked(tokens[j]),
    ensures
        bind_path(set, tokens) == Some(
            (
                crate::selector_set::bind_all(set, tokens.take(taken(set, bound, tokens))),
                tokens.skip(taken(set, bound, tokens)),
            ),
        ),
    decreases tokens.len(),
{
    let k = taken(set, bound, tokens);
    crate::selector_set::law_full_iff_all_bound(set);
    if tokens.len() == 0 || set.is_full() {
        if set.is_full() && bound < set.dynamics.len() {
            assert(set.dynamics[bound].values.len() > 0);
        }
        assert(tokens.take(0) =~= Seq::<Seq<char>>::empty());
        assert(tokens.skip(0) =~= tokens);
    } else {
        if bound == set.dynamics.len() {
            assert(set.is_full());
        }
        let first = tokens[0];
        let rest = tokens.drop_first();
        let next = set.bind(first);
        crate::selector_set::law_bind_leftmost(set, first, bound);
        assert forall|i: int| 0 <= i < bound + 1 implies next.dynamics[i].values.len() > 0 by {
            if i < bound {
                assert(next.dynamics[i] == set.dynamics[i]);
            } else {
                assert(next.dynamics[i].values == seq![first]);
            }
        }
        assert forall|i: int| bound + 1 <= i < next.dynamics.len() implies next.dynamics[i].values.len()
            == 0 by {
            assert(next.dynamics[i] == set.dynamics[i]);
        }
        assert forall|j: int| 0 <= j < taken(next, bound + 1, rest) implies !is_marked(rest[j]) by {
            assert(rest[j] == tokens[j + 1]);
        }
        law_tokens_bind_in_order(next, bound + 1, rest);
        crate::selector_set::lemma_bind_all_shift(set, first, rest.take(k - 1));
        assert(seq![first] + rest.take(k - 1) =~= tokens.take(k));
        assert(rest.skip(k - 1) =~= tokens.skip(k));
    }
}

/// The selector that picks the objects of one title.
pub open spec fn title_selector(title: Seq<char>) -> SelectorView {
    SelectorView { key: title_text(), values: seq![title] }
}

/// The listing of a set that still has an open slot: one directory for each
/// value that the catalog holds for the slot's key, which is the key's
/// declared default, if it has one, and every value that an object carries
/// under the key.
pub open spec fn choices(store: StoreView, set: SelectorSetView, now: SystemTime) -> Result<
    Seq<EntryView>,
    FilesystemError,
> {
    Ok(value_entries(store.values_of(set.dynamics[set.next_required_index()].key), now))
}

/// The listing of a full set: one directory for each object that satisfies
/// the set's static and dynamic selectors.
pub open spec fn matched(store: StoreView, set: SelectorSetView, now: SystemTime) -> Result<
    Seq<EntryView>,
    FilesystemError,
> {
    Ok(object_entries(store.list(Seq::empty(), set.all_selectors()), now))
}

/// The listing of one object, which is the first of the given title: a file
/// for each of its labels but the base metadata. `NotFound` when no object
/// has the title.
pub open spec fn details(store: StoreView, title: Seq<char>, now: SystemTime) -> Result<
    Seq<EntryView>,
    FilesystemError,
> {
    let found = store.list(Seq::empty(), seq![title_selector(title)]);
    if found.len() == 0 {
        Err(FilesystemError::NotFound)
    } else {
        Ok(label_entries(found[0].labels, now))
    }
}

/// What the tokens of a path resolve to.
///
/// No token: a directory for each registered set. Else the first token names
/// a set, and the tokens after it are bound to the set's open slots. A set
/// with a slot still open lists the values of that slot; a full set with no
/// token left lists its objects; a full set with a token left lists the
/// labels of the object whose title is that token.
pub open spec fn resolution(
    registry: Seq<SelectorSetView>,
    store: StoreView,
    tokens: Seq<Seq<char>>,
    now: SystemTime,
) -> Result<Seq<EntryView>, FilesystemError> {
    if tokens.len() == 0 {
        Ok(set_entries(registry, now))
    } else if !registered(registry, tokens[0]) {
        Err(FilesystemError::NotFound)
    } else {
        match bind_path(registry[find(registry, tokens[0])], tokens.drop_first()) {
            None => Err(FilesystemError::InvalidPath),
            Some((set, rest)) => {
                if !set.is_full() {
                    choices(store, set, now)
                } else if rest.len() == 0 {
                    matched(store, set, now)
                } else {
                    details(store, rest[0], now)
                }
            },
        }
    }
}

/// What a percent-encoded path resolves to: `InvalidPath` when it does not
/// decode to UTF-8, else what its tokens resolve to.
pub open spec fn path_resolution(
    registry: Seq<SelectorSetView>,
    store: StoreView,
    path: Seq<u8>,
    now: SystemTime,
) -> Result<Seq<EntryView>, FilesystemError> {
    if valid_utf8(percent_decoded(path)) {
        resolution(registry, store, split_tokens(decode_utf8(percent_decoded(path))), now)
    } else {
        Err(FilesystemError::InvalidPath)
    }
}

/// A listing as mathematics.
pub open spec fn listing_view(r: Result<Vec<DirEntry>, FilesystemError>) -> Result<
    Seq<EntryView>,
    FilesystemError,
> {
    match r {
        Ok(entries) => Ok(entries_view(entries@)),
        Err(e) => Err(e),
    }
}

/// Whether the listing `r` answers a request whose outcome is `expected`,
/// given stores that are `dependable` or not: entries are always the
/// expected ones; `InvalidPath` is always the expected error; any other error
/// is the expected one when the stores are dependable, and may else come from
/// a store that failed.
pub open spec fn answers(
    r: Result<Vec<DirEntry>, FilesystemError>,
    expected: Result<Seq<EntryView>, FilesystemError>,
    dependable: bool,
) -> bool {
    match r {
        Ok(entries) => expected == Ok::<Seq<EntryView>, FilesystemError>(entries_view(entries@)),
        Err(e) => (dependable || e == FilesystemError::InvalidPath) ==> expected == Err::<
            Seq<EntryView>,
            FilesystemError,
        >(e),
    }
}

/// Whether the token starts with the marker `.`.
pub fn starts_with_marker(token: &String) -> (r: bool)
    ensures
        r == is_marked(token@),
{
    let s = token.as_str();
    !s.is_empty() && s.get_char(0) == '.'
}

/// Binds the tokens from index `from` on to the open slots of the set, until
/// the tokens or the slots run out, and returns the index of the first token
/// that was not bound. `InvalidPath` when a marked token stands where a value
/// is due.
pub fn bind_tokens(selector_set: &mut SelectorSet, tokens: &Vec<String>, from: usize) -> (r:
    Result<usize, FilesystemError>)
    requires
        from <= tokens@.len(),
    ensures
        match bind_path(old(selector_set)@, texts(tokens@).skip(from as int)) {
            Some((set, rest)) => {
                &&& r matches Ok(next)
                &&& from <= next <= tokens@.len()
                &&& final(selector_set)@ == set
                &&& rest == texts(tokens@).skip(next as int)
            },
            None => r == Err::<usize, FilesystemError>(FilesystemError::InvalidPath),
        },
{
    let ghost all = texts(tokens@);
    let mut i: usize = from;
    while i < tokens.len() && !selector_set.is_full()
        invariant
            from <= i <= tokens@.len(),
            all == texts(tokens@),
            bind_path(old(selector_set)@, all.skip(from as int)) == bind_path(
                selector_set@,
                all.skip(i as int),
            ),
        decreases tokens@.len() - i,
    {
        assert(all.skip(i as int).drop_first() =~= all.skip(i + 1));
        if starts_with_marker(&tokens[i]) {
            return Err(FilesystemError::InvalidPath);
        }
        selector_set.add_required_value(tokens[i].clone());
        i += 1;
    }
    Ok(i)
}

/// The root listing for what the registry answered: a directory for each
/// set, or `StorageUnavailable` when the registry failed.
pub fn render_sets(
    listing: Result<ListSelectorSetResult, SelectorSetStorageError>,
    now: SystemTime,
) -> (r: Result<Vec<DirEntry>, FilesystemError>)
    ensures
        listing_view(r) == match listing {
            Ok(res) => Ok(set_entries(sets_view(res.selector_set@), now)),
            Err(_) => Err(FilesystemError::StorageUnavailable),
        },
{
    match listing {
        Err(_) => Err(FilesystemError::StorageUnavailable),
        Ok(result) => {
            let mut dirs: Vec<DirEntry> = Vec::new();
            let mut i: usize = 0;
            while i < result.selector_set.len()
                invariant
                    i <= result.selector_set.len(),
                    dirs@.len() == i,
                    forall|j: int|
                        0 <= j < i ==> (#[trigger] dirs@[j])@ == crate::entry::set_entry(
                            result.selector_set@[j]@,
                            now,
                        ),
                decreases result.selector_set.len() - i,
            {
                dirs.push(DirEntry::Dir(StaticDir::from_selector_set(&result.selector_set[i], now)));
                i += 1;
            }
            assert(entries_view(dirs@) =~= set_entries(sets_view(result.selector_set@), now));
            Ok(dirs)
        },
    }
}

/// The listing of an open slot for what the catalog answered: a directory
/// for each value of the selector, or `NotFound` when the catalog gave none.
pub fn render_values(selector: Result<Selector, SelectorStorageError>, now: SystemTime) -> (r:
    Result<Vec<DirEntry>, FilesystemError>)
    ensures
        listing_view(r) == match selector {
            Ok(found) => Ok(value_entries(found@.values, now)),
            Err(_) => Err(FilesystemError::NotFound),
        },
{
    match selector {
        Err(_) => Err(FilesystemError::NotFound),
        Ok(found) => {
            let values = found.values();
            let mut dirs: Vec<DirEntry> = Vec::new();
            let mut i: usize = 0;
            while i < values.len()
                invariant
                    i <= values.len(),
                    dirs@.len() == i,
                    forall|j: int|
                        0 <= j < i ==> (#[trigger] dirs@[j])@ == dir_entry(values@[j]@, now),
                decreases values.len() - i,
            {
                dirs.push(DirEntry::Dir(StaticDir::new(&values[i], now)));
                i += 1;
            }
            assert(entries_view(dirs@) =~= value_entries(texts(values@), now));
            Ok(dirs)
        },
    }
}

/// The listing of a full set for what the store answered: a directory for
/// each object, or `NotFound` when the store failed.
pub fn render_objects(listing: Result<ListFileResult, KVFileStorageError>, now: SystemTime) -> (r:
    Result<Vec<DirEntry>, FilesystemError>)
    ensures
        listing_view(r) == match listing {
            Ok(res) => Ok(object_entries(files_view(res.files@), now)),
            Err(_) => Err(FilesystemError::NotFound),
        },
{
    match listing {
        Err(_) => Err(FilesystemError::NotFound),
        Ok(result) => {
            let mut dirs: Vec<DirEntry> = Vec::new();
            let mut i: usize = 0;
            while i < result.files.len()
                invariant
                    i <= result.files.len(),
                    dirs@.len() == i,
                    forall|j: int|
                        0 <= j < i ==> (#[trigger] dirs@[j])@ == crate::entry::object_entry(
                            result.files@[j]@,
                            now,
                        ),
                decreases result.files.len() - i,
            {
                dirs.push(DirEntry::Dir(StaticDir::from_file(&result.files[i], now)));
                i += 1;
            }
            assert(entries_view(dirs@) =~= object_entries(files_view(result.files@), now));
            Ok(dirs)
        },
    }
}

/// The listing of one object for what the store answered: a file for each
/// label of the first object but the base metadata, or `NotFound` when the
/// store gave no object or failed.
pub fn render_labels(listing: Result<ListFileResult, KVFileStorageError>, now: SystemTime) -> (r:
    Result<Vec<DirEntry>, FilesystemError>)
    ensures
        listing_view(r) == match listing {
            Ok(res) => if res.files@.len() > 0 {
                Ok(label_entries(res.files@[0]@.labels, now))
            } else {
                Err(FilesystemError::NotFound)
            },
            Err(_) => Err(FilesystemError::NotFound),
        },
{
    match listing {
        Err(_) => Err(FilesystemError::NotFound),
        Ok(result) => {
            if result.files.len() == 0 {
                return Err(FilesystemError::NotFound);
            }
            let file = &result.files[0];
            let title = title_key();
            let ghost labels = kvs_view(file.label@);
            let ghost shown = shown_test();
            let mut entries: Vec<DirEntry> = Vec::new();
            let mut i: usize = 0;
            while i < file.label.len()
                invariant
                    i <= file.label.len(),
                    labels == kvs_view(file.label@),
                    shown == shown_test(),
                    title@ == title_text(),
                    entries_view(entries@) == label_entries(labels.take(i as int), now),
                decreases file.label.len() - i,
            {
                let kv = &file.label[i];
                proof {
                    let seen = labels.take(i as int);
                    seen.lemma_filter_push(kv@, shown);
                    assert(seen.push(kv@) =~= labels.take(i + 1));
                }
                let ghost listed = entries@;
                if kv.key != title {
                    entries.push(DirEntry::File(StaticFile::from_label(kv, now)));
                    assert(entries_view(entries@) =~= entries_view(listed).push(
                        crate::entry::label_entry(kv@, now),
                    ));
                }
                i += 1;
            }
            assert(labels.take(i as int) =~= labels);
            Ok(entries)
        },
    }
}

/// The selector set of a collection to define.
#[derive(Debug)]
pub struct DefineCollectionParams {
    pub selector_set: SelectorSet,
}

/// The answer to the definition of a collection.
#[derive(Debug, Clone)]
pub struct DefineCollectionResult {}

/// The names of the collections to remove.
#[derive(Debug, Clone)]
pub struct RemoveCollectionParams {
    pub name: Vec<String>,
}

/// The answer to the removal of collections.
#[derive(Debug, Clone)]
pub struct RemoveCollectionResult {}

/// The labels of a new object.
#[derive(Debug)]
pub struct AddFileParams {
    pub kvs: Vec<KV>,
}

/// The answer to the addition of an object.
#[derive(Debug, Clone)]
pub struct AddFileResult {}

/// The answer to the declaration of a label key.
#[derive(Debug, Clone)]
pub struct DefineSelectorResult {}

/// The management requests of a file system of collections.
///
/// An implementation states the collections, the catalog and the objects
/// that it holds; each request changes one of the three as the matching
/// store operation does, and a failed request changes nothing.
pub trait CollectionFS {
    /// The registry that keeps the collections.
    spec fn shelf(&self) -> RegistryView;

    /// The registered collections.
    open spec fn collections(&self) -> Seq<SelectorSetView> {
        self.shelf().sets
    }

    /// The store that keeps the tag catalog.
    spec fn catalog(&self) -> StoreView;

    /// The store that keeps the objects.
    spec fn objects(&self) -> StoreView;

    /// Whether every request that the state allows succeeds.
    spec fn unfailing(&self) -> bool;

    /// Adds an object with the given labels.
    fn add_file(&mut self, params: &AddFileParams) -> (r: Result<AddFileResult, FilesystemError>)
        requires
            old(self).objects().has_room(),
        ensures
            final(self).collections() == old(self).collections(),
            final(self).unfailing() == old(self).unfailing(),
            r is Ok ==> final(self).objects() == old(self).objects().add(kvs_view(params.kvs@)),
            r is Err ==> final(self).objects() == old(self).objects(),
            old(self).unfailing() ==> r is Ok,
    ;

    /// Declares a label key in the catalog.
    fn define_selector(&mut self, params: &DefineSelectorParams) -> (r: Result<
        DefineSelectorResult,
        FilesystemError,
    >)
        ensures
            final(self).collections() == old(self).collections(),
            final(self).unfailing() == old(self).unfailing(),
            r is Ok ==> final(self).catalog() == old(self).catalog().define(
                params.key@,
                params.default_value@,
                params.set_default_for_history,
            ),
            r is Err ==> final(self).catalog() == old(self).catalog(),
            old(self).unfailing() ==> r is Ok,
    ;

    /// Defines a collection, replacing a collection of the same name.
    fn define_collection(&mut self, params: &DefineCollectionParams) -> (r: Result<
        DefineCollectionResult,
        FilesystemError,
    >)
        ensures
            final(self).catalog() == old(self).catalog(),
            final(self).objects() == old(self).objects(),
            final(self).unfailing() == old(self).unfailing(),
            r is Ok ==> final(self).collections() == upsert(
                old(self).collections(),
                params.selector_set@,
            ),
            r is Err ==> final(self).collections() == old(self).collections(),
            old(self).unfailing() ==> r is Ok,
    ;

    /// Removes the collections of the given names; a name that is not
    /// registered is passed over.
    fn remove_collection(&mut self, params: &RemoveCollectionParams) -> (r: Result<
        RemoveCollectionResult,
        FilesystemError,
    >)
        ensures
            final(self).catalog() == old(self).catalog(),
            final(self).objects() == old(self).objects(),
            final(self).unfailing() == old(self).unfailing(),
            r is Ok ==> final(self).collections() == remove_all(
                old(self).collections(),
                texts(params.name@),
            ),
            r is Err ==> final(self).collections() == old(self).collections(),
            old(self).unfailing() ==> r is Ok,
    ;
}

/// A file system over a registry of selector sets, a store that keeps the
/// tag catalog, and a store that keeps the objects.
#[derive(Debug, Clone)]
pub struct SimpleFileSystem<S: SelectorSetStorage, C: SelectorStorage, K: KVFileStorage> {
    pub selector_set_storage: S,
    pub selector_storage: C,
    pub kv_file: K,
}

impl<S: SelectorSetStorage, C: SelectorStorage, K: KVFileStorage> SimpleFileSystem<S, C, K> {
    /// Whether the stores that navigation reads never fail.
    pub open spec fn dependable(&self) -> bool {
        self.selector_set_storage.never_fails() && self.kv_file.never_fails()
    }

    /// What the tokens of a path resolve to on the present stores.
    pub open spec fn resolves(&self, tokens: Seq<Seq<char>>, now: SystemTime) -> Result<
        Seq<EntryView>,
        FilesystemError,
    > {
        resolution(self.selector_set_storage.registry(), self.kv_file.store(), tokens, now)
    }

    /// A file system over the given stores.
    pub fn new(selector_set_storage: S, selector_storage: C, kv_file: K) -> (r: Self)
        ensures
            r.selector_set_storage == selector_set_storage,
            r.selector_storage == selector_storage,
            r.kv_file == kv_file,
    {
        SimpleFileSystem { selector_set_storage, selector_storage, kv_file }
    }

    /// The tokens of a percent-encoded path.
    pub fn split_path(path: &[u8]) -> (r: Result<Vec<String>, Utf8Error>)
        ensures
            match r {
                Ok(tokens) => valid_utf8(percent_decoded(path@)) && texts(tokens@)
                    == split_tokens(decode_utf8(percent_decoded(path@))),
                Err(_) => !valid_utf8(percent_decoded(path@)),
            },
    {
        crate::path::split_path(path)
    }

    /// Resolves the tokens of a path and renders the listing, with `now` as
    /// the time of the entries that have none of their own.
    pub fn read_dir_stream_at(&self, paths: &Vec<String>, now: SystemTime) -> (r: Result<
        Vec<DirEntry>,
        FilesystemError,
    >)
        ensures
            answers(r, self.resolves(texts(paths@), now), self.dependable()),
    {
        if paths.len() == 0 {
            return self.read_root_dir_stream(now);
        }
        let mut selector_set = match self.selector_set_storage.get_selector_set_by_name(&paths[0])
        {
            Ok(v) => v,
            Err(_e) => {
                return Err(FilesystemError::NotFound);
            },
        };
        let next = match bind_tokens(&mut selector_set, paths, 1) {
            Ok(next) => next,
            Err(e) => {
                return Err(e);
            },
        };
        if !selector_set.is_full() {
            return self.read_selecting_dir_stream(selector_set, now);
        }
        if next >= paths.len() {
            return self.read_matching_dir_stream(selector_set, now);
        }
        self.read_file_meta_stream(selector_set, &paths[next], now)
    }

    /// Resolves the tokens of a path and renders the listing; entries that
    /// have no time of their own get the time of the call.
    pub fn read_dir_stream(&self, paths: &Vec<String>) -> (r: Result<
        Vec<DirEntry>,
        FilesystemError,
    >)
        ensures
            exists|time: SystemTime|
                answers(r, #[trigger] self.resolves(texts(paths@), time), self.dependable()),
    {
        let time = now();
        self.read_dir_stream_at(paths, time)
    }

    /// The listing of the root: a directory for each registered set.
    pub fn read_root_dir_stream(&self, now: SystemTime) -> (r: Result<
        Vec<DirEntry>,
        FilesystemError,
    >)
        ensures
            answers(
                r,
                Ok(set_entries(self.selector_set_storage.registry(), now)),
                self.selector_set_storage.never_fails(),
            ),
    {
        let selector_sets = self.selector_set_storage.list_selector_set(
            &ListSelectorSetParams { names: Vec::new() },
        );
        render_sets(selector_sets, now)
    }

    /// The listing of a set with an open slot: a directory for each value
    /// that the catalog lists for the slot's key. `NotFound` for a full set.
    pub fn read_selecting_dir_stream(&self, selector_set: SelectorSet, now: SystemTime) -> (r:
        Result<Vec<DirEntry>, FilesystemError>)
        ensures
            answers(
                r,
                if selector_set@.is_full() {
                    Err(FilesystemError::NotFound)
                } else {
                    choices(self.kv_file.store(), selector_set@, now)
                },
                self.kv_file.never_fails(),
            ),
    {
        let key = match selector_set.get_next_required_selector() {
            Some(v) => v.get_key(),
            None => {
                return Err(FilesystemError::NotFound);
            },
        };
        let mut keys: Vec<String> = Vec::new();
        keys.push(key);
        proof {
            assert(texts(keys@) =~= seq![keys@[0]@]);
            self.kv_file.store().lemma_select_one(keys@[0]@);
        }
        let listing = self.kv_file.list_selector(&ListSelectorParams { key: keys });
        proof {
            if listing is Ok {
                let found = listing->Ok_0.selectors@;
                assert(selectors_view(found).len() == found.len());
                assert(selectors_view(found)[0] == found[0]@);
            }
        }
        render_values(first_selector(listing), now)
    }

    /// The listing of a full set: a directory for each object that satisfies
    /// the set's static and dynamic selectors.
    pub fn read_matching_dir_stream(&self, selector_set: SelectorSet, now: SystemTime) -> (r:
        Result<Vec<DirEntry>, FilesystemError>)
        ensures
            answers(r, matched(self.kv_file.store(), selector_set@, now), self.kv_file.never_fails()),
    {
        let mut selectors = clone_selectors(&selector_set.static_selectors);
        let mut dynamic = selector_set.dynamic_selectors;
        selectors.append(&mut dynamic);
        assert(selectors_view(selectors@) =~= selector_set@.all_selectors());
        let params = ListFileParams { selectors, ids: Vec::new() };
        let files = self.kv_file.list_file(&params);
        render_objects(files, now)
    }

    /// The listing of the first object of the given title: a file for each
    /// of its labels but the base metadata.
    pub fn read_file_meta_stream(&self, selector_set: SelectorSet, title: &String, now: SystemTime)
        -> (r: Result<Vec<DirEntry>, FilesystemError>)
        ensures
            answers(r, details(self.kv_file.store(), title@, now), self.kv_file.never_fails()),
    {
        let mut titles: Vec<String> = Vec::new();
        titles.push(title.clone());
        let mut selectors: Vec<Selector> = Vec::new();
        selectors.push(Selector::new(title_key(), titles));
        proof {
            assert(texts(titles@) =~= seq![title@]);
            lemma_with_values_one(title@);
            assert(selectors_view(selectors@) =~= seq![title_selector(title@)]);
        }
        let params = ListFileParams { selectors, ids: Vec::new() };
        let files = self.kv_file.list_file(&params);
        render_labels(files, now)
    }

    /// Resolves a percent-encoded path and renders the listing.
    /// `InvalidPath` when the path does not decode to UTF-8.
    pub fn read_dir(&self, path: &[u8]) -> (r: Result<Vec<DirEntry>, FilesystemError>)
        ensures
            exists|time: SystemTime|
                answers(
                    r,
                    #[trigger] path_resolution(
                        self.selector_set_storage.registry(),
                        self.kv_file.store(),
                        path@,
                        time,
                    ),
                    self.dependable(),
                ),
            !valid_utf8(percent_decoded(path@)) ==> r == Err::<Vec<DirEntry>, FilesystemError>(
                FilesystemError::InvalidPath,
            ),
    {
        let time = now();
        self.read_dir_at(path, time)
    }

    /// Resolves a percent-encoded path and renders the listing, with `now`
    /// as the time of the entries that have none of their own.
    pub fn read_dir_at(&self, path: &[u8], now: SystemTime) -> (r: Result<
        Vec<DirEntry>,
        FilesystemError,
    >)
        ensures
            answers(
                r,
                path_resolution(
                    self.selector_set_storage.registry(),
                    self.kv_file.store(),
                    path@,
                    now,
                ),
                self.dependable(),
            ),
            !valid_utf8(percent_decoded(path@)) ==> r == Err::<Vec<DirEntry>, FilesystemError>(
                FilesystemError::InvalidPath,
            ),
    {
        match Self::split_path(path) {
            Ok(paths) => self.read_dir_stream_at(&paths, now),
            Err(_) => Err(FilesystemError::InvalidPath),
        }
    }

    /// The entry of the root directory, stamped with the time of the call.
    pub fn metadata(&self) -> (r: StaticDir)
        ensures
            r@.name == "root"@,
            r@.is_dir,
    {
        StaticDir::new(&"root".to_owned(), now())
    }
}

impl<S: SelectorSetStorage, C: SelectorStorage, K: KVFileStorage> CollectionFS for SimpleFileSystem<
    S,
    C,
    K,
> {
    open spec fn shelf(&self) -> RegistryView {
        RegistryView { sets: self.selector_set_storage.registry() }
    }

    open spec fn catalog(&self) -> StoreView {
        self.selector_storage.store()
    }

    open spec fn objects(&self) -> StoreView {
        self.kv_file.store()
    }

    open spec fn unfailing(&self) -> bool {
        &&& self.selector_set_storage.never_fails()
        &&& self.selector_storage.never_fails()
        &&& self.kv_file.never_fails()
    }

    fn define_collection(&mut self, params: &DefineCollectionParams) -> (r: Result<
        DefineCollectionResult,
        FilesystemError,
    >) {
        let mut selector_sets: Vec<SelectorSet> = Vec::new();
        selector_sets.push(params.selector_set.clone());
        proof {
            let given = sets_view(selector_sets@);
            assert(crate::selector_set::define_all(
                self.selector_set_storage.registry(),
                given.drop_last(),
            ) == self.selector_set_storage.registry());
        }
        match self.selector_set_storage.define_selector_set(
            &DefineSelectorSetParams { selector_sets },
        ) {
            Ok(_) => Ok(DefineCollectionResult {  }),
            Err(e) => Err(FilesystemError::from(e)),
        }
    }

    fn remove_collection(&mut self, params: &RemoveCollectionParams) -> (r: Result<
        RemoveCollectionResult,
        FilesystemError,
    >) {
        match self.selector_set_storage.remove_selector_set(
            &RemoveSelectorSetParams { names: clone_strings(&params.name) },
        ) {
            Ok(_) => Ok(RemoveCollectionResult {  }),
            Err(e) => Err(FilesystemError::from(e)),
        }
    }

    fn add_file(&mut self, params: &AddFileParams) -> (r: Result<AddFileResult, FilesystemError>) {
        let mut label: Vec<KV> = Vec::new();
        let mut i: usize = 0;
        while i < params.kvs.len()
            invariant
                i <= params.kvs.len(),
                label@.len() == i,
                forall|j: int| 0 <= j < i ==> label@[j]@ == params.kvs@[j]@,
            decreases params.kvs.len() - i,
        {
            label.push(params.kvs[i].clone());
            i += 1;
        }
        assert(kvs_view(label@) =~= kvs_view(params.kvs@));
        match self.kv_file.add_file(&crate::kvfile::AddFileParams { label }) {
            Ok(_) => Ok(AddFileResult {  }),
            Err(e) => Err(FilesystemError::from(e)),
        }
    }

    fn define_selector(&mut self, params: &DefineSelectorParams) -> (r: Result<
        DefineSelectorResult,
        FilesystemError,
    >) {
        match self.selector_storage.define_selector(params) {
            Ok(_) => Ok(DefineSelectorResult {  }),
            Err(e) => Err(FilesystemError::from(e)),
        }
    }
}

} // verus!
