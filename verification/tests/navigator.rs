use std::time::Duration;
use std::time::SystemTime;

use soapdav::catalog::DefineSelectorParams;
use soapdav::catalog::SelectorStorage;
use soapdav::entry::DirEntry;
use soapdav::fs::bind_tokens;
use soapdav::fs::render_labels;
use soapdav::fs::render_objects;
use soapdav::fs::render_sets;
use soapdav::fs::render_values;
use soapdav::fs::starts_with_marker;
use soapdav::fs::AddFileParams;
use soapdav::fs::CollectionFS;
use soapdav::fs::DefineCollectionParams;
use soapdav::fs::FilesystemError;
use soapdav::fs::RemoveCollectionParams;
use soapdav::fs::SimpleFileSystem;
use soapdav::kvfile::KVFileStorage;
use soapdav::kvfile::KVFileStorageError;
use soapdav::kvfile::ListFileParams;
use soapdav::labels::KV;
use soapdav::mem_kvfile::MemFileKVFileStorage;
use soapdav::mem_selector_set::MemSelectorSetStorage;
use soapdav::selector::Selector;
use soapdav::selector_set::ListSelectorSetParams;
use soapdav::selector_set::SelectorSet;
use soapdav::selector_set::SelectorSetStorage;
use soapdav::selector_set::SelectorSetStorageError;
use soapdav::catalog::SelectorStorageError;

type Fs = SimpleFileSystem<MemSelectorSetStorage, MemFileKVFileStorage, MemFileKVFileStorage>;

fn kvs(pairs: &[(&str, &str)]) -> Vec<KV> {
    pairs.iter().map(|(k, v)| KV::new(k.to_string(), v.to_string())).collect()
}

fn path(tokens: &[&str]) -> Vec<String> {
    tokens.iter().map(|t| t.to_string()).collect()
}

fn names(entries: &Vec<DirEntry>) -> Vec<String> {
    entries.iter().map(|e| e.name()).collect()
}

fn at() -> SystemTime {
    SystemTime::UNIX_EPOCH + Duration::from_secs(1_000)
}

fn empty_fs() -> Fs {
    SimpleFileSystem::new(
        MemSelectorSetStorage::new(),
        MemFileKVFileStorage::new(),
        MemFileKVFileStorage::new(),
    )
}

fn declare(fs: &mut Fs, key: &str, default_value: &str) {
    fs.kv_file
        .define_selector(&DefineSelectorParams {
            key: key.to_string(),
            default_value: default_value.to_string(),
            set_default_for_history: true,
        })
        .unwrap();
}

fn add(fs: &mut Fs, pairs: &[(&str, &str)]) {
    fs.add_file(&AddFileParams { kvs: kvs(pairs) }).unwrap();
}

fn manga_fs() -> Fs {
    let mut fs = empty_fs();
    let mut manga = SelectorSet::new(&String::from("manga"));
    manga.dynamic_selectors.push(Selector::new(String::from("category"), vec![]));
    fs.define_collection(&DefineCollectionParams { selector_set: manga }).unwrap();
    add(&mut fs, &[("title", "A"), ("category", "doujin"), ("author", "alice")]);
    add(&mut fs, &[("title", "B"), ("category", "webtoon")]);
    add(&mut fs, &[("title", "C"), ("category", "doujin")]);
    add(&mut fs, &[("category", "doujin")]);
    fs
}

#[test]
fn the_root_lists_the_registered_sets() {
    let mut fs = manga_fs();
    fs.define_collection(&DefineCollectionParams {
        selector_set: SelectorSet::new(&String::from("novel")),
    })
    .unwrap();
    let entries = fs.read_dir_stream(&path(&[])).unwrap();
    assert_eq!(names(&entries), vec!["manga", "novel"]);
    assert!(entries.iter().all(|e| e.is_dir()));
    assert!(entries.iter().all(|e| e.len() == 12));
    assert!(empty_fs().read_dir_stream(&path(&[])).unwrap().is_empty());
}

#[test]
fn a_set_with_an_open_slot_lists_the_values_of_its_key() {
    let fs = manga_fs();
    let entries = fs.read_dir_stream(&path(&["manga"])).unwrap();
    assert_eq!(names(&entries), vec!["doujin", "webtoon"]);
    assert!(entries.iter().all(|e| e.is_dir()));
}

#[test]
fn a_full_set_lists_its_objects_by_title() {
    let fs = manga_fs();
    let entries = fs.read_dir_stream_at(&path(&["manga", "doujin"]), at()).unwrap();
    assert_eq!(names(&entries), vec!["A", "C", "untitiled"]);
    assert!(entries.iter().all(|e| e.is_dir()));
    assert!(entries.iter().all(|e| e.modified() == at()));
    let other = fs.read_dir_stream(&path(&["manga", "webtoon"])).unwrap();
    assert_eq!(names(&other), vec!["B"]);
    let none = fs.read_dir_stream(&path(&["manga", "artbook"])).unwrap();
    assert!(none.is_empty());
}

#[test]
fn an_unknown_set_is_not_found() {
    let fs = manga_fs();
    let result = fs.read_dir_stream(&path(&["unknown-set"]));
    assert!(matches!(result, Err(FilesystemError::NotFound)));
    let result = fs.read_dir_stream(&path(&["unknown-set", "doujin"]));
    assert!(matches!(result, Err(FilesystemError::NotFound)));
}

#[test]
fn a_token_after_a_full_set_shows_the_labels_of_the_object_of_that_title() {
    let fs = manga_fs();
    let entries = fs.read_dir_stream(&path(&["manga", "doujin", "A"])).unwrap();
    assert_eq!(names(&entries), vec!["category=doujin", "author=alice"]);
    assert!(entries.iter().all(|e| !e.is_dir()));
    assert!(entries.iter().all(|e| e.len() == 0));
    let more = fs.read_dir_stream(&path(&["manga", "doujin", "A", "ignored"])).unwrap();
    assert_eq!(names(&more), vec!["category=doujin", "author=alice"]);
    let missing = fs.read_dir_stream(&path(&["manga", "doujin", "Z"]));
    assert!(matches!(missing, Err(FilesystemError::NotFound)));
}

#[test]
fn the_title_lookup_does_not_go_by_the_set() {
    let fs = manga_fs();
    let entries = fs.read_dir_stream(&path(&["manga", "webtoon", "A"])).unwrap();
    assert_eq!(names(&entries), vec!["category=doujin", "author=alice"]);
}

#[test]
fn a_marked_token_where_a_value_is_due_is_an_invalid_path() {
    let fs = manga_fs();
    let result = fs.read_dir_stream(&path(&["manga", ".hidden"]));
    assert!(matches!(result, Err(FilesystemError::InvalidPath)));
    let result = fs.read_dir_stream(&path(&["manga", ".hidden", "A"]));
    assert!(matches!(result, Err(FilesystemError::InvalidPath)));
    let deep = fs.read_dir_stream(&path(&["manga", "doujin", ".A"]));
    assert!(matches!(deep, Err(FilesystemError::NotFound)));
}

#[test]
fn a_slot_whose_key_was_never_declared_lists_the_values_observed() {
    let mut fs = manga_fs();
    let mut by_author = SelectorSet::new(&String::from("by-author"));
    by_author.dynamic_selectors.push(Selector::new(String::from("author"), vec![]));
    fs.define_collection(&DefineCollectionParams { selector_set: by_author }).unwrap();
    let values = fs.read_dir_stream(&path(&["by-author"])).unwrap();
    assert_eq!(names(&values), vec!["alice"]);
    let bound = fs.read_dir_stream(&path(&["by-author", "alice"])).unwrap();
    assert_eq!(names(&bound), vec!["A"]);
    let mut by_year = SelectorSet::new(&String::from("by-year"));
    by_year.dynamic_selectors.push(Selector::new(String::from("year"), vec![]));
    fs.define_collection(&DefineCollectionParams { selector_set: by_year }).unwrap();
    assert!(fs.read_dir_stream(&path(&["by-year"])).unwrap().is_empty());
}

#[test]
fn static_selectors_filter_without_taking_a_token() {
    let mut fs = manga_fs();
    let mut doujin = SelectorSet::new(&String::from("doujin-by-author"));
    doujin
        .static_selectors
        .push(Selector::new(String::from("category"), vec![String::from("doujin")]));
    doujin.dynamic_selectors.push(Selector::new(String::from("author"), vec![]));
    fs.define_collection(&DefineCollectionParams { selector_set: doujin }).unwrap();
    declare(&mut fs, "author", "unknown");
    add(&mut fs, &[("title", "D"), ("category", "webtoon"), ("author", "alice")]);
    add(&mut fs, &[("title", "E"), ("category", "doujin"), ("author", "alice")]);
    let values = fs.read_dir_stream(&path(&["doujin-by-author"])).unwrap();
    assert_eq!(names(&values), vec!["unknown", "alice"]);
    let matched = fs.read_dir_stream(&path(&["doujin-by-author", "alice"])).unwrap();
    assert_eq!(names(&matched), vec!["E"]);
    let defaulted = fs.read_dir_stream(&path(&["doujin-by-author", "unknown"])).unwrap();
    assert_eq!(names(&defaulted), vec!["A", "C", "untitiled"]);
}

#[test]
fn a_set_without_dynamic_selectors_lists_its_objects_at_once() {
    let mut fs = manga_fs();
    let mut webtoons = SelectorSet::new(&String::from("webtoons"));
    webtoons
        .static_selectors
        .push(Selector::new(String::from("category"), vec![String::from("webtoon")]));
    fs.define_collection(&DefineCollectionParams { selector_set: webtoons }).unwrap();
    fs.define_collection(&DefineCollectionParams {
        selector_set: SelectorSet::new(&String::from("everything")),
    })
    .unwrap();
    assert_eq!(names(&fs.read_dir_stream(&path(&["webtoons"])).unwrap()), vec!["B"]);
    assert_eq!(
        names(&fs.read_dir_stream(&path(&["everything"])).unwrap()),
        vec!["A", "B", "C", "untitiled"]
    );
    assert_eq!(
        names(&fs.read_dir_stream(&path(&["everything", "B"])).unwrap()),
        vec!["category=webtoon"]
    );
}

#[test]
fn resolution_leaves_the_stores_as_they_were() {
    let fs = manga_fs();
    fs.read_dir_stream(&path(&["manga", "doujin"])).unwrap();
    let _ = fs.read_dir_stream(&path(&["manga", ".x"]));
    let stored = fs.selector_set_storage.get_selector_set_by_name(&String::from("manga")).unwrap();
    assert!(!stored.is_full());
    assert_eq!(fs.kv_file.len(), 4);
    assert_eq!(names(&fs.read_dir_stream(&path(&["manga"])).unwrap()), vec!["doujin", "webtoon"]);
}

#[test]
fn an_encoded_path_is_decoded_cut_and_resolved() {
    let fs = manga_fs();
    assert_eq!(names(&fs.read_dir(b"/").unwrap()), vec!["manga"]);
    assert_eq!(names(&fs.read_dir(b"/manga/").unwrap()), vec!["doujin", "webtoon"]);
    assert_eq!(names(&fs.read_dir(b"/manga/%64oujin").unwrap()), vec!["A", "C", "untitiled"]);
    assert_eq!(names(&fs.read_dir_at(b"/manga/webtoon", at()).unwrap()), vec!["B"]);
    assert!(matches!(fs.read_dir(b"/manga/%ff"), Err(FilesystemError::InvalidPath)));
    assert!(matches!(fs.read_dir(b"/nothing"), Err(FilesystemError::NotFound)));
    assert_eq!(Fs::split_path(b"/a%20b/c").unwrap(), vec!["a b", "c"]);
}

#[test]
fn the_root_entry() {
    let fs = empty_fs();
    let root = fs.metadata();
    assert_eq!(root.name(), "root");
    assert!(root.is_dir());
    assert_eq!(root.len(), 12);
}

#[test]
fn collections_are_defined_replaced_and_removed() {
    let mut fs = manga_fs();
    let replaced = SelectorSet::new(&String::from("manga"));
    fs.define_collection(&DefineCollectionParams { selector_set: replaced }).unwrap();
    assert_eq!(
        names(&fs.read_dir_stream(&path(&["manga"])).unwrap()),
        vec!["A", "B", "C", "untitiled"]
    );
    fs.remove_collection(&RemoveCollectionParams {
        name: vec![String::from("manga"), String::from("never")],
    })
    .unwrap();
    assert!(fs.read_dir_stream(&path(&[])).unwrap().is_empty());
    assert!(matches!(fs.read_dir_stream(&path(&["manga"])), Err(FilesystemError::NotFound)));
}

#[test]
fn define_selector_goes_to_the_catalog_store() {
    let mut fs = empty_fs();
    fs.define_selector(&DefineSelectorParams {
        key: String::from("category"),
        default_value: String::from("none"),
        set_default_for_history: false,
    })
    .unwrap();
    assert!(fs.selector_storage.get_selector_by_key(String::from("category")).is_ok());
    assert!(fs.kv_file.get_selector_by_key(String::from("category")).is_err());
}

#[test]
fn tokens_are_bound_until_the_set_is_full() {
    let mut set = SelectorSet::new(&String::from("t"));
    set.dynamic_selectors.push(Selector::new(String::from("a"), vec![]));
    set.dynamic_selectors.push(Selector::new(String::from("b"), vec![]));
    let tokens = path(&["t", "1", "2", "3"]);
    let mut bound = set.clone();
    assert_eq!(bind_tokens(&mut bound, &tokens, 1).unwrap(), 3);
    assert!(bound.is_full());
    assert_eq!(bound.dynamic_selectors[0].values(), vec!["1"]);
    assert_eq!(bound.dynamic_selectors[1].values(), vec!["2"]);
    let mut short = set.clone();
    assert_eq!(bind_tokens(&mut short, &path(&["t", "1"]), 1).unwrap(), 2);
    assert!(!short.is_full());
    let mut none = set.clone();
    assert_eq!(bind_tokens(&mut none, &path(&["t"]), 1).unwrap(), 1);
    let mut marked = set.clone();
    let result = bind_tokens(&mut marked, &path(&["t", "1", ".2"]), 1);
    assert!(matches!(result, Err(FilesystemError::InvalidPath)));
    let mut full_first = set.clone();
    assert_eq!(bind_tokens(&mut full_first, &path(&["1", "2", ".3"]), 0).unwrap(), 2);
}

#[test]
fn the_marker_is_a_leading_dot() {
    assert!(starts_with_marker(&String::from(".title")));
    assert!(starts_with_marker(&String::from(".")));
    assert!(!starts_with_marker(&String::from("")));
    assert!(!starts_with_marker(&String::from("a.b")));
    assert!(!starts_with_marker(&String::from("。")));
}

#[test]
fn a_failed_store_is_rendered_as_an_error() {
    let sets = render_sets(Err(SelectorSetStorageError::NotFound), at());
    assert!(matches!(sets, Err(FilesystemError::StorageUnavailable)));
    let values = render_values(Err(SelectorStorageError::NotFound), at());
    assert!(matches!(values, Err(FilesystemError::NotFound)));
    let objects = render_objects(Err(KVFileStorageError::NotFound), at());
    assert!(matches!(objects, Err(FilesystemError::NotFound)));
    let labels = render_labels(Err(KVFileStorageError::NotFound), at());
    assert!(matches!(labels, Err(FilesystemError::NotFound)));
}

#[test]
fn what_the_stores_answer_is_rendered_in_their_order() {
    let fs = manga_fs();
    let sets = fs.selector_set_storage.list_selector_set(&ListSelectorSetParams { names: vec![] });
    assert_eq!(names(&render_sets(sets, at()).unwrap()), vec!["manga"]);
    let selector = Selector::new(String::from("k"), vec![String::from("y"), String::from("x")]);
    assert_eq!(names(&render_values(Ok(selector), at()).unwrap()), vec!["y", "x"]);
    let files = fs.kv_file.list_file(&ListFileParams { ids: vec![2, 1], selectors: vec![] });
    assert_eq!(names(&render_objects(files, at()).unwrap()), vec!["A", "B"]);
    let files = fs.kv_file.list_file(&ListFileParams { ids: vec![2, 1], selectors: vec![] });
    assert_eq!(
        names(&render_labels(files, at()).unwrap()),
        vec!["category=doujin", "author=alice"]
    );
    let nothing = fs.kv_file.list_file(&ListFileParams { ids: vec![99], selectors: vec![] });
    assert!(matches!(render_labels(nothing, at()), Err(FilesystemError::NotFound)));
}

#[test]
fn a_set_carries_its_own_time_into_the_root_listing() {
    let mut fs = empty_fs();
    let mut stamped = SelectorSet::new(&String::from("stamped"));
    stamped.modified_time = Some(at());
    let mut bare = SelectorSet::new(&String::from("bare"));
    bare.modified_time = None;
    fs.define_collection(&DefineCollectionParams { selector_set: stamped }).unwrap();
    fs.define_collection(&DefineCollectionParams { selector_set: bare }).unwrap();
    let later = at() + Duration::from_secs(5);
    let entries = fs.read_dir_stream_at(&path(&[]), later).unwrap();
    assert_eq!(entries[0].modified(), at());
    assert_eq!(entries[1].modified(), later);
}

#[test]
fn the_errors_in_words() {
    assert_eq!(FilesystemError::NotFound.message(), "NotFound");
    assert_eq!(FilesystemError::InvalidPath.message(), "InvalidPath");
    assert_eq!(FilesystemError::Conflict.message(), "Conflict");
    assert_eq!(FilesystemError::StorageUnavailable.message(), "StorageUnavailable");
    assert_eq!(FilesystemError::from(KVFileStorageError::NotFound), FilesystemError::NotFound);
    assert_eq!(FilesystemError::from(SelectorStorageError::NotFound), FilesystemError::NotFound);
    assert_eq!(
        FilesystemError::from(SelectorSetStorageError::NotFound),
        FilesystemError::NotFound
    );
}
