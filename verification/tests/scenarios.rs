use soapdav::entry::DirEntry;
use soapdav::fs::AddFileParams;
use soapdav::fs::CollectionFS;
use soapdav::fs::DefineCollectionParams;
use soapdav::fs::FilesystemError;
use soapdav::fs::SimpleFileSystem;
use soapdav::kvfile::KVFileStorage;
use soapdav::kvfile::ListFileParams;
use soapdav::kvfile::RemoveFileParams;
use soapdav::labels::KV;
use soapdav::mem_kvfile::MemFileKVFileStorage;
use soapdav::mem_selector_set::MemSelectorSetStorage;
use soapdav::selector::Selector;
use soapdav::selector_set::SelectorSet;

type Fs = SimpleFileSystem<MemSelectorSetStorage, MemFileKVFileStorage, MemFileKVFileStorage>;

fn kvs(pairs: &[(&str, &str)]) -> Vec<KV> {
    pairs.iter().map(|(k, v)| KV::new(k.to_string(), v.to_string())).collect()
}

fn names(entries: &Vec<DirEntry>) -> Vec<String> {
    entries.iter().map(|e| e.name()).collect()
}

fn manga() -> Fs {
    let mut fs = SimpleFileSystem::new(
        MemSelectorSetStorage::new(),
        MemFileKVFileStorage::new(),
        MemFileKVFileStorage::new(),
    );
    let mut set = SelectorSet::new(&String::from("manga"));
    set.dynamic_selectors.push(Selector::new(String::from("category"), vec![]));
    fs.define_collection(&DefineCollectionParams { selector_set: set }).unwrap();
    fs.add_file(&AddFileParams { kvs: kvs(&[("title", "X"), ("category", "doujin")]) }).unwrap();
    fs.add_file(&AddFileParams { kvs: kvs(&[("title", "Y"), ("category", "original")]) }).unwrap();
    fs.add_file(&AddFileParams { kvs: kvs(&[("title", "Z"), ("category", "doujin")]) }).unwrap();
    fs
}

#[test]
fn scenario_a_set_lists_its_values_then_its_objects() {
    let fs = manga();
    let values = fs.read_dir_stream(&vec![String::from("manga")]).unwrap();
    assert_eq!(values.len(), 2);
    assert_eq!(names(&values), vec!["doujin", "original"]);
    assert!(values.iter().all(|e| e.is_dir()));
    let objects =
        fs.read_dir_stream(&vec![String::from("manga"), String::from("doujin")]).unwrap();
    assert_eq!(names(&objects), vec!["X", "Z"]);
    assert!(objects.iter().all(|e| e.is_dir()));
}

#[test]
fn scenario_b_unknown_set_is_not_found() {
    let fs = manga();
    let result = fs.read_dir_stream(&vec![String::from("unknown-set")]);
    assert!(matches!(result, Err(FilesystemError::NotFound)));
}

#[test]
fn scenario_c_add_add_remove_list() {
    let mut store = MemFileKVFileStorage::new();
    let x = store
        .add_file(&soapdav::kvfile::AddFileParams { label: kvs(&[("title", "X")]) })
        .unwrap();
    assert_eq!(x.id, 1);
    let y = store
        .add_file(&soapdav::kvfile::AddFileParams { label: kvs(&[("title", "Y")]) })
        .unwrap();
    assert_eq!(y.id, 2);
    let removed = store.remove_file(&RemoveFileParams { ids: vec![1] }).unwrap();
    assert_eq!(removed.amount, 1);
    let listed = store.list_file(&ListFileParams { ids: vec![], selectors: vec![] }).unwrap();
    assert_eq!(listed.files.len(), 1);
    assert_eq!(listed.files[0].id, 2);
    assert_eq!(listed.files[0].label.len(), 1);
    assert_eq!(listed.files[0].label[0].to_pair(), (String::from("title"), String::from("Y")));
}
