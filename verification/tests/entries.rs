use std::time::Duration;
use std::time::SystemTime;

use soapdav::entry::DirEntry;
use soapdav::entry::SeekPosition;
use soapdav::entry::StaticDir;
use soapdav::entry::StaticFile;
use soapdav::entry::title_key;
use soapdav::entry::DIR_LEN;
use soapdav::kvfile::KVFile;
use soapdav::labels::KV;
use soapdav::selector_set::SelectorSet;

fn at() -> SystemTime {
    SystemTime::UNIX_EPOCH + Duration::from_secs(42)
}

fn file(body: &[u8]) -> StaticFile {
    StaticFile::new(String::from("f"), at(), body.to_vec())
}

#[test]
fn a_directory_reports_its_name_time_and_fixed_length() {
    let dir = StaticDir::new(&String::from("doujin"), at());
    assert_eq!(dir.name(), "doujin");
    assert_eq!(dir.modified(), at());
    assert_eq!(dir.len(), 12);
    assert_eq!(DIR_LEN, 12);
    assert!(dir.is_dir());
    let copy = dir.clone();
    assert_eq!(copy.name(), "doujin");
    let entry = DirEntry::Dir(dir);
    assert_eq!(entry.name(), "doujin");
    assert_eq!(entry.len(), 12);
    assert!(entry.is_dir());
    assert_eq!(entry.modified(), at());
}

#[test]
fn a_directory_for_a_set_has_the_sets_name_and_time() {
    let mut set = SelectorSet::new(&String::from("manga"));
    set.modified_time = Some(at());
    let dir = StaticDir::from_selector_set(&set, SystemTime::UNIX_EPOCH);
    assert_eq!(dir.name(), "manga");
    assert_eq!(dir.modified(), at());
    set.modified_time = None;
    let dir = StaticDir::from_selector_set(&set, SystemTime::UNIX_EPOCH);
    assert_eq!(dir.modified(), SystemTime::UNIX_EPOCH);
}

#[test]
fn a_directory_for_an_object_is_named_by_its_title() {
    let titled = KVFile {
        id: 1,
        label: vec![
            KV::new(String::from("category"), String::from("A")),
            KV::new(String::from("title"), String::from("X")),
        ],
    };
    assert_eq!(StaticDir::from_file(&titled, at()).name(), "X");
    let untitled = KVFile { id: 2, label: vec![] };
    assert_eq!(StaticDir::from_file(&untitled, at()).name(), "untitiled");
    assert_eq!(title_key(), "title");
    let copy = titled.clone();
    assert_eq!(copy.id, 1);
    assert_eq!(copy.label.len(), 2);
}

#[test]
fn a_label_is_shown_as_an_empty_file_named_key_equals_value() {
    let kv = KV::new(String::from("author"), String::from("alice"));
    let shown = StaticFile::from_label(&kv, at());
    assert_eq!(shown.name(), "author=alice");
    assert_eq!(shown.len(), 0);
    assert!(!shown.is_dir());
    assert_eq!(shown.modified(), at());
    let entry = DirEntry::File(shown);
    assert_eq!(entry.name(), "author=alice");
    assert_eq!(entry.len(), 0);
    assert!(!entry.is_dir());
}

#[test]
fn reading_takes_bytes_at_the_offset_and_moves_past_them() {
    let mut f = file(b"hello world");
    assert_eq!(f.len(), 11);
    assert_eq!(f.read_bytes(5), b"hello");
    assert_eq!(f.read_bytes(1), b" ");
    assert_eq!(f.read_bytes(100), b"world");
    assert_eq!(f.read_bytes(3), b"");
    assert_eq!(f.read_bytes(usize::MAX), b"");
    assert_eq!(f.seek(SeekPosition::Current(0)), 11);
}

#[test]
fn seeking_from_the_start_the_end_and_the_present_offset() {
    let mut f = file(b"0123456789");
    assert_eq!(f.seek(SeekPosition::Start(4)), 4);
    assert_eq!(f.read_bytes(2), b"45");
    assert_eq!(f.seek(SeekPosition::Current(2)), 8);
    assert_eq!(f.seek(SeekPosition::Current(-5)), 3);
    assert_eq!(f.seek(SeekPosition::End(3)), 7);
    assert_eq!(f.read_bytes(10), b"789");
    assert_eq!(f.seek(SeekPosition::End(0)), 10);
    assert_eq!(f.seek(SeekPosition::Start(0)), 0);
    let copy = f.clone();
    assert_eq!(copy.len(), 10);
}

#[test]
fn a_seek_never_leaves_the_body() {
    let mut f = file(b"0123456789");
    assert_eq!(f.seek(SeekPosition::Start(11)), 10);
    assert_eq!(f.seek(SeekPosition::Start(u64::MAX)), 10);
    assert_eq!(f.seek(SeekPosition::End(11)), 0);
    assert_eq!(f.seek(SeekPosition::End(i64::MAX)), 0);
    assert_eq!(f.seek(SeekPosition::End(-1)), 10);
    assert_eq!(f.seek(SeekPosition::End(i64::MIN)), 10);
    assert_eq!(f.seek(SeekPosition::Start(5)), 5);
    assert_eq!(f.seek(SeekPosition::Current(6)), 10);
    assert_eq!(f.seek(SeekPosition::Current(i64::MAX)), 10);
    assert_eq!(f.seek(SeekPosition::Current(-11)), 0);
    assert_eq!(f.seek(SeekPosition::Start(5)), 5);
    assert_eq!(f.seek(SeekPosition::Current(i64::MIN)), 0);
    let mut empty = file(b"");
    assert_eq!(empty.seek(SeekPosition::Start(1)), 0);
    assert_eq!(empty.read_bytes(1), b"");
}
