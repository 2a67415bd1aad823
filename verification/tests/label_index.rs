use soapdav::label_selector::Item;
use soapdav::label_selector::MemSelector;
use soapdav::label_selector::Selector;
use soapdav::label_selector::SelectorError;
use soapdav::labels::LabelMap;
use soapdav::labels::KV;

fn label_map(pairs: &[(&str, &str)]) -> LabelMap {
    let kvs: Vec<KV> = pairs.iter().map(|(k, v)| KV::new(k.to_string(), v.to_string())).collect();
    LabelMap::from_kvs(&kvs)
}

fn pairs_of(map: &LabelMap) -> Vec<(String, String)> {
    map.to_kvs().iter().map(|kv| kv.to_pair()).collect()
}

fn owned(pairs: &[(&str, &str)]) -> Vec<(String, String)> {
    pairs.iter().map(|(k, v)| (k.to_string(), v.to_string())).collect()
}

fn by(key: &str, values: &[&str]) -> soapdav::selector::Selector {
    soapdav::selector::Selector::new(
        key.to_string(),
        values.iter().map(|v| v.to_string()).collect(),
    )
}

#[test]
fn labels_are_put_on_an_item_and_read_back() {
    let mut index = MemSelector::new();
    let all = index.add_label(7, &label_map(&[("author", "bob"), ("rate", "1")])).unwrap();
    assert_eq!(pairs_of(&all), owned(&[("author", "bob"), ("rate", "1")]));
    let all = index.add_label(7, &label_map(&[("rate", "2"), ("lang", "en")])).unwrap();
    assert_eq!(pairs_of(&all), owned(&[("author", "bob"), ("rate", "2"), ("lang", "en")]));
    let read = index.get_label(7).unwrap();
    assert_eq!(pairs_of(&read), owned(&[("author", "bob"), ("rate", "2"), ("lang", "en")]));
}

#[test]
fn an_item_without_labels_is_not_found() {
    let mut index = MemSelector::new();
    match index.get_label(3) {
        Err(SelectorError::NotFound(id)) => assert_eq!(id, 3),
        other => panic!("unexpected: {:?}", other),
    }
    assert_eq!(SelectorError::NotFound(3).id(), 3);
    assert_eq!(SelectorError::NotFound(3).message(), "NotFound(3):");
    assert_eq!(SelectorError::NotFound(0).message(), "NotFound(0):");
    assert_eq!(
        SelectorError::NotFound(u64::MAX).message(),
        "NotFound(18446744073709551615):"
    );
    index.add_label(3, &label_map(&[])).unwrap();
    assert!(index.get_label(3).unwrap().is_empty());
}

#[test]
fn labels_are_taken_from_an_item_by_key() {
    let mut index = MemSelector::new();
    index.add_label(1, &label_map(&[("a", "1"), ("b", "2"), ("c", "3")])).unwrap();
    index.remove_label(1, &vec![String::from("b"), String::from("zzz"), String::from("a")]).unwrap();
    assert_eq!(pairs_of(&index.get_label(1).unwrap()), owned(&[("c", "3")]));
    index.remove_label(9, &vec![String::from("c")]).unwrap();
    assert!(index.get_label(9).is_err());
    assert_eq!(pairs_of(&index.get_label(1).unwrap()), owned(&[("c", "3")]));
}

#[test]
fn items_are_found_by_the_labels_they_carry() {
    let mut index = MemSelector::new();
    index.add_label(5, &label_map(&[("author", "bob"), ("rate", "1")])).unwrap();
    index.add_label(2, &label_map(&[("author", "alice"), ("rate", "1")])).unwrap();
    index.add_label(9, &label_map(&[("author", "bob")])).unwrap();
    assert_eq!(index.get_id_by_label(&vec![]).unwrap(), vec![5, 2, 9]);
    assert_eq!(index.get_id_by_label(&vec![by("author", &["bob"])]).unwrap(), vec![5, 9]);
    assert_eq!(
        index.get_id_by_label(&vec![by("author", &["bob", "alice"]), by("rate", &["1"])]).unwrap(),
        vec![5, 2]
    );
    assert!(index.get_id_by_label(&vec![by("rate", &["2"])]).unwrap().is_empty());
    assert!(index.get_id_by_label(&vec![by("author", &[])]).unwrap().is_empty());
}

#[test]
fn a_new_item_matches_nothing() {
    let item = Item::new();
    assert!(!item.is_match(&String::from("a"), &vec![String::from("1")]));
    assert!(!item.is_match(&String::from("a"), &vec![]));
}
