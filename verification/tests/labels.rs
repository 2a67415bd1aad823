use soapdav::labels::LabelMap;
use soapdav::labels::KV;

fn kvs(pairs: &[(&str, &str)]) -> Vec<KV> {
    pairs.iter().map(|(k, v)| KV::new(k.to_string(), v.to_string())).collect()
}

fn pairs_of(list: &Vec<KV>) -> Vec<(String, String)> {
    list.iter().map(|kv| kv.to_pair()).collect()
}

fn owned(pairs: &[(&str, &str)]) -> Vec<(String, String)> {
    pairs.iter().map(|(k, v)| (k.to_string(), v.to_string())).collect()
}

#[test]
fn find_value_returns_the_first_value_under_the_key() {
    let list = kvs(&[("a", "1"), ("b", "2"), ("a", "3")]);
    assert_eq!(KV::find_value(&list, &String::from("a")), Some(String::from("1")));
    assert_eq!(KV::find_value(&list, &String::from("b")), Some(String::from("2")));
    assert_eq!(KV::find_value(&list, &String::from("c")), None);
    assert_eq!(KV::find_value(&vec![], &String::from("a")), None);
    assert_eq!(
        KV::find_value_default(&list, &String::from("c"), String::from("none")),
        "none"
    );
    assert_eq!(KV::find_value_default(&list, &String::from("b"), String::from("none")), "2");
}

#[test]
fn a_label_and_its_pair() {
    let kv = KV::new(String::from("k"), String::from("v"));
    assert_eq!(kv.key, "k");
    assert_eq!(kv.value, "v");
    assert_eq!(kv.to_pair(), (String::from("k"), String::from("v")));
    let again = KV::from_pair((&String::from("a"), &String::from("b")));
    assert_eq!(again.to_pair(), (String::from("a"), String::from("b")));
    assert_eq!(kv.clone().to_pair(), kv.to_pair());
}

#[test]
fn a_map_from_a_list_keeps_the_last_value_of_a_key_at_its_first_place() {
    let map = KV::to_hash_map(&kvs(&[("a", "1"), ("b", "2"), ("a", "3")]));
    assert_eq!(map.len(), 2);
    assert_eq!(map.get(&String::from("a")), Some(String::from("3")));
    assert_eq!(pairs_of(&KV::from_hash_map(map)), owned(&[("a", "3"), ("b", "2")]));
}

#[test]
fn a_label_map_inserts_overwrites_and_removes() {
    let mut map = LabelMap::new();
    assert!(map.is_empty());
    assert_eq!(map.len(), 0);
    map.insert(String::from("a"), String::from("1"));
    map.insert(String::from("b"), String::from("2"));
    map.insert(String::from("a"), String::from("9"));
    assert_eq!(map.len(), 2);
    assert!(map.contains_key(&String::from("a")));
    assert!(!map.contains_key(&String::from("c")));
    assert_eq!(map.get(&String::from("a")), Some(String::from("9")));
    assert_eq!(map.get(&String::from("c")), None);
    assert_eq!(pairs_of(&map.to_kvs()), owned(&[("a", "9"), ("b", "2")]));
    let copy = map.clone();
    map.remove(&String::from("a"));
    map.remove(&String::from("zzz"));
    assert_eq!(pairs_of(&map.to_kvs()), owned(&[("b", "2")]));
    assert_eq!(pairs_of(&copy.to_kvs()), owned(&[("a", "9"), ("b", "2")]));
}

#[test]
fn merging_puts_the_other_labels_over_the_map() {
    let mut map = LabelMap::from_kvs(&kvs(&[("title", "X"), ("lang", "en")]));
    let other = LabelMap::from_kvs(&kvs(&[("lang", "jp"), ("r", "1")]));
    map.merge(&other);
    assert_eq!(pairs_of(&map.to_kvs()), owned(&[("title", "X"), ("lang", "jp"), ("r", "1")]));
    map.insert_all(&kvs(&[("r", "2"), ("r", "3")]));
    assert_eq!(map.get(&String::from("r")), Some(String::from("3")));
    assert_eq!(map.len(), 3);
}
