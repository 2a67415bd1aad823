use soapdav::labels::LabelMap;
use soapdav::selector::Selector;
use soapdav::selector_set::SelectorSet;

fn template(keys: &[&str]) -> SelectorSet {
    let mut set = SelectorSet::new(&String::from("t"));
    for key in keys {
        set.dynamic_selectors.push(Selector::new(key.to_string(), vec![]));
    }
    set
}

fn bound(set: &SelectorSet) -> Vec<(String, Vec<String>)> {
    set.dynamic_selectors.iter().map(|s| (s.get_key(), s.values())).collect()
}

#[test]
fn a_set_without_dynamic_selectors_is_full() {
    let set = template(&[]);
    assert!(set.is_full());
    assert!(set.get_next_required_selector().is_none());
    assert_eq!(set.get_next_required_index(), None);
}

#[test]
fn is_full_means_every_dynamic_selector_has_a_value() {
    let mut set = template(&["a", "b"]);
    assert!(!set.is_full());
    set.add_required_value(String::from("1"));
    assert!(!set.is_full());
    set.add_required_value(String::from("2"));
    assert!(set.is_full());
    assert!(set.dynamic_selectors.iter().all(|s| !s.is_missing_value()));
}

#[test]
fn values_bind_left_to_right() {
    let mut set = template(&["category", "author", "year"]);
    set.add_required_value(String::from("doujin"));
    set.add_required_value(String::from("alice"));
    assert_eq!(
        bound(&set),
        vec![
            (String::from("category"), vec![String::from("doujin")]),
            (String::from("author"), vec![String::from("alice")]),
            (String::from("year"), vec![]),
        ]
    );
    assert_eq!(set.get_next_required_index(), Some(2));
    assert_eq!(set.get_next_required_selector().unwrap().get_key(), "year");
}

#[test]
fn binding_fills_the_leftmost_open_slot_when_a_later_one_is_preset() {
    let mut set = SelectorSet::new(&String::from("t"));
    set.dynamic_selectors.push(Selector::new(String::from("a"), vec![]));
    set.dynamic_selectors.push(Selector::new(String::from("b"), vec![String::from("fixed")]));
    set.dynamic_selectors.push(Selector::new(String::from("c"), vec![]));
    set.add_required_value(String::from("x"));
    set.add_required_value(String::from("y"));
    assert_eq!(
        bound(&set),
        vec![
            (String::from("a"), vec![String::from("x")]),
            (String::from("b"), vec![String::from("fixed")]),
            (String::from("c"), vec![String::from("y")]),
        ]
    );
}

#[test]
fn binding_to_a_full_set_changes_nothing() {
    let mut set = template(&["a"]);
    set.add_required_value(String::from("1"));
    let before = bound(&set);
    set.add_required_value(String::from("2"));
    assert_eq!(bound(&set), before);
    assert!(set.is_full());
}

#[test]
fn a_clone_is_a_copy_of_its_own() {
    let mut set = template(&["a"]);
    let copy = set.clone();
    set.add_required_value(String::from("1"));
    assert!(set.is_full());
    assert!(!copy.is_full());
    assert_eq!(copy.name, "t");
}

#[test]
fn a_selector_keeps_each_value_once_in_order_of_arrival() {
    let mut s = Selector::new(
        String::from("k"),
        vec![String::from("b"), String::from("a"), String::from("b")],
    );
    assert_eq!(s.values(), vec!["b", "a"]);
    s.add_value(String::from("a"));
    s.add_value(String::from("c"));
    assert_eq!(s.values(), vec!["b", "a", "c"]);
    assert_eq!(s.value_count(), 3);
    assert!(s.has_value(&String::from("c")));
    assert!(!s.has_value(&String::from("d")));
    assert!(!s.is_missing_value());
    assert!(Selector::new(String::from("k"), vec![]).is_missing_value());
}

#[test]
fn merge_takes_the_values_of_both_under_the_first_key() {
    let a = Selector::new(String::from("k"), vec![String::from("1"), String::from("2")]);
    let b = Selector::new(String::from("other"), vec![String::from("2"), String::from("3")]);
    let m = a.merge(&b);
    assert_eq!(m.get_key(), "k");
    assert_eq!(m.values(), vec!["1", "2", "3"]);
    assert_eq!(a.values(), vec!["1", "2"]);
}

#[test]
fn a_selector_matches_labels_that_hold_its_key_with_one_of_its_values() {
    let mut labels = LabelMap::new();
    labels.insert(String::from("category"), String::from("A"));
    let hit = Selector::new(String::from("category"), vec![String::from("B"), String::from("A")]);
    let miss = Selector::new(String::from("category"), vec![String::from("B")]);
    let absent = Selector::new(String::from("author"), vec![String::from("A")]);
    let unbound = Selector::new(String::from("category"), vec![]);
    assert!(hit.is_match(&labels));
    assert!(!miss.is_match(&labels));
    assert!(!absent.is_match(&labels));
    assert!(!unbound.is_match(&labels));
    assert!(Selector::is_match_selectors(&vec![], &labels));
    assert!(Selector::is_match_selectors(&vec![hit.clone()], &labels));
    assert!(!Selector::is_match_selectors(&vec![hit, miss], &labels));
}
