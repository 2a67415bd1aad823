use soapdav::mem_selector_set::MemSelectorSetStorage;
use soapdav::selector::Selector;
use soapdav::selector_set::DefineSelectorSetParams;
use soapdav::selector_set::ListSelectorSetParams;
use soapdav::selector_set::RemoveSelectorSetParams;
use soapdav::selector_set::SelectorSet;
use soapdav::selector_set::SelectorSetStorage;
use soapdav::selector_set::SelectorSetStorageError;

fn names_of(sets: &Vec<SelectorSet>) -> Vec<String> {
    sets.iter().map(|s| s.name.clone()).collect()
}

#[test]
fn test_mem_selector_set() {
    let mut storage = MemSelectorSetStorage::new();
    // define selector
    {
        let mut selector_sets = vec![];
        selector_sets.push(SelectorSet::new(&String::from("first")));
        selector_sets.push(SelectorSet::new(&String::from("second")));
        selector_sets.push(SelectorSet::new(&String::from("third")));
        let params = DefineSelectorSetParams {
            selector_sets: selector_sets,
        };
        assert!(storage.define_selector_set(&params).is_ok());
    }
    // list selector
    {
        let params = ListSelectorSetParams {
            names: vec![String::from("first"), String::from("second"), String::from("third")],
        };
        let result = storage.list_selector_set(&params);
        assert!(result.is_ok());
        assert_eq!(result.unwrap().selector_set.len(), 3);
    }
    // remove selector
    {
        let params = RemoveSelectorSetParams {
            names: vec![String::from("first"), String::from("second")],
        };
        let result = storage.remove_selector_set(&params);
        assert!(result.is_ok());
    }
    // list selector
    {
        let params = ListSelectorSetParams {
            names: vec![String::from("first"), String::from("second"), String::from("third")],
        };
        let result = storage.list_selector_set(&params);
        assert!(result.is_ok());
        assert_eq!(result.unwrap().selector_set.len(), 1);
    }
}

#[test]
fn define_replaces_a_set_of_the_same_name_in_place() {
    let mut storage = MemSelectorSetStorage::new();
    let first = SelectorSet::new(&String::from("first"));
    let second = SelectorSet::new(&String::from("second"));
    storage
        .define_selector_set(&DefineSelectorSetParams { selector_sets: vec![first, second] })
        .unwrap();
    let mut again = SelectorSet::new(&String::from("first"));
    again.dynamic_selectors.push(Selector::new(String::from("category"), vec![]));
    storage
        .define_selector_set(&DefineSelectorSetParams { selector_sets: vec![again] })
        .unwrap();
    let all = storage.list_selector_set(&ListSelectorSetParams { names: vec![] }).unwrap();
    assert_eq!(names_of(&all.selector_set), vec!["first", "second"]);
    assert_eq!(all.selector_set[0].dynamic_selectors.len(), 1);
    assert_eq!(all.selector_set[1].dynamic_selectors.len(), 0);
    assert_eq!(storage.len(), 2);
}

#[test]
fn define_is_idempotent() {
    let mut storage = MemSelectorSetStorage::new();
    let set = SelectorSet::new(&String::from("manga"));
    let params = DefineSelectorSetParams { selector_sets: vec![set] };
    storage.define_selector_set(&params).unwrap();
    storage.define_selector_set(&params).unwrap();
    assert_eq!(storage.len(), 1);
}

#[test]
fn list_without_names_returns_every_set_in_order() {
    let mut storage = MemSelectorSetStorage::new();
    let sets = vec![
        SelectorSet::new(&String::from("b")),
        SelectorSet::new(&String::from("a")),
        SelectorSet::new(&String::from("c")),
    ];
    storage.define_selector_set(&DefineSelectorSetParams { selector_sets: sets }).unwrap();
    let all = storage.list_selector_set(&ListSelectorSetParams { names: vec![] }).unwrap();
    assert_eq!(names_of(&all.selector_set), vec!["b", "a", "c"]);
}

#[test]
fn list_with_names_follows_the_names_and_skips_unknown_ones() {
    let mut storage = MemSelectorSetStorage::new();
    let sets = vec![
        SelectorSet::new(&String::from("a")),
        SelectorSet::new(&String::from("b")),
    ];
    storage.define_selector_set(&DefineSelectorSetParams { selector_sets: sets }).unwrap();
    let picked = storage
        .list_selector_set(&ListSelectorSetParams {
            names: vec![String::from("b"), String::from("zzz"), String::from("a"), String::from("b")],
        })
        .unwrap();
    assert_eq!(names_of(&picked.selector_set), vec!["b", "a", "b"]);
}

#[test]
fn remove_reports_the_names_that_were_registered() {
    let mut storage = MemSelectorSetStorage::new();
    storage
        .define_selector_set(&DefineSelectorSetParams {
            selector_sets: vec![
                SelectorSet::new(&String::from("first")),
                SelectorSet::new(&String::from("second")),
                SelectorSet::new(&String::from("third")),
            ],
        })
        .unwrap();
    let removed = storage
        .remove_selector_set(&RemoveSelectorSetParams {
            names: vec![String::from("third"), String::from("ghost"), String::from("first")],
        })
        .unwrap();
    assert_eq!(removed.names, vec!["third", "first"]);
    assert_eq!(storage.len(), 1);
    let again = storage
        .remove_selector_set(&RemoveSelectorSetParams {
            names: vec![String::from("first"), String::from("ghost")],
        })
        .unwrap();
    assert!(again.names.is_empty());
    assert_eq!(storage.len(), 1);
    let none = storage.remove_selector_set(&RemoveSelectorSetParams { names: vec![] }).unwrap();
    assert!(none.names.is_empty());
}

#[test]
fn a_new_set_carries_the_time_it_was_given() {
    let time = std::time::SystemTime::UNIX_EPOCH + std::time::Duration::from_secs(7);
    let set = SelectorSet::new_at(&String::from("manga"), time);
    assert_eq!(set.name, "manga");
    assert!(set.static_selectors.is_empty());
    assert!(set.dynamic_selectors.is_empty());
    assert_eq!(set.modified_time, Some(time));
    assert!(set.is_full());
    assert!(set.get_next_required_selector().is_none());
    let stamped = SelectorSet::new(&String::from("manga"));
    assert!(stamped.modified_time.is_some());
    assert!(stamped.dynamic_selectors.is_empty());
}

#[test]
fn get_by_name_finds_the_set_or_reports_not_found() {
    let mut storage = MemSelectorSetStorage::new();
    storage
        .define_selector_set(&DefineSelectorSetParams {
            selector_sets: vec![SelectorSet::new(&String::from("manga"))],
        })
        .unwrap();
    let found = storage.get_selector_set_by_name(&String::from("manga")).unwrap();
    assert_eq!(found.name, "manga");
    assert!(found.modified_time.is_some());
    let missing = storage.get_selector_set_by_name(&String::from("unknown-set"));
    assert!(matches!(missing, Err(SelectorSetStorageError::NotFound)));
    assert_eq!(SelectorSetStorageError::NotFound.message(), "NotFound");
}

#[test]
fn a_copy_handed_out_does_not_touch_the_registry() {
    let mut storage = MemSelectorSetStorage::new();
    let mut template = SelectorSet::new(&String::from("manga"));
    template.dynamic_selectors.push(Selector::new(String::from("category"), vec![]));
    storage
        .define_selector_set(&DefineSelectorSetParams { selector_sets: vec![template] })
        .unwrap();
    let mut copy = storage.get_selector_set_by_name(&String::from("manga")).unwrap();
    copy.add_required_value(String::from("doujin"));
    assert!(copy.is_full());
    let stored = storage.get_selector_set_by_name(&String::from("manga")).unwrap();
    assert!(!stored.is_full());
}
