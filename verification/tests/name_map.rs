use sm_connect::name_map::NameMap;

fn name(text: &str) -> String {
    text.to_string()
}

#[test]
fn a_new_map_is_empty() {
    let map: NameMap<u64> = NameMap::new();
    assert_eq!(map.len(), 0);
    assert_eq!(map.find(&name("a")), None);
    assert_eq!(map.get(&name("a")), None);
}

#[test]
fn insert_appends_new_names_in_order() {
    let mut map: NameMap<u64> = NameMap::new();
    map.insert(name("b"), 2);
    map.insert(name("a"), 1);
    map.insert(name("c"), 3);
    assert_eq!(map.len(), 3);
    assert_eq!(map.key(0).as_str(), "b");
    assert_eq!(map.key(1).as_str(), "a");
    assert_eq!(map.key(2).as_str(), "c");
    assert_eq!(*map.value(0), 2);
    assert_eq!(*map.value(1), 1);
    assert_eq!(*map.value(2), 3);
    assert_eq!(map.find(&name("a")), Some(1));
    assert_eq!(map.find(&name("d")), None);
    assert_eq!(map.get(&name("c")), Some(3));
}

#[test]
fn insert_replaces_the_value_of_a_known_name_in_place() {
    let mut map: NameMap<u64> = NameMap::new();
    map.insert(name("b"), 2);
    map.insert(name("a"), 1);
    map.insert(name("b"), 20);
    assert_eq!(map.len(), 2);
    assert_eq!(map.key(0).as_str(), "b");
    assert_eq!(map.get(&name("b")), Some(20));
    assert_eq!(map.get(&name("a")), Some(1));
}

#[test]
fn names_differ_by_case_and_by_length() {
    let mut map: NameMap<u64> = NameMap::new();
    map.insert(name("a"), 1);
    map.insert(name("A"), 2);
    map.insert(name("aa"), 3);
    map.insert(name(""), 4);
    assert_eq!(map.len(), 4);
    assert_eq!(map.get(&name("a")), Some(1));
    assert_eq!(map.get(&name("A")), Some(2));
    assert_eq!(map.get(&name("aa")), Some(3));
    assert_eq!(map.get(&name("")), Some(4));
}

#[test]
fn set_value_changes_one_entry() {
    let mut map: NameMap<u64> = NameMap::new();
    map.insert(name("a"), 1);
    map.insert(name("b"), 2);
    map.set_value(1, 9);
    assert_eq!(map.get(&name("a")), Some(1));
    assert_eq!(map.get(&name("b")), Some(9));
    assert_eq!(map.key(1).as_str(), "b");
}

#[test]
fn clear_removes_every_entry() {
    let mut map: NameMap<u64> = NameMap::new();
    map.insert(name("a"), 1);
    map.insert(name("b"), 2);
    map.clear();
    assert_eq!(map.len(), 0);
    assert_eq!(map.get(&name("a")), None);
    map.insert(name("b"), 5);
    assert_eq!(map.find(&name("b")), Some(0));
}
