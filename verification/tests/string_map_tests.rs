use docker_db_container_login::StringMap;

fn keys(map: &StringMap<u32>) -> Vec<String> {
    map.entries().into_iter().map(|(key, _)| key.clone()).collect()
}

#[test]
fn new_map_is_empty() {
    let map: StringMap<u32> = StringMap::new();
    assert_eq!(map.len(), 0);
    assert!(map.is_empty());
    assert!(map.get("anything").is_none());
    assert!(!map.contains_key(""));
}

#[test]
fn insert_then_get() {
    let mut map = StringMap::new();
    map.insert("one".to_string(), 1u32);
    map.insert("two".to_string(), 2u32);
    assert_eq!(map.len(), 2);
    assert!(!map.is_empty());
    assert_eq!(map.get("one"), Some(&1));
    assert_eq!(map.get("two"), Some(&2));
    assert_eq!(map.get("three"), None);
    assert!(map.contains_key("two"));
    assert!(!map.contains_key("Two"));
}

#[test]
fn insert_under_a_stored_key_keeps_the_place() {
    let mut map = StringMap::new();
    map.insert("a".to_string(), 1u32);
    map.insert("b".to_string(), 2u32);
    map.insert("c".to_string(), 3u32);
    map.insert("a".to_string(), 10u32);
    assert_eq!(keys(&map), vec!["a", "b", "c"]);
    assert_eq!(*map.entries()[0].1, 10);
    assert_eq!(*map.entries()[1].1, 2);
    assert_eq!(map.len(), 3);
}

#[test]
fn remove_returns_the_value_and_keeps_order() {
    let mut map = StringMap::new();
    map.insert("a".to_string(), 1u32);
    map.insert("b".to_string(), 2u32);
    map.insert("c".to_string(), 3u32);
    assert_eq!(map.remove("b"), Some(2));
    assert_eq!(keys(&map), vec!["a", "c"]);
    assert_eq!(map.remove("b"), None);
    assert_eq!(map.remove("zzz"), None);
    assert_eq!(map.len(), 2);
    map.insert("b".to_string(), 4u32);
    assert_eq!(keys(&map), vec!["a", "c", "b"]);
    assert_eq!(map.remove("a"), Some(1));
    assert_eq!(map.remove("c"), Some(3));
    assert_eq!(map.remove("b"), Some(4));
    assert!(map.is_empty());
}

#[test]
fn keys_are_compared_character_by_character() {
    let mut map = StringMap::new();
    map.insert("".to_string(), 0u32);
    map.insert("caf\u{e9}".to_string(), 1u32);
    map.insert("cafe\u{301}".to_string(), 2u32);
    map.insert("cafe".to_string(), 3u32);
    assert_eq!(map.len(), 4);
    assert_eq!(map.get(""), Some(&0));
    assert_eq!(map.get("caf\u{e9}"), Some(&1));
    assert_eq!(map.get("cafe\u{301}"), Some(&2));
    assert_eq!(map.get("cafe"), Some(&3));
    assert_eq!(map.get("caf"), None);
}

#[test]
fn clone_keeps_entries_and_order() {
    let mut map = StringMap::new();
    map.insert("x".to_string(), "1".to_string());
    map.insert("y".to_string(), "2".to_string());
    let copy = map.clone();
    map.insert("z".to_string(), "3".to_string());
    assert_eq!(copy.len(), 2);
    let entries = copy.entries();
    assert_eq!(entries[0].0, "x");
    assert_eq!(entries[0].1, "1");
    assert_eq!(entries[1].0, "y");
    assert_eq!(entries[1].1, "2");
    assert_eq!(map.len(), 3);
}
