use aria_core::runtime::string_map::StringMap;

#[test]
fn a_new_map_is_empty() {
    let map: StringMap<u32> = StringMap::new();
    assert_eq!(map.len(), 0);
    assert!(map.get("a").is_none());
    assert!(!map.contains_key(""));
}

#[test]
fn insert_adds_or_replaces() {
    let mut map: StringMap<u32> = StringMap::new();
    map.insert("a".to_string(), 1);
    map.insert("b".to_string(), 2);
    map.insert("".to_string(), 0);
    assert_eq!(map.len(), 3);
    map.insert("a".to_string(), 10);
    assert_eq!(map.len(), 3);
    assert_eq!(map.get("a"), Some(&10));
    assert_eq!(map.get("b"), Some(&2));
    assert_eq!(map.get(""), Some(&0));
    assert!(map.get("A").is_none());
    assert!(map.get("ab").is_none());
    assert!(map.contains_key("b"));
    assert!(!map.contains_key("c"));
}

#[test]
fn values_are_listed_in_the_order_of_their_keys() {
    let mut map: StringMap<&str> = StringMap::new();
    map.insert("one".to_string(), "1");
    map.insert("two".to_string(), "2");
    map.insert("three".to_string(), "3");
    map.insert("two".to_string(), "II");
    let values: Vec<&str> = (0..map.len()).map(|i| *map.value_at(i)).collect();
    assert_eq!(values, vec!["1", "II", "3"]);
}
