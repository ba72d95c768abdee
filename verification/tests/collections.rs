use tracker::collections::{StringMap, StringSet};

#[test]
fn map_keeps_one_value_per_key() {
    let mut map: StringMap<u64> = StringMap::new();
    assert!(map.is_empty());
    map.insert("b".into(), 1);
    map.insert("a".into(), 2);
    map.insert("b".into(), 3);
    assert_eq!(map.len(), 2);
    assert!(!map.is_empty());
    assert_eq!(map.get("b"), Some(&3));
    assert_eq!(map.get("a"), Some(&2));
    assert_eq!(map.get("c"), None);
    assert!(map.contains_key("a"));
    assert!(!map.contains_key("A"));
}

#[test]
fn map_lists_keys_in_the_order_they_came() {
    let mut map: StringMap<u64> = StringMap::new();
    map.insert("z".into(), 1);
    map.insert("y".into(), 2);
    map.insert("z".into(), 3);
    let entries: Vec<(&str, u64)> = (0..map.len()).map(|i| (map.entry(i).0.as_str(), *map.entry(i).1)).collect();
    assert_eq!(entries, vec![("z", 3), ("y", 2)]);
}

#[test]
fn set_holds_each_text_once() {
    let mut set = StringSet::new();
    set.insert("pallet-a".into());
    set.insert("pallet-b".into());
    set.insert("pallet-a".into());
    assert_eq!(set.len(), 2);
    assert!(set.contains("pallet-b"));
    assert!(!set.contains("pallet"));
    assert_eq!(set.item(0), "pallet-a");
    assert_eq!(set.item(1), "pallet-b");
}
