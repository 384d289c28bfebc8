use kv_store::store::KeyValueStore;

#[test]
fn store_test_store_operations() {
    let mut store = KeyValueStore::new();

    store.put("key1".to_string(), "value1".to_string());
    assert_eq!(store.get("key1"), Some("value1".to_string()));

    assert_eq!(store.get("nonexistent"), None);

    assert_eq!(store.delete("key1"), true);
    assert_eq!(store.get("key1"), None);

    assert_eq!(store.delete("nonexistent"), false);

    store.put("keys2".to_string(), "value2".to_string());
    store.put("keys3".to_string(), "value3".to_string());
    let keys = store.keys();
    assert_eq!(keys.len(), 2);
    assert!(keys.contains(&"keys2".to_string()));
    assert!(keys.contains(&"keys3".to_string()));
}

#[test]
fn store_test_test_store_operations() {
    let mut store = KeyValueStore::new();

    store.put("key1".to_string(), "value1".to_string());
    assert_eq!(store.get("key1"), Some("value1".to_string()));

    assert_eq!(store.get("nonexistent"), None);

    assert_eq!(store.delete("key1"), true);
    assert_eq!(store.get("key1"), None);

    assert_eq!(store.delete("nonexistent"), false);

    store.put("keys2".to_string(), "value2".to_string());
    store.put("keys3".to_string(), "value3".to_string());
    let keys = store.keys();
    assert_eq!(keys.len(), 2);
    assert!(keys.contains(&"keys2".to_string()));
    assert!(keys.contains(&"keys3".to_string()));
}

#[test]
fn last_write_wins_over_a_sequence() {
    let mut store = KeyValueStore::new();
    store.put("a".to_string(), "1".to_string());
    store.put("b".to_string(), "2".to_string());
    store.put("a".to_string(), "3".to_string());
    assert!(store.delete("b"));
    store.put("c".to_string(), "4".to_string());
    store.put("b".to_string(), "5".to_string());
    assert!(store.delete("c"));
    assert_eq!(store.get("a"), Some("3".to_string()));
    assert_eq!(store.get("b"), Some("5".to_string()));
    assert_eq!(store.get("c"), None);
    assert_eq!(store.keys().len(), 2);
}

#[test]
fn empty_store_has_no_keys() {
    let store = KeyValueStore::new();
    assert!(store.is_empty());
    assert!(store.keys().is_empty());
    assert_eq!(store.get(""), None);
}

#[test]
fn put_replaces_and_keeps_one_key() {
    let mut store = KeyValueStore::new();
    store.put("k".to_string(), "old".to_string());
    store.put("k".to_string(), "new".to_string());
    assert_eq!(store.keys(), vec!["k".to_string()]);
    assert_eq!(store.get("k"), Some("new".to_string()));
    assert!(!store.is_empty());
}

#[test]
fn delete_from_the_middle_keeps_the_others() {
    let mut store = KeyValueStore::new();
    for (k, v) in [("x", "1"), ("y", "2"), ("z", "3")] {
        store.put(k.to_string(), v.to_string());
    }
    assert!(store.delete("x"));
    assert_eq!(store.get("y"), Some("2".to_string()));
    assert_eq!(store.get("z"), Some("3".to_string()));
    assert_eq!(store.keys().len(), 2);
}

#[test]
fn snapshot_rebuilds_the_same_store() {
    let mut store = KeyValueStore::new();
    store.put("persist1".to_string(), "value1".to_string());
    store.put("persist2".to_string(), "value2".to_string());
    let mut entries = store.entries();
    assert_eq!(entries.len(), 2);
    entries.reverse();
    let loaded = KeyValueStore::from_entries(entries);
    assert_eq!(loaded.get("persist1"), Some("value1".to_string()));
    assert_eq!(loaded.get("persist2"), Some("value2".to_string()));
    assert_eq!(loaded.keys().len(), 2);
}

#[test]
fn snapshot_survives_json() {
    let mut store = KeyValueStore::new();
    store.put("persist1".to_string(), "value one".to_string());
    store.put("persist2".to_string(), "value2".to_string());
    let map: std::collections::BTreeMap<String, String> = store.entries().into_iter().collect();
    let text = serde_json::to_string_pretty(&map).unwrap();
    let back: std::collections::BTreeMap<String, String> = serde_json::from_str(&text).unwrap();
    let loaded = KeyValueStore::from_entries(back.into_iter().collect());
    assert_eq!(loaded.get("persist1"), Some("value one".to_string()));
    assert_eq!(loaded.get("persist2"), Some("value2".to_string()));
}

#[test]
fn later_entry_wins_when_rebuilding() {
    let entries = vec![
        ("k".to_string(), "first".to_string()),
        ("k".to_string(), "second".to_string()),
    ];
    let store = KeyValueStore::from_entries(entries);
    assert_eq!(store.get("k"), Some("second".to_string()));
    assert_eq!(store.keys().len(), 1);
}
