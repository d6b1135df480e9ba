use toy_core::data::{DataMap, Value};

#[test]
fn get_or_insert() {
    let mut map = DataMap::new();
    map.insert("a".to_string(), Value::from(1));

    assert_eq!(
        map.get_or_insert("a".to_string(), Value::from(2222)),
        &mut Value::from(1)
    );
    assert_eq!(
        map.get_or_insert("b".to_string(), Value::from(2)),
        &mut Value::from(2)
    );
}

#[test]
fn insert_replaces_in_place() {
    let mut map = DataMap::new();
    assert_eq!(map.insert("a".to_string(), Value::from(1)), None);
    assert_eq!(map.insert("b".to_string(), Value::from(2)), None);
    assert_eq!(map.insert("a".to_string(), Value::from(3)), Some(Value::from(1)));
    let keys: Vec<String> = map.keys().into_iter().cloned().collect();
    assert_eq!(keys, vec!["a".to_string(), "b".to_string()]);
    assert_eq!(map.get("a"), Some(&Value::from(3)));
    assert_eq!(map.len(), 2);
}

#[test]
fn remove_then_get() {
    let mut map = DataMap::new();
    map.insert("a".to_string(), Value::from(1));
    map.insert("b".to_string(), Value::from(2));
    map.insert("c".to_string(), Value::from(3));
    assert_eq!(map.remove("a"), Some(Value::from(1)));
    assert_eq!(map.get("a"), None);
    assert_eq!(map.get("b"), Some(&Value::from(2)));
    assert_eq!(map.get("c"), Some(&Value::from(3)));
    assert_eq!(map.remove("zz"), None);
    assert_eq!(map.len(), 2);
    assert!(map.contains_key("c"));
    map.clear();
    assert!(map.is_empty());
}

#[test]
fn get_mut_changes_in_place() {
    let mut map = DataMap::new();
    map.insert("a".to_string(), Value::from(1));
    map.insert("b".to_string(), Value::from(2));
    if let Some(v) = map.get_mut("a") {
        *v = Value::from(10);
    }
    assert!(map.get_mut("c").is_none());
    assert_eq!(map.get("a"), Some(&Value::from(10)));
    let entries = map.into_entries();
    assert_eq!(entries.len(), 2);
    assert_eq!(entries[0].0, "a");
    assert_eq!(entries[0].1, Value::from(10));
    assert_eq!(entries[1].0, "b");
}
