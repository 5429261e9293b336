use metriken_exposition::Metadata;

#[test]
fn empty_mapping() {
    let m = Metadata::new();
    assert_eq!(m.len(), 0);
    assert!(m.is_empty());
    assert!(m.get("anything").is_none());
}

#[test]
fn insert_then_get() {
    let mut m = Metadata::new();
    m.insert(String::from("metric"), String::from("cpu"));
    assert_eq!(m.len(), 1);
    assert_eq!(m.get("metric").unwrap(), "cpu");
    assert!(m.get("op").is_none());
}

#[test]
fn insert_overwrites_value() {
    let mut m = Metadata::new();
    m.insert(String::from("k"), String::from("first"));
    m.insert(String::from("k"), String::from("second"));
    assert_eq!(m.len(), 1);
    assert_eq!(m.get("k").unwrap(), "second");
}

#[test]
fn iteration_order_is_sorted_by_key() {
    let mut m = Metadata::new();
    m.insert(String::from("b"), String::from("2"));
    m.insert(String::from("c"), String::from("3"));
    m.insert(String::from("a"), String::from("1"));
    assert_eq!(m.len(), 3);
    assert_eq!(m.key_at(0), "a");
    assert_eq!(m.key_at(1), "b");
    assert_eq!(m.key_at(2), "c");
    assert_eq!(m.value_at(0), "1");
    assert_eq!(m.value_at(1), "2");
    assert_eq!(m.value_at(2), "3");
}

#[test]
fn keys_are_case_sensitive() {
    let mut m = Metadata::new();
    m.insert(String::from("Key"), String::from("upper"));
    m.insert(String::from("key"), String::from("lower"));
    assert_eq!(m.len(), 2);
    assert_eq!(m.get("Key").unwrap(), "upper");
    assert_eq!(m.get("key").unwrap(), "lower");
}
