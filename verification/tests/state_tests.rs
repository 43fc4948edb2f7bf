use civitasos::execution::StateChange;
use civitasos::state::StateStore;

#[test]
fn test_state_store() {
    let mut store = StateStore::new();

    store.put("key1".to_string(), "value1".to_string());
    store.put("key2".to_string(), "value2".to_string());

    assert_eq!(store.get("key1").unwrap().value, "value1");
    assert_eq!(store.get("key2").unwrap().value, "value2");

    let root1 = store.get_root_hash().to_string();
    assert!(!root1.is_empty());

    store.put("key1".to_string(), "value1_updated".to_string());

    let root2 = store.get_root_hash().to_string();
    assert_ne!(root1, root2);

    assert_eq!(store.versions.len(), 3);
}

#[test]
fn test_apply_diff() {
    let mut store = StateStore::new();
    let diffs = vec![StateChange {
        key: "test_key".to_string(),
        old_value: None,
        new_value: Some("test_value".to_string()),
    }];

    let result = store.apply_diff(diffs).unwrap();
    assert!(!result.is_empty());

    assert_eq!(store.get("test_key").unwrap().value, "test_value");
}

#[test]
fn state_put_bumps_version_and_root_is_hex_digest() {
    let mut store = StateStore::new();
    store.put_at("k".to_string(), "v1".to_string(), 5);
    assert_eq!(store.get("k").unwrap().version, 0);
    assert_eq!(store.get("k").unwrap().timestamp, 5);
    store.put_at("k".to_string(), "v2".to_string(), 6);
    assert_eq!(store.get("k").unwrap().version, 1);
    assert_eq!(store.get("k").unwrap().value, "v2");
    assert_eq!(store.get_root_hash().len(), 64);
    assert!(store.get_root_hash().chars().all(|c| c.is_ascii_hexdigit() && !c.is_ascii_uppercase()));
}

#[test]
fn state_diff_without_value_removes_key() {
    let mut store = StateStore::new();
    store.put_at("gone".to_string(), "x".to_string(), 1);
    let diffs = vec![StateChange { key: "gone".to_string(), old_value: Some("x".to_string()), new_value: None }];
    store.apply_diff_at(diffs, 2).unwrap();
    assert!(store.get("gone").is_none());
}

fn is_digest(s: &str) -> bool {
    s.len() == 64 && s.chars().all(|c| c.is_ascii_digit() || ('a'..='f').contains(&c))
}

#[test]
fn state_roots_are_digests_after_every_write() {
    let mut store = StateStore::new();
    store.put("a".to_string(), "1".to_string());
    assert!(is_digest(store.get_root_hash()));
    let root = store
        .apply_diff(vec![StateChange { key: "b".to_string(), old_value: None, new_value: Some("2".to_string()) }])
        .unwrap();
    assert!(is_digest(&root));
    assert_eq!(root, store.get_root_hash());
    assert_eq!(store.versions.len(), 2);
    assert_eq!(store.versions[1], root);
    store.update_root_hash_public();
    assert!(is_digest(store.get_root_hash()));
    assert_eq!(store.versions.len(), 3);
}

#[test]
fn state_root_does_not_depend_on_insertion_order() {
    let mut s1 = StateStore::new();
    let mut s2 = StateStore::new();
    s1.put_at("x".to_string(), "1".to_string(), 3);
    s1.put_at("y".to_string(), "2".to_string(), 3);
    s2.put_at("y".to_string(), "2".to_string(), 3);
    s2.put_at("x".to_string(), "1".to_string(), 3);
    assert_eq!(s1.get_root_hash(), s2.get_root_hash());
}
