use shorturl::store::{InsertResult, MappingStore};

#[test]
fn new_store_is_empty() {
    let store = MappingStore::new();
    assert_eq!(store.len(), 0);
    assert!(store.is_empty());
    assert!(!store.contains("K"));
    assert_eq!(store.get("K"), None);
}

#[test]
fn try_insert_into_a_free_code() {
    let mut store = MappingStore::new();
    assert_eq!(store.try_insert("K", "example.com"), InsertResult::Inserted);
    assert_eq!(store.get("K"), Some(String::from("example.com")));
    assert_eq!(store.len(), 1);
    assert!(!store.is_empty());
    assert!(store.contains("K"));
}

#[test]
fn try_insert_of_the_same_pair_again() {
    let mut store = MappingStore::new();
    store.try_insert("K", "example.com");
    assert_eq!(store.try_insert("K", "example.com"), InsertResult::AlreadyPresentSame);
    assert_eq!(store.get("K"), Some(String::from("example.com")));
    assert_eq!(store.len(), 1);
}

#[test]
fn try_insert_does_not_overwrite() {
    let mut store = MappingStore::new();
    store.try_insert("K", "example.com");
    assert_eq!(store.try_insert("K", "example.org"), InsertResult::AlreadyPresentDifferent);
    assert_eq!(store.get("K"), Some(String::from("example.com")));
    assert_eq!(store.len(), 1);
}

#[test]
fn try_insert_keeps_codes_apart() {
    let mut store = MappingStore::new();
    assert_eq!(store.try_insert("K", "example.com"), InsertResult::Inserted);
    assert_eq!(store.try_insert("KX", "example.com"), InsertResult::Inserted);
    assert_eq!(store.try_insert("k", "example.org"), InsertResult::Inserted);
    assert_eq!(store.len(), 3);
    assert_eq!(store.get("K"), Some(String::from("example.com")));
    assert_eq!(store.get("KX"), Some(String::from("example.com")));
    assert_eq!(store.get("k"), Some(String::from("example.org")));
}

#[test]
fn try_insert_accepts_the_empty_code() {
    let mut store = MappingStore::new();
    assert_eq!(store.try_insert("", "example.com"), InsertResult::Inserted);
    assert_eq!(store.get(""), Some(String::from("example.com")));
    assert_eq!(store.try_insert("", "example.org"), InsertResult::AlreadyPresentDifferent);
}

#[test]
fn force_insert_into_a_free_code() {
    let mut store = MappingStore::new();
    store.force_insert("K", "example.com");
    assert_eq!(store.get("K"), Some(String::from("example.com")));
    assert_eq!(store.len(), 1);
}

#[test]
fn force_insert_overwrites() {
    let mut store = MappingStore::new();
    store.try_insert("K", "example.com");
    store.force_insert("K", "example.org");
    assert_eq!(store.get("K"), Some(String::from("example.org")));
    assert_eq!(store.len(), 1);
}

#[test]
fn force_insert_leaves_other_codes_alone() {
    let mut store = MappingStore::new();
    store.try_insert("A", "a.example");
    store.force_insert("B", "b.example");
    store.force_insert("B", "c.example");
    assert_eq!(store.get("A"), Some(String::from("a.example")));
    assert_eq!(store.get("B"), Some(String::from("c.example")));
    assert_eq!(store.len(), 2);
}

#[test]
fn get_of_an_unknown_code() {
    let mut store = MappingStore::new();
    store.try_insert("K", "example.com");
    assert_eq!(store.get("k"), None);
    assert_eq!(store.get("KX"), None);
    assert_eq!(store.get(""), None);
    assert!(!store.contains("KX"));
}
