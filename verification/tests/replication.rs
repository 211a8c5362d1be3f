use shorturl::coordinator::{create, resolve, Creation, Resolution};
use shorturl::model::UrlMapping;
use shorturl::replication::{add_url, message_for, Ack, ReplicationMessage};
use shorturl::store::MappingStore;

fn message(code: &str, target: &str) -> ReplicationMessage {
    ReplicationMessage { code: String::from(code), target: String::from(target) }
}

#[test]
fn message_for_carries_the_pair() {
    let mapping =
        UrlMapping { code: String::from("GQYJxSsIgqA"), target: String::from("example.com") };
    assert_eq!(message_for(&mapping), message("GQYJxSsIgqA", "example.com"));
}

#[test]
fn add_url_stores_the_pair() {
    let mut store = MappingStore::new();
    add_url(&mut store, &message("GQYJxSsIgqA", "example.com"));
    assert_eq!(store.get("GQYJxSsIgqA"), Some(String::from("example.com")));
    assert_eq!(store.len(), 1);
}

#[test]
fn add_url_acknowledges_with_the_pair() {
    let mut store = MappingStore::new();
    let ack = add_url(&mut store, &message("GQYJxSsIgqA", "example.com"));
    assert_eq!(ack, Ack { message: String::from("Got GQYJxSsIgqA:example.com") });
}

#[test]
fn add_url_acknowledges_empty_fields() {
    let mut store = MappingStore::new();
    let ack = add_url(&mut store, &message("", ""));
    assert_eq!(ack.message, "Got :");
    assert_eq!(store.get(""), Some(String::new()));
}

#[test]
fn add_url_overwrites_a_different_mapping() {
    let mut store = MappingStore::new();
    create(&mut store, "example.com").unwrap();
    let ack = add_url(&mut store, &message("GQYJxSsIgqA", "other.example"));
    assert_eq!(ack.message, "Got GQYJxSsIgqA:other.example");
    assert_eq!(store.get("GQYJxSsIgqA"), Some(String::from("other.example")));
    assert_eq!(store.len(), 1);
}

#[test]
fn add_url_twice_is_the_same_as_once() {
    let mut store = MappingStore::new();
    let first = add_url(&mut store, &message("K", "example.com"));
    let second = add_url(&mut store, &message("K", "example.com"));
    assert_eq!(first, second);
    assert_eq!(store.get("K"), Some(String::from("example.com")));
    assert_eq!(store.len(), 1);
}

#[test]
fn add_url_leaves_other_codes_alone() {
    let mut store = MappingStore::new();
    create(&mut store, "example.com").unwrap();
    add_url(&mut store, &message("K", "other.example"));
    assert_eq!(store.get("GQYJxSsIgqA"), Some(String::from("example.com")));
    assert_eq!(store.get("K"), Some(String::from("other.example")));
    assert_eq!(store.len(), 2);
}

#[test]
fn replicated_mapping_resolves_on_the_peer() {
    let mut local = MappingStore::new();
    let mut peer = MappingStore::new();
    let mapping = match create(&mut local, "example.com") {
        Ok(Creation::Fresh(m)) => m,
        other => panic!("unexpected {:?}", other),
    };
    add_url(&mut peer, &message_for(&mapping));
    assert_eq!(peer.get(&mapping.code), local.get(&mapping.code));
    assert_eq!(resolve(&peer, &mapping.code), resolve(&local, &mapping.code));
    assert_eq!(
        resolve(&peer, &mapping.code),
        Resolution::Redirect(String::from("http://example.com"))
    );
}

#[test]
fn create_after_replication_finds_the_mapping() {
    let mut local = MappingStore::new();
    let mut peer = MappingStore::new();
    let mapping = match create(&mut local, "example.com") {
        Ok(Creation::Fresh(m)) => m,
        other => panic!("unexpected {:?}", other),
    };
    add_url(&mut peer, &message_for(&mapping));
    assert_eq!(create(&mut peer, "http://example.com"), Ok(Creation::Existing(mapping)));
    assert_eq!(peer.len(), 1);
}
