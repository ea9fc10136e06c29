use pastebin::record::{decode, encode};
use pastebin::{Paste, Store, StoreError};

fn fresh_store() -> Store {
    Store::open_temporary().expect("temporary store should open")
}

#[test]
fn round_trip_empty_body() {
    let p = Paste { id: 0, body: String::new() };
    let bytes = encode(&p);
    assert_eq!(bytes.len(), 16);
    let back = decode(&bytes).expect("well-formed record should decode");
    assert_eq!(back, p);
}

#[test]
fn round_trip_simple_body() {
    let p = Paste { id: 0xdead_beef_dead_beef_dead_beef_dead_beef, body: String::from("hello world") };
    let back = decode(&encode(&p)).expect("well-formed record should decode");
    assert_eq!(back.id, p.id);
    assert_eq!(back.body, "hello world");
}

#[test]
fn round_trip_non_ascii_body() {
    let p = Paste { id: 7, body: String::from("pâte à papier — 張り紙 ✂\u{10348}") };
    let back = decode(&encode(&p)).expect("well-formed record should decode");
    assert_eq!(back, p);
}

#[test]
fn round_trip_multi_megabyte_body() {
    let mut body = String::with_capacity(3_000_000);
    while body.len() < 3_000_000 {
        body.push_str("multi-megabyte paste text § ");
    }
    let p = Paste { id: u128::MAX, body };
    let back = decode(&encode(&p)).expect("well-formed record should decode");
    assert_eq!(back, p);
}

#[test]
fn decode_rejects_short_bytes() {
    let r = decode(&vec![1u8, 2, 3]);
    assert_eq!(r.unwrap_err(), StoreError::CorruptRecord);
}

#[test]
fn decode_rejects_invalid_utf8() {
    let mut bytes = vec![0u8; 16];
    bytes.push(0xff);
    bytes.push(0xfe);
    let r = decode(&bytes);
    assert_eq!(r.unwrap_err(), StoreError::CorruptRecord);
}

#[test]
fn create_then_get_returns_same_body() {
    let mut store = fresh_store();
    let created = store.create(String::from("read after write")).expect("create should succeed");
    let fetched = store.get(created.id).expect("get after create should succeed");
    assert_eq!(fetched, created);
    assert_eq!(fetched.body, "read after write");
}

#[test]
fn get_missing_id_is_not_found() {
    let store = fresh_store();
    let never_created = uuid::Uuid::new_v4().as_u128();
    let r = store.get(never_created);
    assert_eq!(r.unwrap_err(), StoreError::NotFound);
}

#[test]
fn get_is_idempotent() {
    let mut store = fresh_store();
    let created = store.create(String::from("read me twice")).expect("create should succeed");
    let first = store.get(created.id);
    let second = store.get(created.id);
    assert_eq!(first, second);
    assert_eq!(first.expect("get should succeed").body, "read me twice");
}

#[test]
fn insert_persists_under_given_id() {
    let mut store = fresh_store();
    let p = Paste { id: 42, body: String::from("pinned identifier") };
    store.insert(&p.id, &p).expect("insert should succeed");
    let fetched = store.get(42).expect("get should find the inserted record");
    assert_eq!(fetched, p);
}

#[test]
fn insert_overwrites_existing_key() {
    let mut store = fresh_store();
    let first = Paste { id: 9, body: String::from("old text") };
    let second = Paste { id: 9, body: String::from("new text") };
    store.insert(&9, &first).expect("insert should succeed");
    store.insert(&9, &second).expect("insert should succeed");
    assert_eq!(store.get(9).expect("get should succeed"), second);
    assert_eq!(store.all().expect("all should succeed").len(), 1);
}

#[test]
fn fresh_store_is_empty() {
    let store = fresh_store();
    assert_eq!(store.all().expect("all should succeed").len(), 0);
}

#[test]
fn list_returns_exactly_the_created_pastes() {
    let mut store = fresh_store();
    let a = store.create(String::from("alpha")).expect("create should succeed");
    let b = store.create(String::from("beta")).expect("create should succeed");
    let c = store.create(String::from("gamma")).expect("create should succeed");
    let mut expected = vec![(a.id, a.body), (b.id, b.body), (c.id, c.body)];
    let mut listed: Vec<(u128, String)> =
        store.all().expect("all should succeed").into_iter().map(|p| (p.id, p.body)).collect();
    expected.sort();
    listed.sort();
    assert_eq!(listed, expected);
}

#[test]
fn uniqueness_under_load() {
    let mut store = fresh_store();
    let n: usize = 1000;
    let mut ids: Vec<u128> = Vec::with_capacity(n);
    for i in 0..n {
        let created = store.create(format!("paste number {}", i)).expect("create should succeed");
        ids.push(created.id);
    }
    let distinct: std::collections::HashSet<u128> = ids.iter().copied().collect();
    assert_eq!(distinct.len(), n);
    for (i, id) in ids.iter().enumerate() {
        let fetched = store.get(*id).expect("every created paste should be retrievable");
        assert_eq!(fetched.body, format!("paste number {}", i));
    }
    assert_eq!(store.all().expect("all should succeed").len(), n);
}

#[test]
fn concrete_scenario() {
    let mut store = fresh_store();
    let created = store.create(String::from("hello world")).expect("create should succeed");
    assert_eq!(created.body, "hello world");
    let fetched = store.get(created.id).expect("get should succeed");
    assert_eq!(fetched, created);
    let missing = store.get(uuid::Uuid::new_v4().as_u128());
    assert_eq!(missing.unwrap_err(), StoreError::NotFound);
    let listed = store.all().expect("all should succeed");
    assert!(listed.iter().any(|p| p.body == "hello world"));
}
