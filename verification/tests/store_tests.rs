//! The default key store: generation, enumeration, per-item failures.

use warp_keys::home::Home;
use warp_keys::keydata::{encode_key_data, Encryption, KeyData, KeyDerivation, Mac};
use warp_keys::keyid::{derive_id, KeyId};
use warp_keys::store::{DefaultStore, Keystore, ListError, StoredEntry};
use warp_keys::timestamp::Timestamp;

fn home() -> Home {
    Home::new(String::from("/tmp/user"))
}

fn valid_entry(id_byte: u8, secs: u64) -> StoredEntry {
    let id = KeyId::from_bytes([id_byte; 16]);
    let data = KeyData {
        kdf: KeyDerivation::HkdfSha3256,
        enc: Encryption::AesCtr128,
        mac: Some(Mac::HmacSha3256),
        created: Timestamp::new(secs, 0),
    };
    StoredEntry { name: id.to_hex(), meta: encode_key_data(&data), secret: vec![id_byte; 16] }
}

#[test]
fn store_identifies_itself() {
    let store = DefaultStore::new(&home());
    assert_eq!(store.id(), "default");
}

#[test]
fn fresh_store_lists_nothing() {
    let store = DefaultStore::new(&home());
    assert!(store.list().is_empty());
}

#[test]
fn generate_then_list_round_trip() {
    let mut store = DefaultStore::new(&home());
    let key = store.generate().expect("generation succeeds");
    let listed = store.list();
    assert_eq!(listed.len(), 1);
    let back = listed[0].as_ref().expect("the one item parses");
    assert_eq!(back.id(), key.id());
    assert_eq!(back.created(), key.created());
}

#[test]
fn generated_ids_are_distinct() {
    let mut store = DefaultStore::new(&home());
    let a = store.generate().expect("generation succeeds");
    let b = store.generate().expect("generation succeeds");
    assert_ne!(a.id(), b.id());
    assert_eq!(store.list().len(), 2);
}

#[test]
fn seeded_entry_lists_back() {
    let entry = valid_entry(0x5a, 1_700_000_000);
    let store = DefaultStore::with_records(&home(), vec![entry]);
    let listed = store.list();
    assert_eq!(listed.len(), 1);
    let key = listed[0].as_ref().expect("the seeded item parses");
    assert_eq!(key.id().to_hex(), KeyId::from_bytes([0x5a; 16]).to_hex());
    assert_eq!(key.created(), Timestamp::new(1_700_000_000, 0));
}

#[test]
fn one_corrupt_record_fails_alone() {
    let corrupt = StoredEntry {
        name: KeyId::from_bytes([0x22; 16]).to_hex(),
        meta: vec![0xff, 0x00],
        secret: vec![],
    };
    let records = vec![valid_entry(0x11, 100), corrupt, valid_entry(0x33, 300)];
    let store = DefaultStore::with_records(&home(), records);
    let listed = store.list();
    assert_eq!(listed.len(), 3);
    assert!(listed[0].is_ok());
    assert_eq!(listed[1], Err(ListError::InvalidKeyData));
    assert!(listed[2].is_ok());
    assert_eq!(listed[0].as_ref().unwrap().id().to_hex(), KeyId::from_bytes([0x11; 16]).to_hex());
    assert_eq!(listed[2].as_ref().unwrap().id().to_hex(), KeyId::from_bytes([0x33; 16]).to_hex());
}

#[test]
fn bad_name_fails_alone() {
    let bad = StoredEntry { name: String::from("not-a-key-id"), meta: vec![], secret: vec![] };
    let store = DefaultStore::with_records(&home(), vec![bad, valid_entry(0x44, 400)]);
    let listed = store.list();
    assert_eq!(listed.len(), 2);
    assert_eq!(listed[0], Err(ListError::InvalidName));
    assert!(listed[1].is_ok());
}

#[test]
fn generate_persists_the_key_material() {
    let mut store = DefaultStore::new(&home());
    let key = store.generate().expect("generation succeeds");
    let records = store.records();
    assert_eq!(records.len(), 1);
    assert_eq!(records[0].name, key.id().to_hex());
    // The stored payload is the raw key itself: deriving its identifier
    // reproduces the returned key's id.
    assert_eq!(records[0].secret.len(), 16);
    let mut raw = [0u8; 16];
    raw.copy_from_slice(&records[0].secret);
    assert_eq!(derive_id(&raw), *key.id());
}

#[test]
fn generate_appends_behind_existing_items() {
    let mut store = DefaultStore::with_records(&home(), vec![valid_entry(0x77, 700)]);
    let key = store.generate().expect("generation succeeds");
    let listed = store.list();
    assert_eq!(listed.len(), 2);
    assert_eq!(listed[1].as_ref().expect("the new item parses").id(), key.id());
}
