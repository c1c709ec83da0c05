//! The key manager: index loading, lookups, generation, error wrapping.

use warp_keys::home::Home;
use warp_keys::keydata::{encode_key_data, Encryption, KeyData, KeyDerivation, Mac};
use warp_keys::keyid::KeyId;
use warp_keys::keymgr::{KeyMgr, KeyMgrError, DEFAULT_STORE};
use warp_keys::store::{DefaultStore, Keystore, ListError, StoredEntry};
use warp_keys::timestamp::Timestamp;

fn home() -> Home {
    Home::new(String::from("/tmp/user"))
}

fn valid_entry(id_byte: u8, secs: u64) -> StoredEntry {
    let id = KeyId::from_bytes([id_byte; 16]);
    let data = KeyData {
        kdf: KeyDerivation::HkdfSha3256,
        enc: Encryption::AesCtr128,
        mac: None,
        created: Timestamp::new(secs, 0),
    };
    StoredEntry { name: id.to_hex(), meta: encode_key_data(&data), secret: vec![id_byte; 16] }
}

#[test]
fn fresh_manager_has_no_keys() {
    let mgr = KeyMgr::new(DefaultStore::new(&home())).expect("an empty store loads");
    assert!(!mgr.has_keys());
    assert!(mgr.for_each_key().is_empty());
}

#[test]
fn has_keys_after_one_generate() {
    let mut mgr = KeyMgr::new(DefaultStore::new(&home())).expect("an empty store loads");
    assert!(!mgr.has_keys());
    let key = mgr
        .generate(DEFAULT_STORE)
        .expect("generation succeeds")
        .expect("the default store is known");
    assert!(mgr.has_keys());
    let keys = mgr.for_each_key();
    assert_eq!(keys.len(), 1);
    assert_eq!(keys[0].id(), key.id());
}

#[test]
fn unknown_store_is_not_an_error() {
    let mut mgr = KeyMgr::new(DefaultStore::new(&home())).expect("an empty store loads");
    let r = mgr.generate("nonexistent-store-id").expect("an unknown store is no error");
    assert!(r.is_none());
    assert!(!mgr.has_keys());
}

#[test]
fn concurrent_style_generation_accumulates_distinct_keys() {
    let n: usize = 8;
    let mut mgr = KeyMgr::new(DefaultStore::new(&home())).expect("an empty store loads");
    let mut ids = Vec::new();
    for _ in 0..n {
        let key = mgr
            .generate(DEFAULT_STORE)
            .expect("generation succeeds")
            .expect("the default store is known");
        ids.push(key.id().to_hex());
    }
    let keys = mgr.for_each_key();
    assert_eq!(keys.len(), n);
    for i in 0..n {
        assert_eq!(keys[i].id().to_hex(), ids[i]);
        for j in 0..i {
            assert_ne!(ids[i], ids[j]);
        }
    }
}

#[test]
fn manager_indexes_seeded_store() {
    let store = DefaultStore::with_records(
        &home(),
        vec![valid_entry(0x01, 100), valid_entry(0x02, 200)],
    );
    let mgr = KeyMgr::new(store).expect("well-formed items load");
    assert!(mgr.has_keys());
    let keys = mgr.for_each_key();
    assert_eq!(keys.len(), 2);
    assert_eq!(keys[0].id().to_hex(), KeyId::from_bytes([0x01; 16]).to_hex());
    assert_eq!(keys[1].created(), Timestamp::new(200, 0));
}

#[test]
fn one_bad_item_aborts_construction() {
    let bad = StoredEntry {
        name: KeyId::from_bytes([0x03; 16]).to_hex(),
        meta: vec![0, 0],
        secret: vec![],
    };
    let store = DefaultStore::with_records(&home(), vec![valid_entry(0x01, 100), bad]);
    match KeyMgr::new(store) {
        Err(KeyMgrError::ListKeyFailed(sid, e)) => {
            assert_eq!(sid, "default");
            assert_eq!(e, ListError::InvalidKeyData);
        }
        _ => panic!("construction must fail on the bad item"),
    }
}

#[test]
fn duplicate_identifiers_abort_construction() {
    let store = DefaultStore::with_records(
        &home(),
        vec![valid_entry(0x07, 100), valid_entry(0x07, 200)],
    );
    match KeyMgr::new(store) {
        Err(KeyMgrError::DuplicateKeyId) => {}
        _ => panic!("two items claiming one identifier must be refused"),
    }
}

#[test]
fn stores_lists_the_default_backend() {
    let mgr = KeyMgr::new(DefaultStore::new(&home())).expect("an empty store loads");
    assert_eq!(mgr.stores(), vec!["default"]);
    assert_eq!(DEFAULT_STORE, "default");
}

#[test]
fn generated_key_survives_reload() {
    // The index is a cache: a persisted key reappears when a new manager
    // loads the same storage.
    let mut store = DefaultStore::new(&home());
    let key = store.generate().expect("generation succeeds");
    let mgr = KeyMgr::new(store).expect("the persisted item loads");
    let keys = mgr.for_each_key();
    assert_eq!(keys.len(), 1);
    assert_eq!(keys[0].id(), key.id());
    assert_eq!(keys[0].created(), key.created());
}
