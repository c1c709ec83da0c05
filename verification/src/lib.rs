//! Management of symmetric file-encryption keys over pluggable secure-storage
//! backends: deterministic key identifiers, per-key metadata, key stores and
//! the manager that indexes their contents.

pub mod home;
pub mod http;
pub mod key;
pub mod keydata;
pub mod keyid;
pub mod keymgr;
pub mod repo;
pub mod store;
pub mod timestamp;

pub use key::Key;
pub use keyid::KeyId;
pub use keymgr::KeyMgr;
pub use store::{DefaultStore, Keystore};
