//! Keys as callers see them: identity and creation time.

use vstd::prelude::*;

use crate::keyid::KeyId;
use crate::timestamp::Timestamp;

verus! {

/// Spec-level picture of a key: its identifier bytes and its creation time.
#[verifier::ext_equal]
pub struct KeyView {
    pub id: Seq<u8>,
    pub created: Timestamp,
}

impl KeyView {
    /// A well-formed key has a 16-byte identifier and a well-formed creation
    /// time.
    pub open spec fn wf(&self) -> bool {
        self.id.len() == 16 && self.created.wf()
    }
}

/// Key to encrypt/decrypt files in a repository. Immutable once constructed;
/// the raw key material never leaves the backend that persisted it.
#[derive(Clone, Copy, Debug, PartialEq, Eq)]
pub struct Key {
    id: KeyId,
    created: Timestamp,
}

impl View for Key {
    type V = KeyView;

    closed spec fn view(&self) -> KeyView {
        KeyView { id: self.id@, created: self.created }
    }
}

impl Key {
    /// Wraps an identifier and a creation time.
    pub(crate) fn new(id: KeyId, created: Timestamp) -> (r: Key)
        ensures
            r@ == (KeyView { id: id@, created }),
    {
        Key { id, created }
    }

    /// The key's identifier.
    pub fn id(&self) -> (r: &KeyId)
        ensures
            r@ == self@.id,
    {
        &self.id
    }

    /// When the key was created, by the issuing backend's clock.
    pub fn created(&self) -> (r: Timestamp)
        ensures
            r == self@.created,
    {
        self.created
    }
}

} // verus!
