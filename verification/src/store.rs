//! Key stores: the capability every backend satisfies, and the default store.
//!
//! A backend persists keys under their hex-rendered identifier: each stored
//! item holds the raw key material as its protected payload and an encoded
//! metadata record as an attribute beside it. A backend enumerates what it
//! holds (each item may fail on its own without ending the enumeration) and
//! generates-and-persists fresh keys. Raw key material flows only into the
//! stored item; every other copy is wiped as soon as it has been handed over.

use vstd::prelude::*;

use crate::key::{Key, KeyView};
use crate::keydata::{
    decode_key_data, encode_key_data, lemma_key_data_round_trip, spec_decode_key_data,
    spec_encode_key_data, Encryption, KeyData, KeyDerivation, Mac,
};
use crate::keyid::{
    derive_id, lemma_hex_round_trip, spec_hex_of_bytes, spec_keyid_of_hex, KeyId,
};
use crate::home::Home;
use crate::timestamp::timestamp_now;
use vstd::slice::slice_to_vec;

verus! {

/// Spec-level picture of one stored item: its name, its metadata bytes, and
/// the protected key payload.
#[verifier::ext_equal]
pub struct EntryView {
    pub name: Seq<char>,
    pub meta: Seq<u8>,
    pub secret: Seq<u8>,
}

/// One raw item of a backend's storage: the name it is stored under (the
/// hex-rendered key identifier), the metadata record beside it, and the raw
/// key material as the item's protected payload.
pub struct StoredEntry {
    pub name: String,
    pub meta: Vec<u8>,
    pub secret: Vec<u8>,
}

impl View for StoredEntry {
    type V = EntryView;

    open spec fn view(&self) -> EntryView {
        EntryView { name: self.name@, meta: self.meta@, secret: self.secret@ }
    }
}

/// An error for one element of a listing.
#[derive(Clone, Copy, Debug, PartialEq, Eq, Structural)]
pub enum ListError {
    /// The item's name is no hex-rendered key identifier.
    InvalidName,
    /// The item's metadata record is corrupt or carries an unrecognized tag.
    InvalidKeyData,
}

/// An error while generating and persisting a new key.
#[derive(Clone, Copy, Debug, PartialEq, Eq, Structural)]
pub enum GenerateError {
    /// The secure random source failed; holds its error code.
    GenerateKeyFailed(u32),
    /// The backend refused to persist the key: an item of that name already
    /// exists.
    StoreKeyFailed,
}

/// How one stored item reads back during enumeration: the key it describes,
/// or the error that this single item contributes to the listing. Enumeration
/// reads the item's name and metadata attributes alone; the protected payload
/// is never touched (reading it would trip the platform's access gate).
pub open spec fn spec_parse_entry(e: EntryView) -> Result<KeyView, ListError> {
    match spec_keyid_of_hex(e.name) {
        None => Err(ListError::InvalidName),
        Some(id) => match spec_decode_key_data(e.meta) {
            None => Err(ListError::InvalidKeyData),
            Some(d) => Ok(KeyView { id, created: d.created }),
        },
    }
}

/// A listing element, seen at the spec level.
pub open spec fn spec_key_result_view(r: Result<Key, ListError>) -> Result<KeyView, ListError> {
    match r {
        Ok(k) => Ok(k@),
        Err(e) => Err(e),
    }
}

/// The item that persisting key `k` writes: the hex-rendered identifier as
/// name, the encoded metadata record beside it, and the raw key material
/// `secret` as the protected payload.
pub open spec fn spec_generated_entry(k: KeyView, secret: Seq<u8>) -> EntryView {
    EntryView {
        name: spec_hex_of_bytes(k.id),
        meta: spec_encode_key_data(
            KeyData {
                kdf: KeyDerivation::HkdfSha3256,
                enc: Encryption::AesCtr128,
                mac: Some(Mac::HmacSha3256),
                created: k.created,
            },
        ),
        secret,
    }
}

/// Whether the stored payload `secret` is the key material behind key `k`:
/// 16 bytes whose derived identifier is the key's own.
pub open spec fn spec_secret_of(k: KeyView, secret: Seq<u8>) -> bool {
    secret.len() == 16 && crate::keyid::spec_derive_id(secret) == k.id
}

/// Whether some stored item carries this name.
pub open spec fn spec_has_name(es: Seq<EntryView>, name: Seq<char>) -> bool {
    exists|i: int| #![trigger es[i]] 0 <= i < es.len() && es[i].name == name
}

/// Storage to keep encryption keys. Every backend satisfies one behavioral
/// contract: it identifies itself, enumerates every key it holds (items fail
/// one by one, never the whole listing), and persists fresh keys durably
/// before reporting them.
pub trait Keystore: Sized {
    /// The backend's stable identity.
    spec fn spec_id(&self) -> Seq<char>;

    /// The items in the backend's durable storage.
    spec fn entries(&self) -> Seq<EntryView>;

    /// The backend's own well-formedness.
    spec fn wf(&self) -> bool;

    /// The backend's stable identifier, used for routing and display.
    fn id(&self) -> (r: &'static str)
        ensures
            r@ == self.spec_id(),
    ;

    /// Enumerates every key this backend holds, one element per stored item.
    /// An element is the item's key, or the error of that item alone.
    fn list(&self) -> (r: Vec<Result<Key, ListError>>)
        requires
            self.wf(),
        ensures
            r@.len() == self.entries().len(),
            forall|i: int| 0 <= i < r@.len() ==> spec_key_result_view(#[trigger] r@[i])
                == spec_parse_entry(self.entries()[i]),
    ;

    /// Creates fresh key material, derives its identifier, persists key
    /// material and metadata durably, and returns the resulting key. On
    /// success the new item stands in storage behind every item that was
    /// already there, under a name no earlier item carried, and its protected
    /// payload is the raw key itself: 16 bytes whose derived identifier is
    /// the returned key's. On failure storage is unchanged.
    fn generate(&mut self) -> (r: Result<Key, GenerateError>)
        requires
            old(self).wf(),
        ensures
            final(self).wf(),
            final(self).spec_id() == old(self).spec_id(),
            match r {
                Ok(k) => {
                    &&& k@.wf()
                    &&& exists|secret: Seq<u8>|
                        {
                            &&& spec_secret_of(k@, secret)
                            &&& final(self).entries() == old(self).entries().push(
                                #[trigger] spec_generated_entry(k@, secret),
                            )
                            &&& spec_parse_entry(spec_generated_entry(k@, secret)) == Ok::<
                                KeyView,
                                ListError,
                            >(k@)
                        }
                    &&& !spec_has_name(old(self).entries(), spec_hex_of_bytes(k@.id))
                },
                Err(_) => final(self).entries() == old(self).entries(),
            },
    ;
}

/// Relies on `getrandom::getrandom`: fills the buffer from the system's
/// secure random source, or reports the source's error code. The bytes are
/// random, so nothing relates the outcomes of two calls.
#[verifier::external_body]
fn fill_random(buf: &mut [u8; 16]) -> (r: Result<(), u32>) {
    match getrandom::getrandom(buf) {
        Ok(()) => Ok(()),
        Err(e) => Err(e.code().get()),
    }
}

/// Relies on `zeroize::Zeroize` for byte arrays: overwrites the buffer with
/// zeros in a way the compiler will not elide.
#[verifier::external_body]
fn wipe_key(buf: &mut [u8; 16])
    ensures
        final(buf)@ == Seq::new(16, |i: int| 0u8),
{
    zeroize::Zeroize::zeroize(buf);
}

/// Reads one stored item: its key, or the error this item alone contributes
/// to a listing.
fn parse_entry(e: &StoredEntry) -> (r: Result<Key, ListError>)
    ensures
        spec_key_result_view(r) == spec_parse_entry(e@),
{
    let id = match KeyId::from_hex(e.name.as_str()) {
        Some(v) => v,
        None => {
            return Err(ListError::InvalidName);
        },
    };
    let data = match decode_key_data(e.meta.as_slice()) {
        Some(v) => v,
        None => {
            return Err(ListError::InvalidKeyData);
        },
    };
    Ok(Key::new(id, data.created))
}

/// Implementation of [`Keystore`] over the host's key storage: one item per
/// key, named by the hex-rendered identifier, with the metadata record as an
/// attribute and the raw key material as the item's protected payload.
/// Generation moves the key bytes into the stored item and wipes every other
/// copy; enumeration reads only the attributes, never the payload.
pub struct DefaultStore {
    #[allow(dead_code)]
    home: Home,
    records: Vec<StoredEntry>,
}

impl DefaultStore {
    /// Opens the store for an application home, with nothing stored yet.
    pub fn new(home: &Home) -> (r: DefaultStore)
        ensures
            r.wf(),
            r.entries() =~= Seq::<EntryView>::empty(),
            r.spec_id() == "default"@,
    {
        DefaultStore { home: home.clone(), records: Vec::new() }
    }

    /// Opens the store over items already in storage: the store is shared,
    /// and earlier runs or other writers may have stored items, well-formed
    /// or not.
    pub fn with_records(home: &Home, records: Vec<StoredEntry>) -> (r: DefaultStore)
        ensures
            r.wf(),
            r.entries() == records@.map_values(|e: StoredEntry| e@),
            r.spec_id() == "default"@,
    {
        DefaultStore { home: home.clone(), records }
    }

    /// Whether an item of this name is already stored.
    fn contains_name(&self, name: &String) -> (r: bool)
        ensures
            r == spec_has_name(self.entries(), name@),
    {
        let mut i: usize = 0;
        while i < self.records.len()
            invariant
                0 <= i <= self.records@.len(),
                forall|j: int| 0 <= j < i ==> (#[trigger] self.records@[j])@.name != name@,
            decreases self.records@.len() - i,
        {
            if self.records[i].name.eq(name) {
                proof {
                    assert(self.entries()[i as int].name == name@);
                }
                return true;
            }
            i += 1;
        }
        proof {
            assert forall|j: int| 0 <= j < self.entries().len() implies (#[trigger] self.entries()[j]).name
                != name@ by {
                assert(self.entries()[j] == self.records@[j]@);
            }
        }
        false
    }

    /// Persists one key: writes the item under the hex-rendered identifier,
    /// with the metadata record as its attribute and the raw key bytes as its
    /// protected payload, refusing a name that is already taken. The caller's
    /// copy of the key material is wiped whether or not persisting succeeded:
    /// on success the stored item holds the only remaining copy.
    fn store(&mut self, id: &KeyId, key: &mut [u8; 16], data: &KeyData) -> (r: Result<
        (),
        GenerateError,
    >)
        ensures
            final(key)@ == Seq::new(16, |i: int| 0u8),
            final(self).spec_id() == old(self).spec_id(),
            final(self).wf() == old(self).wf(),
            match r {
                Ok(()) => {
                    &&& final(self).entries() == old(self).entries().push(
                        EntryView {
                            name: spec_hex_of_bytes(id@),
                            meta: spec_encode_key_data(*data),
                            secret: old(key)@,
                        },
                    )
                    &&& !spec_has_name(old(self).entries(), spec_hex_of_bytes(id@))
                },
                Err(e) => {
                    &&& final(self).entries() == old(self).entries()
                    &&& e == GenerateError::StoreKeyFailed
                    &&& spec_has_name(old(self).entries(), spec_hex_of_bytes(id@))
                },
            },
    {
        let name = id.to_hex();
        if self.contains_name(&name) {
            wipe_key(key);
            return Err(GenerateError::StoreKeyFailed);
        }
        let meta = encode_key_data(data);
        let secret = slice_to_vec(key.as_slice());
        self.records.push(StoredEntry { name, meta, secret });
        wipe_key(key);
        proof {
            assert(self.entries() =~= old(self).entries().push(
                EntryView {
                    name: spec_hex_of_bytes(id@),
                    meta: spec_encode_key_data(*data),
                    secret: old(key)@,
                },
            ));
        }
        Ok(())
    }

    /// The backend's raw storage, item by item: the persistence surface that
    /// the platform shell mirrors to its durable medium (and protects with
    /// the platform facility) before the new key is reported onward.
    pub fn records(&self) -> (r: &Vec<StoredEntry>)
        ensures
            r@.map_values(|e: StoredEntry| e@) == self.entries(),
    {
        &self.records
    }
}

impl Keystore for DefaultStore {
    closed spec fn spec_id(&self) -> Seq<char> {
        "default"@
    }

    closed spec fn entries(&self) -> Seq<EntryView> {
        self.records@.map_values(|e: StoredEntry| e@)
    }

    closed spec fn wf(&self) -> bool {
        true
    }

    fn id(&self) -> (r: &'static str) {
        "default"
    }

    fn list(&self) -> (r: Vec<Result<Key, ListError>>) {
        let mut out: Vec<Result<Key, ListError>> = Vec::new();
        let mut i: usize = 0;
        while i < self.records.len()
            invariant
                0 <= i <= self.records@.len(),
                out@.len() == i,
                forall|j: int| 0 <= j < i ==> spec_key_result_view(#[trigger] out@[j])
                    == spec_parse_entry(self.entries()[j]),
            decreases self.records@.len() - i,
        {
            let parsed = parse_entry(&self.records[i]);
            proof {
                assert(self.entries()[i as int] == self.records@[i as int]@);
            }
            out.push(parsed);
            i += 1;
        }
        out
    }

    fn generate(&mut self) -> (r: Result<Key, GenerateError>) {
        let mut key = [0u8; 16];
        if let Err(code) = fill_random(&mut key) {
            // The source may have filled part of the buffer before failing:
            // wipe it on this exit path too.
            wipe_key(&mut key);
            return Err(GenerateError::GenerateKeyFailed(code));
        }
        let ghost secret = key@;
        let id = derive_id(&key);
        let created = timestamp_now();
        let data = KeyData {
            kdf: KeyDerivation::HkdfSha3256,
            enc: Encryption::AesCtr128,
            mac: Some(Mac::HmacSha3256),
            created,
        };
        let stored = self.store(&id, &mut key, &data);
        match stored {
            Ok(()) => {
                let k = Key::new(id, created);
                proof {
                    lemma_hex_round_trip(id@);
                    lemma_key_data_round_trip(data);
                    assert(spec_secret_of(k@, secret));
                    assert(spec_generated_entry(k@, secret) == EntryView {
                        name: spec_hex_of_bytes(id@),
                        meta: spec_encode_key_data(data),
                        secret,
                    });
                    assert(spec_parse_entry(spec_generated_entry(k@, secret)) == Ok::<
                        KeyView,
                        ListError,
                    >(k@));
                }
                Ok(k)
            },
            Err(e) => Err(e),
        }
    }
}

/// Round trip: a key that `generate` just persisted appears in a subsequent
/// listing of the same backend, with the same identifier and creation time.
/// `pre` and `post` are the storage before and after the successful
/// `generate` that returned `k`, `e` the item it stored (as `generate`'s
/// contract provides it), and `listed` is what `list` then yields.
pub proof fn lemma_generate_then_list(
    pre: Seq<EntryView>,
    post: Seq<EntryView>,
    k: KeyView,
    e: EntryView,
    listed: Seq<Result<Key, ListError>>,
)
    requires
        post == pre.push(e),
        spec_parse_entry(e) == Ok::<KeyView, ListError>(k),
        listed.len() == post.len(),
        forall|i: int| 0 <= i < listed.len() ==> spec_key_result_view(#[trigger] listed[i])
            == spec_parse_entry(post[i]),
    ensures
        exists|i: int| 0 <= i < listed.len() && spec_key_result_view(#[trigger] listed[i])
            == Ok::<KeyView, ListError>(k),
{
    let last = listed.len() - 1;
    assert(post[last] == e);
    assert(spec_key_result_view(listed[last]) == Ok::<KeyView, ListError>(k));
}

/// Partial enumeration resilience: when storage holds exactly one bad item
/// among well-formed ones, the listing yields exactly one error element — at
/// the bad item's position — and every other element is its item's key.
pub proof fn lemma_list_isolates_bad_entry(
    entries: Seq<EntryView>,
    listed: Seq<Result<Key, ListError>>,
    bad: int,
)
    requires
        0 <= bad < entries.len(),
        spec_parse_entry(entries[bad]) is Err,
        forall|i: int| 0 <= i < entries.len() && i != bad ==> spec_parse_entry(
            #[trigger] entries[i],
        ) is Ok,
        listed.len() == entries.len(),
        forall|i: int| 0 <= i < listed.len() ==> spec_key_result_view(#[trigger] listed[i])
            == spec_parse_entry(entries[i]),
    ensures
        listed[bad] is Err,
        forall|i: int| 0 <= i < listed.len() && i != bad ==> (#[trigger] listed[i]) is Ok
            && spec_parse_entry(entries[i]) == Ok::<KeyView, ListError>(listed[i]->Ok_0@),
{
    assert forall|i: int| 0 <= i < listed.len() && i != bad implies (#[trigger] listed[i]) is Ok
        && spec_parse_entry(entries[i]) == Ok::<KeyView, ListError>(listed[i]->Ok_0@) by {
        assert(spec_key_result_view(listed[i]) == spec_parse_entry(entries[i]));
    }
}

} // verus!
