//! Per-key metadata and its stored form.
//!
//! Every persisted key carries a tagged record of the algorithms it was made
//! for and its creation time. The record is stored as bytes beside the key
//! material; the encoding here is fixed so that future algorithm variants can
//! coexist with records already on disk, and so that a record with a tag this
//! version does not know is rejected per item, not globally.

use vstd::bytes::{
    lemma_auto_spec_u32_to_from_le_bytes, lemma_auto_spec_u64_to_from_le_bytes,
    spec_u32_to_le_bytes, spec_u64_to_le_bytes, u32_from_le_bytes, u32_to_le_bytes,
    u64_from_le_bytes, u64_to_le_bytes,
};
use vstd::prelude::*;
use vstd::slice::{slice_index_get, slice_subrange};

use crate::timestamp::{Timestamp, NANOS_PER_SEC};

verus! {

/// Key derivation algorithm recorded with a stored key.
#[derive(Clone, Copy, Debug, PartialEq, Eq, Structural)]
pub enum KeyDerivation {
    HkdfSha3256,
}

/// Encryption algorithm recorded with a stored key.
#[derive(Clone, Copy, Debug, PartialEq, Eq, Structural)]
pub enum Encryption {
    AesCtr128,
}

/// Message authentication code algorithm recorded with a stored key.
#[derive(Clone, Copy, Debug, PartialEq, Eq, Structural)]
pub enum Mac {
    HmacSha3256,
}

/// Metadata persisted beside a stored key.
#[derive(Clone, Copy, Debug, PartialEq, Eq, Structural)]
pub struct KeyData {
    pub kdf: KeyDerivation,
    pub enc: Encryption,
    pub mac: Option<Mac>,
    pub created: Timestamp,
}

impl KeyData {
    /// A well-formed record carries a well-formed creation time.
    pub open spec fn wf(&self) -> bool {
        self.created.wf()
    }
}

/// Stored tag of the HKDF/SHA3-256 key derivation.
pub const TAG_KDF_HKDF_SHA3_256: u8 = 1;

/// Stored tag of the AES-CTR-128 encryption.
pub const TAG_ENC_AES_CTR_128: u8 = 1;

/// Stored tag of an absent MAC.
pub const TAG_MAC_NONE: u8 = 0;

/// Stored tag of the HMAC/SHA3-256 MAC.
pub const TAG_MAC_HMAC_SHA3_256: u8 = 1;

/// Length in bytes of an encoded record: three tags, seconds, nanoseconds.
pub const KEY_DATA_LEN: usize = 15;

/// The stored tag of a key derivation algorithm.
pub open spec fn spec_kdf_tag(kdf: KeyDerivation) -> u8 {
    TAG_KDF_HKDF_SHA3_256
}

/// The stored tag of an encryption algorithm.
pub open spec fn spec_enc_tag(enc: Encryption) -> u8 {
    TAG_ENC_AES_CTR_128
}

/// The stored tag of an optional MAC algorithm.
pub open spec fn spec_mac_tag(mac: Option<Mac>) -> u8 {
    match mac {
        None => TAG_MAC_NONE,
        Some(Mac::HmacSha3256) => TAG_MAC_HMAC_SHA3_256,
    }
}

/// The encoded form of a record: the three algorithm tags, then the creation
/// time as little-endian seconds and nanoseconds.
pub open spec fn spec_encode_key_data(d: KeyData) -> Seq<u8> {
    seq![spec_kdf_tag(d.kdf), spec_enc_tag(d.enc), spec_mac_tag(d.mac)]
        + spec_u64_to_le_bytes(d.created.secs) + spec_u32_to_le_bytes(d.created.nanos)
}

/// Decodes a record: `None` for a corrupt record or one carrying a tag this
/// version does not recognize.
pub open spec fn spec_decode_key_data(bytes: Seq<u8>) -> Option<KeyData> {
    if bytes.len() != KEY_DATA_LEN {
        None
    } else if bytes[0] != TAG_KDF_HKDF_SHA3_256 || bytes[1] != TAG_ENC_AES_CTR_128 {
        None
    } else if bytes[2] != TAG_MAC_NONE && bytes[2] != TAG_MAC_HMAC_SHA3_256 {
        None
    } else {
        let secs = vstd::bytes::spec_u64_from_le_bytes(bytes.subrange(3, 11));
        let nanos = vstd::bytes::spec_u32_from_le_bytes(bytes.subrange(11, 15));
        if nanos >= NANOS_PER_SEC {
            None
        } else {
            Some(KeyData {
                kdf: KeyDerivation::HkdfSha3256,
                enc: Encryption::AesCtr128,
                mac: if bytes[2] == TAG_MAC_NONE { None } else { Some(Mac::HmacSha3256) },
                created: Timestamp { secs, nanos },
            })
        }
    }
}

/// Encodes a record for storage.
pub fn encode_key_data(d: &KeyData) -> (r: Vec<u8>)
    ensures
        r@ == spec_encode_key_data(*d),
        r@.len() == KEY_DATA_LEN,
{
    let mut out: Vec<u8> = Vec::new();
    match d.kdf {
        KeyDerivation::HkdfSha3256 => out.push(TAG_KDF_HKDF_SHA3_256),
    }
    match d.enc {
        Encryption::AesCtr128 => out.push(TAG_ENC_AES_CTR_128),
    }
    match d.mac {
        None => out.push(TAG_MAC_NONE),
        Some(Mac::HmacSha3256) => out.push(TAG_MAC_HMAC_SHA3_256),
    }
    let mut secs = u64_to_le_bytes(d.created.secs);
    out.append(&mut secs);
    let mut nanos = u32_to_le_bytes(d.created.nanos);
    out.append(&mut nanos);
    proof {
        assert(out@ =~= spec_encode_key_data(*d));
    }
    out
}

/// Decodes a stored record; `None` if it is corrupt or carries an
/// unrecognized tag.
pub fn decode_key_data(bytes: &[u8]) -> (r: Option<KeyData>)
    ensures
        r == spec_decode_key_data(bytes@),
        r matches Some(d) ==> d.wf(),
{
    if bytes.len() != KEY_DATA_LEN {
        return None;
    }
    let kdf_tag = *slice_index_get(bytes, 0);
    let enc_tag = *slice_index_get(bytes, 1);
    let mac_tag = *slice_index_get(bytes, 2);
    if kdf_tag != TAG_KDF_HKDF_SHA3_256 || enc_tag != TAG_ENC_AES_CTR_128 {
        return None;
    }
    if mac_tag != TAG_MAC_NONE && mac_tag != TAG_MAC_HMAC_SHA3_256 {
        return None;
    }
    let secs = u64_from_le_bytes(slice_subrange(bytes, 3, 11));
    let nanos = u32_from_le_bytes(slice_subrange(bytes, 11, 15));
    if nanos >= NANOS_PER_SEC {
        return None;
    }
    Some(KeyData {
        kdf: KeyDerivation::HkdfSha3256,
        enc: Encryption::AesCtr128,
        mac: if mac_tag == TAG_MAC_NONE { None } else { Some(Mac::HmacSha3256) },
        created: Timestamp { secs, nanos },
    })
}

/// Decoding inverts encoding: a well-formed record read back from its own
/// stored form comes back unchanged.
pub proof fn lemma_key_data_round_trip(d: KeyData)
    requires
        d.wf(),
    ensures
        spec_decode_key_data(spec_encode_key_data(d)) == Some(d),
{
    lemma_auto_spec_u64_to_from_le_bytes();
    lemma_auto_spec_u32_to_from_le_bytes();
    let e = spec_encode_key_data(d);
    assert(e.len() == KEY_DATA_LEN);
    assert(e[0] == spec_kdf_tag(d.kdf));
    assert(e[1] == spec_enc_tag(d.enc));
    assert(e[2] == spec_mac_tag(d.mac));
    assert(e.subrange(3, 11) =~= spec_u64_to_le_bytes(d.created.secs));
    assert(e.subrange(11, 15) =~= spec_u32_to_le_bytes(d.created.nanos));
    let r = spec_decode_key_data(e);
    match d.mac {
        None => {
            assert(e[2] == TAG_MAC_NONE);
        },
        Some(m) => {
            assert(m == Mac::HmacSha3256);
            assert(e[2] == TAG_MAC_HMAC_SHA3_256);
            assert(r matches Some(rd) && rd.mac == Some(Mac::HmacSha3256));
        },
    }
    assert(r matches Some(rd) && rd.created == d.created);
    assert(r == Some(d));
}

} // verus!
