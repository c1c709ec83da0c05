//! Identifier derivation and its hex rendering.

use warp_keys::keyid::{derive_id, derive_id_from_kcv, key_check_value, KeyId};

/// AES-128 of the all-zero block under the all-zero key, a published vector.
const KCV_OF_ZERO_KEY: [u8; 16] = [
    0x66, 0xe9, 0x4b, 0xd4, 0xef, 0x8a, 0x2c, 0x3b, 0x88, 0x4c, 0xfa, 0x59, 0xca, 0x34, 0x2b,
    0x2e,
];

/// The first 16 bytes of SHAKE-128 over the empty string, a published vector.
const SHAKE128_EMPTY_16: [u8; 16] = [
    0x7f, 0x9c, 0x2b, 0xa4, 0xe8, 0x8f, 0x82, 0x7d, 0x61, 0x60, 0x45, 0x50, 0x76, 0x05, 0x85,
    0x3e,
];

#[test]
fn derive_id_is_deterministic() {
    let key = [0x42u8; 16];
    let a = derive_id(&key);
    let b = derive_id(&key);
    assert_eq!(a, b);
    assert_eq!(a.to_hex(), b.to_hex());
}

#[test]
fn derive_id_distinguishes_fixed_keys() {
    let k1 = [0u8; 16];
    let mut k2 = [0u8; 16];
    k2[15] = 1;
    assert_ne!(derive_id(&k1), derive_id(&k2));
}

#[test]
fn known_answer_key_check_value() {
    let kcv = key_check_value(&[0u8; 16]);
    assert_eq!(kcv, KCV_OF_ZERO_KEY);
}

#[test]
fn known_answer_shake128_empty() {
    let id = derive_id_from_kcv(&[]);
    assert_eq!(*id.as_bytes(), SHAKE128_EMPTY_16);
}

#[test]
fn known_answer_composition() {
    // The identifier of the all-zero key is SHAKE-128 over its published KCV,
    // computable from the vector without running the cipher again.
    let id = derive_id(&[0u8; 16]);
    let expected = derive_id_from_kcv(&KCV_OF_ZERO_KEY);
    assert_eq!(id, expected);
}

#[test]
fn to_hex_known_value() {
    let id = KeyId::from_bytes([
        0x00, 0x01, 0x02, 0x03, 0x04, 0x05, 0x06, 0x07, 0x08, 0x09, 0x0a, 0xab, 0xcd, 0xef,
        0xfe, 0xff,
    ]);
    assert_eq!(id.to_hex(), "000102030405060708090aabcdeffeff");
}

#[test]
fn to_hex_pads_every_byte() {
    let id = KeyId::from_bytes([0u8; 16]);
    assert_eq!(id.to_hex(), "00000000000000000000000000000000");
}

#[test]
fn hex_round_trip() {
    let id = KeyId::from_bytes([
        0xde, 0xad, 0xbe, 0xef, 0x00, 0x11, 0x22, 0x33, 0x44, 0x55, 0x66, 0x77, 0x88, 0x99,
        0xaa, 0xbb,
    ]);
    let h = id.to_hex();
    assert_eq!(h.len(), 32);
    let back = KeyId::from_hex(&h).expect("the rendering parses back");
    assert_eq!(back, id);
}

#[test]
fn from_hex_rejects_bad_input() {
    assert!(KeyId::from_hex("").is_none());
    assert!(KeyId::from_hex("00").is_none());
    // 31 and 33 digits.
    assert!(KeyId::from_hex("0000000000000000000000000000000").is_none());
    assert!(KeyId::from_hex("000000000000000000000000000000000").is_none());
    // Uppercase is not the rendering this store writes.
    assert!(KeyId::from_hex("000102030405060708090AABCDEFFEFF").is_none());
    // A character that is no hex digit.
    assert!(KeyId::from_hex("000102030405060708090aabcdeffefg").is_none());
}

#[test]
fn from_hex_accepts_all_digits() {
    let h = "0123456789abcdef0123456789abcdef";
    let id = KeyId::from_hex(h).expect("all lowercase hex digits parse");
    assert_eq!(id.to_hex(), h);
}
