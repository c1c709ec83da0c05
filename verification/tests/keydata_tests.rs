//! The stored metadata record and its codec.

use warp_keys::keydata::{
    decode_key_data, encode_key_data, Encryption, KeyData, KeyDerivation, Mac,
};
use warp_keys::timestamp::Timestamp;

fn sample() -> KeyData {
    KeyData {
        kdf: KeyDerivation::HkdfSha3256,
        enc: Encryption::AesCtr128,
        mac: Some(Mac::HmacSha3256),
        created: Timestamp::new(1_234_567_890, 123_456_789),
    }
}

#[test]
fn encode_known_value() {
    let bytes = encode_key_data(&sample());
    // Three algorithm tags, then 1234567890 and 123456789 in little endian.
    assert_eq!(
        bytes,
        vec![1, 1, 1, 0xd2, 0x02, 0x96, 0x49, 0x00, 0x00, 0x00, 0x00, 0x15, 0xcd, 0x5b, 0x07]
    );
}

#[test]
fn round_trip_with_mac() {
    let d = sample();
    let bytes = encode_key_data(&d);
    assert_eq!(decode_key_data(&bytes), Some(d));
}

#[test]
fn round_trip_without_mac() {
    let d = KeyData { mac: None, ..sample() };
    let bytes = encode_key_data(&d);
    assert_eq!(bytes[2], 0);
    assert_eq!(decode_key_data(&bytes), Some(d));
}

#[test]
fn decode_rejects_wrong_length() {
    assert_eq!(decode_key_data(&[]), None);
    assert_eq!(decode_key_data(&[1, 1, 1]), None);
    let mut long = encode_key_data(&sample());
    long.push(0);
    assert_eq!(decode_key_data(&long), None);
}

#[test]
fn decode_rejects_unknown_tags() {
    let good = encode_key_data(&sample());

    let mut bad_kdf = good.clone();
    bad_kdf[0] = 2;
    assert_eq!(decode_key_data(&bad_kdf), None);

    let mut bad_enc = good.clone();
    bad_enc[1] = 0;
    assert_eq!(decode_key_data(&bad_enc), None);

    let mut bad_mac = good.clone();
    bad_mac[2] = 9;
    assert_eq!(decode_key_data(&bad_mac), None);
}

#[test]
fn round_trip_at_the_edges() {
    let d = KeyData { created: Timestamp::new(u64::MAX, 999_999_999), ..sample() };
    assert_eq!(decode_key_data(&encode_key_data(&d)), Some(d));
    let d0 = KeyData { created: Timestamp::new(0, 0), mac: None, ..sample() };
    assert_eq!(decode_key_data(&encode_key_data(&d0)), Some(d0));
}

#[test]
fn decode_rejects_overflowing_nanos() {
    let mut bytes = encode_key_data(&sample());
    // 1_000_000_000 nanoseconds, one whole second, in little endian.
    bytes[11] = 0x00;
    bytes[12] = 0xca;
    bytes[13] = 0x9a;
    bytes[14] = 0x3b;
    assert_eq!(decode_key_data(&bytes), None);
}
