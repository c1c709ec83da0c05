//! Deterministic key identifiers.
//!
//! A key identifier is derived solely from the raw key material: the 16-byte
//! key encrypts one all-zero block (the key check value, KCV), and the first
//! 16 bytes of the SHAKE-128 output over that KCV form the identifier.

use vstd::prelude::*;

verus! {

use aes::cipher::{BlockEncrypt, KeyInit};
use sha3::digest::{ExtendableOutput, Update, XofReader};
use vstd::string::{StrSliceExecFns, StringExecFns};

/// AES-128 single-block encryption of `block` under `key`, as computed by the
/// `aes` crate. Both sequences are 16 bytes long.
pub uninterp spec fn aes128_block_of(key: Seq<u8>, block: Seq<u8>) -> Seq<u8>;

/// The first 16 bytes of the SHAKE-128 output over `input`, as computed by the
/// `sha3` crate.
pub uninterp spec fn shake128_16_of(input: Seq<u8>) -> Seq<u8>;

/// The all-zero block that every key check value encrypts.
pub open spec fn spec_zero_block() -> Seq<u8> {
    Seq::new(16, |i: int| 0u8)
}

/// The key check value of a 16-byte key: the zero block encrypted under it.
pub open spec fn spec_key_check_value(key: Seq<u8>) -> Seq<u8> {
    aes128_block_of(key, spec_zero_block())
}

/// The identifier derived from a 16-byte key: SHAKE-128 over its KCV.
pub open spec fn spec_derive_id(key: Seq<u8>) -> Seq<u8> {
    shake128_16_of(spec_key_check_value(key))
}

/// Relies on `aes::Aes128` (`KeyInit::new` and `BlockEncrypt::encrypt_block`):
/// AES-128 encryption of one 16-byte block, a function of key and block alone.
#[verifier::external_body]
fn aes128_encrypt_block(key: &[u8; 16], block: &[u8; 16]) -> (r: [u8; 16])
    ensures
        r@ == aes128_block_of(key@, block@),
{
    let mut out = *block;
    aes::Aes128::new(key.into()).encrypt_block((&mut out).into());
    out
}

/// Relies on `sha3::Shake128` (`Update::update`, `ExtendableOutput::finalize_xof`
/// and `XofReader::read`): the first 16 bytes of the SHAKE-128 output, a
/// function of the input bytes alone.
#[verifier::external_body]
fn shake128_16(input: &[u8]) -> (r: [u8; 16])
    ensures
        r@ == shake128_16_of(input@),
{
    let mut hasher = sha3::Shake128::default();
    let mut out = [0u8; 16];
    hasher.update(input);
    hasher.finalize_xof().read(&mut out);
    out
}

/// Unique identifier of a key, derived from the key material alone.
#[derive(Clone, Copy, Debug, PartialEq, Eq, Hash)]
pub struct KeyId([u8; 16]);

impl View for KeyId {
    type V = Seq<u8>;

    closed spec fn view(&self) -> Seq<u8> {
        self.0@
    }
}

impl KeyId {
    /// Wraps 16 identifier bytes.
    pub fn from_bytes(bytes: [u8; 16]) -> (r: KeyId)
        ensures
            r@ == bytes@,
    {
        KeyId(bytes)
    }

    /// The identifier bytes.
    pub fn as_bytes(&self) -> (r: &[u8; 16])
        ensures
            r@ == self@,
    {
        &self.0
    }

    /// Whether two identifiers hold the same bytes.
    pub fn same_id(&self, other: &KeyId) -> (r: bool)
        ensures
            r == (self@ == other@),
    {
        let mut i: usize = 0;
        while i < 16
            invariant
                0 <= i <= 16,
                forall|j: int| 0 <= j < i ==> self@[j] == other@[j],
            decreases 16 - i,
        {
            if self.0[i] != other.0[i] {
                return false;
            }
            i += 1;
        }
        proof {
            assert(self@ =~= other@);
        }
        true
    }

    /// Renders the identifier as 32 lowercase hex digits.
    pub fn to_hex(&self) -> (r: String)
        ensures
            r@ == spec_hex_of_bytes(self@),
    {
        let mut s = String::new();
        let mut i: usize = 0;
        while i < 16
            invariant
                0 <= i <= 16,
                s@.len() == 2 * i,
                forall|j: int| 0 <= j < s@.len() ==> s@[j] == spec_hex_of_bytes(self@)[j],
            decreases 16 - i,
        {
            let b = self.0[i];
            push_hex_digit(&mut s, b / 16);
            push_hex_digit(&mut s, b % 16);
            i += 1;
        }
        proof {
            assert(s@ =~= spec_hex_of_bytes(self@));
        }
        s
    }

    /// Reads an identifier back from its 32-digit hex rendering; `None` when
    /// the string has another length or a character that is no lowercase hex
    /// digit.
    pub fn from_hex(s: &str) -> (r: Option<KeyId>)
        ensures
            r matches Some(id) ==> spec_keyid_of_hex(s@) == Some(id@),
            r is None ==> spec_keyid_of_hex(s@) is None,
    {
        if s.unicode_len() != 32 {
            return None;
        }
        let mut bytes = [0u8; 16];
        let mut i: usize = 0;
        while i < 16
            invariant
                0 <= i <= 16,
                s@.len() == 32,
                forall|k: int| 0 <= k < 2 * i ==> #[trigger] spec_hex_val(s@[k]) is Some,
                forall|j: int| #![trigger bytes@[j]] 0 <= j < i ==> bytes@[j] == (spec_hex_val(
                    s@[2 * j],
                )->Some_0 * 16 + spec_hex_val(s@[2 * j + 1])->Some_0) as u8,
            decreases 16 - i,
        {
            let hi = match hex_val(s.get_char(2 * i)) {
                Some(v) => v,
                None => {
                    return None;
                },
            };
            let lo = match hex_val(s.get_char(2 * i + 1)) {
                Some(v) => v,
                None => {
                    return None;
                },
            };
            proof {
                assert(spec_hex_val(s@[2 * (i as int)]) == Some(hi));
                assert(spec_hex_val(s@[2 * (i as int) + 1]) == Some(lo));
                assert(hi < 16 && lo < 16);
            }
            bytes[i] = hi * 16 + lo;
            i += 1;
        }
        proof {
            assert(spec_keyid_of_hex(s@) is Some);
            assert(bytes@ =~= spec_keyid_of_hex(s@)->Some_0);
        }
        Some(KeyId(bytes))
    }
}

/// Reading a hex rendering back yields the bytes it was made from.
pub proof fn lemma_hex_round_trip(b: Seq<u8>)
    requires
        b.len() == 16,
    ensures
        spec_keyid_of_hex(spec_hex_of_bytes(b)) == Some(b),
{
    let h = spec_hex_of_bytes(b);
    assert(h.len() == 32);
    assert forall|n: u8| n < 16 implies spec_hex_val(spec_hex_digit(n)) == Some(n) by {}
    assert forall|k: int| 0 <= k < 32 implies spec_hex_val(h[k]) is Some by {
        assert(b[k / 2] / 16 < 16);
        assert(b[k / 2] % 16 < 16);
    }
    assert(spec_keyid_of_hex(h) is Some);
    assert forall|i: int| 0 <= i < 16 implies spec_keyid_of_hex(h)->Some_0[i] == b[i] by {
        assert((2 * i) % 2 == 0 && (2 * i) / 2 == i);
        assert((2 * i + 1) % 2 == 1 && (2 * i + 1) / 2 == i);
        assert(spec_hex_val(h[2 * i]) == Some(b[i] / 16));
        assert(spec_hex_val(h[2 * i + 1]) == Some(b[i] % 16));
        assert(b[i] / 16 * 16 + b[i] % 16 == b[i]) by {
            vstd::arithmetic::div_mod::lemma_fundamental_div_mod(b[i] as int, 16);
        }
    }
    assert(spec_keyid_of_hex(h)->Some_0 =~= b);
}

/// The lowercase hex digit of a value below 16.
pub open spec fn spec_hex_digit(n: u8) -> char
    recommends
        n < 16,
{
    if n == 0 { '0' } else if n == 1 { '1' } else if n == 2 { '2' } else if n == 3 { '3' }
    else if n == 4 { '4' } else if n == 5 { '5' } else if n == 6 { '6' } else if n == 7 { '7' }
    else if n == 8 { '8' } else if n == 9 { '9' } else if n == 10 { 'a' } else if n == 11 { 'b' }
    else if n == 12 { 'c' } else if n == 13 { 'd' } else if n == 14 { 'e' } else { 'f' }
}

/// The value of a lowercase hex digit; `None` for any other character.
pub open spec fn spec_hex_val(c: char) -> Option<u8> {
    if c == '0' { Some(0u8) } else if c == '1' { Some(1u8) } else if c == '2' { Some(2u8) }
    else if c == '3' { Some(3u8) } else if c == '4' { Some(4u8) } else if c == '5' { Some(5u8) }
    else if c == '6' { Some(6u8) } else if c == '7' { Some(7u8) } else if c == '8' { Some(8u8) }
    else if c == '9' { Some(9u8) } else if c == 'a' { Some(10u8) } else if c == 'b' { Some(11u8) }
    else if c == 'c' { Some(12u8) } else if c == 'd' { Some(13u8) } else if c == 'e' { Some(14u8) }
    else if c == 'f' { Some(15u8) } else { None }
}

/// The lowercase hex rendering of a byte string: two digits for each byte.
pub open spec fn spec_hex_of_bytes(b: Seq<u8>) -> Seq<char> {
    Seq::new(
        b.len() * 2,
        |i: int| if i % 2 == 0 { spec_hex_digit(b[i / 2] / 16) } else { spec_hex_digit(b[i / 2] % 16) },
    )
}

/// The 16 identifier bytes written in a 32-digit hex string; `None` when the
/// string has another length or holds a character that is no lowercase hex
/// digit.
pub open spec fn spec_keyid_of_hex(h: Seq<char>) -> Option<Seq<u8>> {
    if h.len() != 32 {
        None
    } else if exists|i: int| 0 <= i < 32 && spec_hex_val(h[i]) is None {
        None
    } else {
        Some(
            Seq::new(
                16,
                |i: int| (spec_hex_val(h[2 * i])->Some_0 * 16 + spec_hex_val(h[2 * i + 1])->Some_0) as u8,
            ),
        )
    }
}

/// Appends the hex digit of a value below 16.
fn push_hex_digit(s: &mut String, n: u8)
    requires
        n < 16,
    ensures
        final(s)@ == old(s)@.push(spec_hex_digit(n)),
{
    match n {
        0 => { s.append("0"); proof { reveal_strlit("0"); assert(s@ =~= old(s)@.push(spec_hex_digit(n))); } },
        1 => { s.append("1"); proof { reveal_strlit("1"); assert(s@ =~= old(s)@.push(spec_hex_digit(n))); } },
        2 => { s.append("2"); proof { reveal_strlit("2"); assert(s@ =~= old(s)@.push(spec_hex_digit(n))); } },
        3 => { s.append("3"); proof { reveal_strlit("3"); assert(s@ =~= old(s)@.push(spec_hex_digit(n))); } },
        4 => { s.append("4"); proof { reveal_strlit("4"); assert(s@ =~= old(s)@.push(spec_hex_digit(n))); } },
        5 => { s.append("5"); proof { reveal_strlit("5"); assert(s@ =~= old(s)@.push(spec_hex_digit(n))); } },
        6 => { s.append("6"); proof { reveal_strlit("6"); assert(s@ =~= old(s)@.push(spec_hex_digit(n))); } },
        7 => { s.append("7"); proof { reveal_strlit("7"); assert(s@ =~= old(s)@.push(spec_hex_digit(n))); } },
        8 => { s.append("8"); proof { reveal_strlit("8"); assert(s@ =~= old(s)@.push(spec_hex_digit(n))); } },
        9 => { s.append("9"); proof { reveal_strlit("9"); assert(s@ =~= old(s)@.push(spec_hex_digit(n))); } },
        10 => { s.append("a"); proof { reveal_strlit("a"); assert(s@ =~= old(s)@.push(spec_hex_digit(n))); } },
        11 => { s.append("b"); proof { reveal_strlit("b"); assert(s@ =~= old(s)@.push(spec_hex_digit(n))); } },
        12 => { s.append("c"); proof { reveal_strlit("c"); assert(s@ =~= old(s)@.push(spec_hex_digit(n))); } },
        13 => { s.append("d"); proof { reveal_strlit("d"); assert(s@ =~= old(s)@.push(spec_hex_digit(n))); } },
        14 => { s.append("e"); proof { reveal_strlit("e"); assert(s@ =~= old(s)@.push(spec_hex_digit(n))); } },
        _ => { s.append("f"); proof { reveal_strlit("f"); assert(s@ =~= old(s)@.push(spec_hex_digit(n))); } },
    }
}

/// The value of a lowercase hex digit; `None` for any other character.
fn hex_val(c: char) -> (r: Option<u8>)
    ensures
        r == spec_hex_val(c),
{
    match c {
        '0' => Some(0), '1' => Some(1), '2' => Some(2), '3' => Some(3),
        '4' => Some(4), '5' => Some(5), '6' => Some(6), '7' => Some(7),
        '8' => Some(8), '9' => Some(9), 'a' => Some(10), 'b' => Some(11),
        'c' => Some(12), 'd' => Some(13), 'e' => Some(14), 'f' => Some(15),
        _ => None,
    }
}

/// Computes the key check value of `key`: the all-zero block encrypted under it.
pub fn key_check_value(key: &[u8; 16]) -> (r: [u8; 16])
    ensures
        r@ == spec_key_check_value(key@),
{
    let zero = [0u8; 16];
    proof {
        assert(zero@ =~= spec_zero_block());
    }
    aes128_encrypt_block(key, &zero)
}

/// Turns a key check value (or any byte string) into an identifier: the first
/// 16 bytes of the SHAKE-128 output over it.
pub fn derive_id_from_kcv(kcv: &[u8]) -> (r: KeyId)
    ensures
        r@ == shake128_16_of(kcv@),
        r@.len() == 16,
{
    KeyId(shake128_16(kcv))
}

/// Derives the identifier of a 16-byte key: SHAKE-128 over the key check value.
pub fn derive_id(key: &[u8; 16]) -> (r: KeyId)
    ensures
        r@ == spec_derive_id(key@),
        r@.len() == 16,
{
    let kcv = key_check_value(key);
    derive_id_from_kcv(kcv.as_slice())
}

/// The derivation is deterministic: two identifiers derived from equal key
/// material are equal.
pub proof fn lemma_derive_id_deterministic(k1: Seq<u8>, k2: Seq<u8>, r1: Seq<u8>, r2: Seq<u8>)
    requires
        k1 == k2,
        r1 == spec_derive_id(k1),
        r2 == spec_derive_id(k2),
    ensures
        r1 == r2,
{
}

} // verus!
