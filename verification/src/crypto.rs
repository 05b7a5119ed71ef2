//! The keyed digest, its hexadecimal rendering, and constant-time equality.
//!
//! The digest and its encoding come from outside crates; everything stated
//! about them is carried by the two trusted wrappers below.

use vstd::prelude::*;

use crate::numeral::digit_char;
use hmac::{Hmac, KeyInit, Mac};

verus! {

/// The HMAC-SHA-256 tag of `msg` under `key`: a pure function of the two,
/// identical on every machine, named here and never spelled out.
pub uninterp spec fn hmac_sha256(key: Seq<u8>, msg: Seq<u8>) -> Seq<u8>;

/// Relies on `hmac::Hmac<sha2::Sha256>` (HMAC over SHA-256): the 32-byte tag
/// is a function of key and message alone, and `new_from_slice` accepts keys
/// of any length, so the call cannot fail.
#[verifier::external_body]
pub(crate) fn hmac_sha256_tag(key: &[u8], msg: &[u8]) -> (r: Vec<u8>)
    ensures
        r@ == hmac_sha256(key@, msg@),
        r@.len() == 32,
{
    let mut mac = <Hmac<sha2::Sha256> as KeyInit>::new_from_slice(key).expect(
        "HMAC accepts keys of any length",
    );
    mac.update(msg);
    mac.finalize().into_bytes().as_slice().to_vec()
}

/// The lowercase hexadecimal digit for a value in `0 ..= 15`.
pub open spec fn hex_digit_char(d: int) -> char {
    if d < 10 {
        digit_char(d)
    } else if d == 10 {
        'a'
    } else if d == 11 {
        'b'
    } else if d == 12 {
        'c'
    } else if d == 13 {
        'd'
    } else if d == 14 {
        'e'
    } else {
        'f'
    }
}

/// The lowercase hexadecimal rendering of a byte string, high nibble first.
pub open spec fn spec_hex_chars(data: Seq<u8>) -> Seq<char>
    decreases data.len(),
{
    if data.len() == 0 {
        Seq::empty()
    } else {
        seq![
            hex_digit_char(data.first() as int / 16),
            hex_digit_char(data.first() as int % 16),
        ] + spec_hex_chars(data.drop_first())
    }
}

/// Relies on `hex::encode`: every byte becomes two lowercase hexadecimal
/// digits, high nibble first.
#[verifier::external_body]
pub(crate) fn hex_lower(data: &[u8]) -> (r: String)
    ensures
        r@ == spec_hex_chars(data@),
{
    hex::encode(data)
}

/// Hexadecimal output never contains a separator of the header format.
pub proof fn lemma_hex_chars_plain(data: Seq<u8>)
    ensures
        spec_hex_chars(data).len() == 2 * data.len(),
        forall|i: int|
            0 <= i < spec_hex_chars(data).len() ==> spec_hex_chars(data)[i] != ','
                && spec_hex_chars(data)[i] != '=',
    decreases data.len(),
{
    if data.len() > 0 {
        lemma_hex_chars_plain(data.drop_first());
        let s = spec_hex_chars(data);
        let h0 = hex_digit_char(data.first() as int / 16);
        let h1 = hex_digit_char(data.first() as int % 16);
        assert(h0 != ',' && h0 != '=' && h1 != ',' && h1 != '=');
        assert(forall|i: int|
            2 <= i < s.len() ==> s[i] == spec_hex_chars(data.drop_first())[i - 2]);
    }
}

/// Compares two strings in time that depends only on their lengths, never on
/// the position of the first differing character.
pub fn constant_time_eq_str(a: &str, b: &str) -> (r: bool)
    ensures
        r == (a@ == b@),
{
    let alen = a.unicode_len();
    let blen = b.unicode_len();
    if alen != blen {
        proof {
            assert(a@ != b@);
        }
        return false;
    }
    let mut diff: u32 = 0;
    let mut i: usize = 0;
    proof {
        assert(a@.take(0) =~= b@.take(0));
    }
    while i < alen
        invariant
            0 <= i <= alen,
            alen == a@.len(),
            alen == b@.len(),
            (diff == 0) <==> (a@.take(i as int) == b@.take(i as int)),
        decreases alen - i,
    {
        let ca = a.get_char(i) as u32;
        let cb = b.get_char(i) as u32;
        let x = ca ^ cb;
        let ghost prev = diff;
        diff = diff | x;
        proof {
            assert((prev | x) == 0 <==> prev == 0 && x == 0) by (bit_vector);
            assert((ca ^ cb) == 0 <==> ca == cb) by (bit_vector);
            if diff == 0 {
                assert(a@[i as int] as u32 == b@[i as int] as u32);
                assert(a@[i as int] == b@[i as int]);
                assert(a@.take(i + 1) =~= b@.take(i + 1));
            } else {
                if prev == 0 {
                    assert(a@.take(i + 1)[i as int] != b@.take(i + 1)[i as int]);
                } else {
                    if a@.take(i + 1) == b@.take(i + 1) {
                        assert(a@.take(i as int) =~= a@.take(i + 1).take(i as int));
                        assert(b@.take(i as int) =~= b@.take(i + 1).take(i as int));
                        assert(false);
                    }
                }
            }
        }
        i = i + 1;
    }
    proof {
        assert(a@.take(alen as int) =~= a@);
        assert(b@.take(alen as int) =~= b@);
    }
    diff == 0
}

} // verus!
