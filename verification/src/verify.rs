//! The signature verifier: given the raw body, the signature header value,
//! the shared secret and the clock, decide authentic-or-rejected.
//!
//! The verdict is a pure function of those inputs, stated by `verify_spec`.

use vstd::prelude::*;
use vstd::slice::slice_to_vec;

use crate::crypto::constant_time_eq_str;
use crate::crypto::hex_lower;
use crate::crypto::hmac_sha256;
use crate::crypto::hmac_sha256_tag;
use crate::crypto::lemma_hex_chars_plain;
use crate::crypto::spec_hex_chars;
use crate::errors::AuthError;
use crate::header::any_pair;
use crate::header::eq_segments;
use crate::header::is_pair;
use crate::header::is_t_pair;
use crate::header::is_v1_pair;
use crate::header::pair_key;
use crate::header::pair_val;
use crate::header::parse_header_spec;
use crate::header::parse_signature_header;
use crate::header::signatures_of_parts;
use crate::header::timestamp_of_parts;
use crate::header::HeaderModel;
use crate::numeral::dec_i64_bytes;
use crate::numeral::dec_i64_chars;
use crate::numeral::dec_nat_chars;
use crate::numeral::format_i64;
use crate::numeral::lemma_dec_nat_chars;
use crate::numeral::lemma_digits_not_separators;
use crate::numeral::lemma_parse_of_rendered;
use crate::numeral::spec_parse_i64;
use crate::text::lemma_split_at_sep;
use crate::text::lemma_split_clean;
use crate::text::split_chars;

verus! {

/// Replay-protection window applied when no other tolerance is chosen.
pub const DEFAULT_TOLERANCE_SECONDS: i64 = 300;

/// The exact bytes the provider signs: the decimal timestamp, one dot, then
/// the body in its received form.
pub open spec fn signed_payload(t: int, body: Seq<u8>) -> Seq<u8> {
    dec_i64_bytes(t) + seq![46u8] + body
}

/// The signature the verifier derives, as lowercase hexadecimal characters.
pub open spec fn expected_sig_chars(secret: Seq<u8>, t: int, body: Seq<u8>) -> Seq<char> {
    spec_hex_chars(hmac_sha256(secret, signed_payload(t, body)))
}

pub open spec fn abs_diff(a: int, b: int) -> int {
    if a >= b {
        a - b
    } else {
        b - a
    }
}

pub open spec fn some_candidate_matches(sigs: Seq<Seq<char>>, expected: Seq<char>) -> bool {
    exists|i: int| 0 <= i < sigs.len() && sigs[i] == expected
}

/// The verification verdict as a function of body, header, secret and clock.
pub open spec fn verify_spec(
    body: Seq<u8>,
    header: Seq<char>,
    secret: Seq<u8>,
    now: int,
    tolerance: int,
) -> Result<(), AuthError> {
    match parse_header_spec(header) {
        Err(e) => Err(e),
        Ok(h) => {
            if abs_diff(now, h.timestamp as int) > tolerance {
                Err(AuthError::StaleTimestamp)
            } else if some_candidate_matches(
                h.signatures,
                expected_sig_chars(secret, h.timestamp as int, body),
            ) {
                Ok(())
            } else {
                Err(AuthError::SignatureMismatch)
            }
        },
    }
}

/// Decides whether a request is authentic: parses the header, bounds the
/// replay window, recomputes the keyed digest over the received bytes and
/// compares it against every candidate in constant time per candidate.
pub fn verify(
    body: &[u8],
    header_value: &str,
    secret: &[u8],
    now: i64,
    tolerance_seconds: i64,
) -> (r: Result<(), AuthError>)
    requires
        tolerance_seconds >= 0,
    ensures
        r == verify_spec(body@, header_value@, secret@, now as int, tolerance_seconds as int),
{
    let header = match parse_signature_header(header_value) {
        Ok(h) => h,
        Err(e) => {
            return Err(e);
        },
    };
    let t = header.timestamp;
    let diff: i128 = now as i128 - t as i128;
    let stale = if diff >= 0 {
        diff > tolerance_seconds as i128
    } else {
        -diff > tolerance_seconds as i128
    };
    if stale {
        return Err(AuthError::StaleTimestamp);
    }
    let mut msg = format_i64(t);
    msg.push(46);
    let mut body_copy = slice_to_vec(body);
    msg.append(&mut body_copy);
    proof {
        assert(msg@ =~= signed_payload(t as int, body@));
    }
    let tag = hmac_sha256_tag(secret, msg.as_slice());
    let expected = hex_lower(tag.as_slice());
    let ghost goal = expected_sig_chars(secret@, t as int, body@);
    let mut k: usize = 0;
    while k < header.signatures.len()
        invariant
            0 <= k <= header.signatures.len(),
            expected@ == goal,
            parse_header_spec(header_value@) == Ok::<HeaderModel, AuthError>(header.model()),
            abs_diff(now as int, header.timestamp as int) <= tolerance_seconds as int,
            goal == expected_sig_chars(secret@, header.timestamp as int, body@),
            forall|j: int| 0 <= j < k ==> header.signatures.deep_view()[j] != goal,
        decreases header.signatures.len() - k,
    {
        proof {
            assert(header.signatures.deep_view()[k as int] == header.signatures@[k as int]@);
        }
        if constant_time_eq_str(header.signatures[k].as_str(), expected.as_str()) {
            proof {
                assert(some_candidate_matches(header.model().signatures, goal)) by {
                    assert(header.signatures.deep_view()[k as int] == goal);
                }
            }
            return Ok(());
        }
        k = k + 1;
    }
    proof {
        assert(!some_candidate_matches(header.model().signatures, goal));
    }
    Err(AuthError::SignatureMismatch)
}

/// `verify` with the provider's documented default window of 300 seconds.
pub fn verify_default(body: &[u8], header_value: &str, secret: &[u8], now: i64) -> (r: Result<
    (),
    AuthError,
>)
    ensures
        r == verify_spec(
            body@,
            header_value@,
            secret@,
            now as int,
            DEFAULT_TOLERANCE_SECONDS as int,
        ),
{
    verify(body, header_value, secret, now, DEFAULT_TOLERANCE_SECONDS)
}

/// The header the provider sends for one signature: `t=<ts>,v1=<sig>`.
pub open spec fn canonical_header_chars(t: int, sig: Seq<char>) -> Seq<char> {
    seq!['t', '='] + dec_i64_chars(t) + seq![','] + seq!['v', '1', '='] + sig
}

/// The rendered timestamp never contains a separator of the header format.
proof fn lemma_dec_chars_plain(t: int)
    ensures
        forall|i: int|
            0 <= i < dec_i64_chars(t).len() ==> dec_i64_chars(t)[i] != ','
                && dec_i64_chars(t)[i] != '=',
{
    if t < 0 {
        lemma_dec_nat_chars(-t);
        lemma_digits_not_separators(dec_nat_chars(-t));
        assert(forall|i: int|
            1 <= i < dec_i64_chars(t).len() ==> dec_i64_chars(t)[i] == dec_nat_chars(-t)[i - 1]);
        assert(dec_i64_chars(t)[0] == '-');
    } else {
        lemma_dec_nat_chars(t);
        lemma_digits_not_separators(dec_nat_chars(t));
    }
}

/// Law: the canonical header parses to its timestamp and its one candidate.
pub proof fn lemma_canonical_header_parses(t: i64, sig: Seq<char>)
    requires
        forall|i: int| 0 <= i < sig.len() ==> sig[i] != ',' && sig[i] != '=',
    ensures
        parse_header_spec(canonical_header_chars(t as int, sig)) == Ok::<
            HeaderModel,
            AuthError,
        >(HeaderModel { timestamp: t, signatures: seq![sig] }),
{
    let dec = dec_i64_chars(t as int);
    let a = seq!['t', '='] + dec;
    let b = seq!['v', '1', '='] + sig;
    let header = canonical_header_chars(t as int, sig);
    lemma_dec_chars_plain(t as int);
    assert(header =~= a + seq![','] + b);
    assert(forall|i: int| 0 <= i < a.len() ==> a[i] != ',') by {
        assert(a[0] == 't' && a[1] == '=');
        assert(forall|i: int| 2 <= i < a.len() ==> a[i] == dec[i - 2]);
    }
    assert(forall|i: int| 0 <= i < b.len() ==> b[i] != ',') by {
        assert(b[0] == 'v' && b[1] == '1' && b[2] == '=');
        assert(forall|i: int| 3 <= i < b.len() ==> b[i] == sig[i - 3]);
    }
    lemma_split_at_sep(a, b, ',');
    lemma_split_clean(b, ',');
    let parts = split_chars(header, ',');
    assert(parts =~= seq![a, b]);

    // `a` reads as the pair `t=<digits>`
    assert(a =~= seq!['t'] + seq!['='] + dec);
    assert(forall|i: int| 0 <= i < dec.len() ==> dec[i] != '=');
    lemma_split_at_sep(seq!['t'], dec, '=');
    lemma_split_clean(dec, '=');
    assert(eq_segments(a) == seq![seq!['t'], dec]);
    assert(is_t_pair(a) && pair_val(a) == dec);

    // `b` reads as the pair `v1=<sig>`
    assert(b =~= seq!['v', '1'] + seq!['='] + sig);
    lemma_split_at_sep(seq!['v', '1'], sig, '=');
    lemma_split_clean(sig, '=');
    assert(eq_segments(b) == seq![seq!['v', '1'], sig]);
    assert(is_v1_pair(b) && pair_val(b) == sig);
    assert(pair_key(b).len() == 2);
    assert(!is_t_pair(b));
    assert(pair_key(a).len() == 1);
    assert(!is_v1_pair(a));

    // fold the two pieces
    assert(parts.drop_last() =~= seq![a]);
    assert(parts.last() == b);
    assert(seq![a].drop_last() =~= Seq::<Seq<char>>::empty());
    lemma_parse_of_rendered(t);
    assert(timestamp_of_parts(seq![a]) == spec_parse_i64(dec));
    assert(timestamp_of_parts(parts) == timestamp_of_parts(seq![a]));
    assert(timestamp_of_parts(parts) == Some(t));
    assert(signatures_of_parts(Seq::empty()) =~= Seq::<Seq<char>>::empty());
    assert(signatures_of_parts(seq![a]) =~= Seq::<Seq<char>>::empty());
    assert(signatures_of_parts(parts) =~= seq![sig]);
    assert(any_pair(parts)) by {
        assert(is_pair(parts[0]));
    }
}

/// Law: for any valid timestamp, body and secret, a request carrying the
/// correctly derived signature over `"{timestamp}.{body}"` verifies when the
/// clock reads the timestamp itself.
pub proof fn lemma_correctly_signed_request_verifies(
    body: Seq<u8>,
    secret: Seq<u8>,
    t: i64,
    tolerance: int,
)
    requires
        tolerance >= 0,
    ensures
        verify_spec(
            body,
            canonical_header_chars(t as int, expected_sig_chars(secret, t as int, body)),
            secret,
            t as int,
            tolerance,
        ) == Ok::<(), AuthError>(()),
{
    let sig = expected_sig_chars(secret, t as int, body);
    lemma_hex_chars_plain(hmac_sha256(secret, signed_payload(t as int, body)));
    lemma_canonical_header_parses(t, sig);
    let h = parse_header_spec(canonical_header_chars(t as int, sig))->Ok_0;
    assert(abs_diff(t as int, h.timestamp as int) == 0);
    assert(some_candidate_matches(h.signatures, sig)) by {
        assert(h.signatures[0] == sig);
    }
}

/// Law: outside the replay window the verdict is `StaleTimestamp`, even when
/// a candidate carries the correctly derived signature.
pub proof fn lemma_stale_timestamp_rejected(
    body: Seq<u8>,
    header: Seq<char>,
    secret: Seq<u8>,
    now: int,
    tolerance: int,
)
    requires
        parse_header_spec(header) is Ok,
        abs_diff(now, parse_header_spec(header)->Ok_0.timestamp as int) > tolerance,
    ensures
        verify_spec(body, header, secret, now, tolerance) == Err::<(), AuthError>(
            AuthError::StaleTimestamp,
        ),
{
}

/// Law: one matching candidate suffices, wherever it stands among the
/// others; the order of header entries cannot change the verdict.
pub proof fn lemma_any_matching_candidate_verifies(
    body: Seq<u8>,
    header: Seq<char>,
    secret: Seq<u8>,
    now: int,
    tolerance: int,
    k: int,
)
    requires
        parse_header_spec(header) is Ok,
        abs_diff(now, parse_header_spec(header)->Ok_0.timestamp as int) <= tolerance,
        0 <= k < parse_header_spec(header)->Ok_0.signatures.len(),
        parse_header_spec(header)->Ok_0.signatures[k] == expected_sig_chars(
            secret,
            parse_header_spec(header)->Ok_0.timestamp as int,
            body,
        ),
    ensures
        verify_spec(body, header, secret, now, tolerance) == Ok::<(), AuthError>(()),
{
    let h = parse_header_spec(header)->Ok_0;
    assert(some_candidate_matches(
        h.signatures,
        expected_sig_chars(secret, h.timestamp as int, body),
    )) by {
        assert(h.signatures[k] == expected_sig_chars(secret, h.timestamp as int, body));
    }
}

/// Law: parsing keeps every `v1` value, so no candidate is ever dropped.
pub proof fn lemma_signatures_complete(parts: Seq<Seq<char>>, i: int)
    requires
        0 <= i < parts.len(),
        is_v1_pair(parts[i]),
    ensures
        signatures_of_parts(parts).contains(pair_val(parts[i])),
    decreases parts.len(),
{
    if i == parts.len() - 1 {
        assert(signatures_of_parts(parts).last() == pair_val(parts[i]));
    } else {
        assert(parts.drop_last()[i] == parts[i]);
        lemma_signatures_complete(parts.drop_last(), i);
        let v = pair_val(parts[i]);
        let w = choose|j: int|
            0 <= j < signatures_of_parts(parts.drop_last()).len() && signatures_of_parts(
                parts.drop_last(),
            )[j] == v;
        if is_v1_pair(parts.last()) {
            assert(signatures_of_parts(parts)[w] == v);
        } else {
            assert(signatures_of_parts(parts)[w] == v);
        }
    }
}

/// Law: a header with parseable pairs but no usable timestamp is rejected as
/// `MissingTimestamp` under every secret and every body alike: the verdict
/// never consults the keyed digest.
pub proof fn lemma_missing_timestamp_uniform(
    body1: Seq<u8>,
    body2: Seq<u8>,
    header: Seq<char>,
    secret1: Seq<u8>,
    secret2: Seq<u8>,
    now: int,
    tolerance: int,
)
    requires
        any_pair(split_chars(header, ',')),
        timestamp_of_parts(split_chars(header, ',')) is None,
    ensures
        verify_spec(body1, header, secret1, now, tolerance) == Err::<(), AuthError>(
            AuthError::MissingTimestamp,
        ),
        verify_spec(body2, header, secret2, now, tolerance) == Err::<(), AuthError>(
            AuthError::MissingTimestamp,
        ),
{
}

/// Law: a fresh request whose candidates all differ from the digest derived
/// from the presented body is rejected as `SignatureMismatch`; so is any
/// body whose change changed the digest.
pub proof fn lemma_unmatched_signature_rejected(
    body: Seq<u8>,
    header: Seq<char>,
    secret: Seq<u8>,
    now: int,
    tolerance: int,
)
    requires
        parse_header_spec(header) is Ok,
        abs_diff(now, parse_header_spec(header)->Ok_0.timestamp as int) <= tolerance,
        !some_candidate_matches(
            parse_header_spec(header)->Ok_0.signatures,
            expected_sig_chars(secret, parse_header_spec(header)->Ok_0.timestamp as int, body),
        ),
    ensures
        verify_spec(body, header, secret, now, tolerance) == Err::<(), AuthError>(
            AuthError::SignatureMismatch,
        ),
{
}

/// Law: success pins the signature: the verifier accepts only when some
/// candidate equals the digest derived from the presented body, so any body
/// change that changes the digest forces `SignatureMismatch`.
pub proof fn lemma_success_pins_signature(
    body: Seq<u8>,
    header: Seq<char>,
    secret: Seq<u8>,
    now: int,
    tolerance: int,
)
    requires
        verify_spec(body, header, secret, now, tolerance) is Ok,
    ensures
        parse_header_spec(header) is Ok,
        some_candidate_matches(
            parse_header_spec(header)->Ok_0.signatures,
            expected_sig_chars(secret, parse_header_spec(header)->Ok_0.timestamp as int, body),
        ),
{
}

} // verus!
