use hmac::{Hmac, KeyInit, Mac};
use sha2::Sha256;

use webhook_core::errors::AuthError;
use webhook_core::verify::verify;
use webhook_core::verify::verify_default;

fn sign(secret: &[u8], timestamp: i64, body: &[u8]) -> String {
    let mut mac = <Hmac<Sha256> as KeyInit>::new_from_slice(secret).unwrap();
    mac.update(format!("{}.", timestamp).as_bytes());
    mac.update(body);
    hex::encode(mac.finalize().into_bytes().as_slice())
}

#[test]
fn correctly_signed_request_verifies_at_its_timestamp() {
    let secret = b"whsec_abc123";
    let body = br#"{"type":"checkout.session.completed","id":"evt_9"}"#;
    let t: i64 = 1_700_000_000;
    let header = format!("t={},v1={}", t, sign(secret, t, body));
    assert_eq!(verify(body, &header, secret, t, 300), Ok(()));
}

#[test]
fn window_boundary_is_inclusive() {
    let secret = b"whsec_abc123";
    let body = b"{}";
    let t: i64 = 1_700_000_000;
    let header = format!("t={},v1={}", t, sign(secret, t, body));
    assert_eq!(verify(body, &header, secret, t + 300, 300), Ok(()));
    assert_eq!(verify(body, &header, secret, t - 300, 300), Ok(()));
}

#[test]
fn stale_timestamp_rejected_despite_correct_signature() {
    let secret = b"whsec_abc123";
    let body = b"{}";
    let t: i64 = 1_700_000_000;
    let header = format!("t={},v1={}", t, sign(secret, t, body));
    assert_eq!(
        verify(body, &header, secret, t + 301, 300),
        Err(AuthError::StaleTimestamp)
    );
    assert_eq!(
        verify(body, &header, secret, t - 301, 300),
        Err(AuthError::StaleTimestamp)
    );
}

#[test]
fn any_single_flipped_body_byte_breaks_the_signature() {
    let secret = b"whsec_abc123";
    let body = br#"{"type":"payment_intent.succeeded","id":"evt_1"}"#.to_vec();
    let t: i64 = 1_700_000_000;
    let header = format!("t={},v1={}", t, sign(secret, t, &body));
    for i in 0..body.len() {
        let mut changed = body.clone();
        changed[i] ^= 0x01;
        assert_eq!(
            verify(&changed, &header, secret, t, 300),
            Err(AuthError::SignatureMismatch)
        );
    }
}

#[test]
fn rotation_either_candidate_order_succeeds() {
    let secret = b"whsec_abc123";
    let body = b"{}";
    let t: i64 = 1_700_000_000;
    let good = sign(secret, t, body);
    let garbage = "0f".repeat(32);
    let good_first = format!("t={},v1={},v1={}", t, good, garbage);
    let good_last = format!("t={},v1={},v1={}", t, garbage, good);
    assert_eq!(verify(body, &good_first, secret, t, 300), Ok(()));
    assert_eq!(verify(body, &good_last, secret, t, 300), Ok(()));
}

#[test]
fn missing_timestamp_rejected_under_every_secret() {
    let body = b"{}";
    let header = "v1=abcdef";
    assert_eq!(
        verify(body, header, b"one secret", 1_700_000_000, 300),
        Err(AuthError::MissingTimestamp)
    );
    assert_eq!(
        verify(body, header, b"another secret", 1_700_000_000, 300),
        Err(AuthError::MissingTimestamp)
    );
}

#[test]
fn header_without_any_pair_is_malformed() {
    let body = b"{}";
    assert_eq!(
        verify(body, "no pairs here", b"s", 0, 300),
        Err(AuthError::MalformedHeader)
    );
    assert_eq!(verify(body, "", b"s", 0, 300), Err(AuthError::MalformedHeader));
    assert_eq!(
        verify(body, "a=b=c,x", b"s", 0, 300),
        Err(AuthError::MalformedHeader)
    );
}

#[test]
fn timestamp_without_candidates_lacks_signatures() {
    let body = b"{}";
    let header = "t=1700000000";
    assert_eq!(
        verify(body, header, b"s", 1_700_000_000, 300),
        Err(AuthError::NoSignatures)
    );
}

#[test]
fn last_timestamp_occurrence_wins() {
    let secret = b"whsec_abc123";
    let body = b"{}";
    let t: i64 = 1_700_000_000;
    let header = format!("t=5,t={},v1={}", t, sign(secret, t, body));
    assert_eq!(verify(body, &header, secret, t, 300), Ok(()));
    let spoiled = format!("t={},t=not_a_number,v1={}", t, sign(secret, t, body));
    assert_eq!(
        verify(body, &spoiled, secret, t, 300),
        Err(AuthError::MissingTimestamp)
    );
}

#[test]
fn unknown_and_malformed_segments_are_skipped() {
    let secret = b"whsec_abc123";
    let body = b"{}";
    let t: i64 = 1_700_000_000;
    let header = format!(
        "junk,scheme=v2,a=b=c,t={},v1={}",
        t,
        sign(secret, t, body)
    );
    assert_eq!(verify(body, &header, secret, t, 300), Ok(()));
}

#[test]
fn default_window_is_five_minutes() {
    let secret = b"whsec_abc123";
    let body = b"{}";
    let t: i64 = 1_700_000_000;
    let header = format!("t={},v1={}", t, sign(secret, t, body));
    assert_eq!(verify_default(body, &header, secret, t + 299), Ok(()));
    assert_eq!(
        verify_default(body, &header, secret, t + 301),
        Err(AuthError::StaleTimestamp)
    );
}

#[test]
fn negative_timestamps_parse_and_compare() {
    let secret = b"whsec_abc123";
    let body = b"{}";
    let t: i64 = -42;
    let header = format!("t={},v1={}", t, sign(secret, t, body));
    assert_eq!(verify(body, &header, secret, -42, 300), Ok(()));
    assert_eq!(
        verify(body, &header, secret, 300, 300),
        Err(AuthError::StaleTimestamp)
    );
}
