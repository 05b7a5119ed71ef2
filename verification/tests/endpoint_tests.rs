use hmac::{Hmac, KeyInit, Mac};
use sha2::Sha256;

use webhook_core::dispatch::DispatchOutcome;
use webhook_core::dispatch::HandledEvent;
use webhook_core::endpoint::acknowledge;
use webhook_core::endpoint::handle_webhook;
use webhook_core::errors::AuthError;
use webhook_core::errors::DispatchError;
use webhook_core::errors::WebhookError;

fn sign(secret: &[u8], timestamp: i64, body: &[u8]) -> String {
    let mut mac = <Hmac<Sha256> as KeyInit>::new_from_slice(secret).unwrap();
    mac.update(format!("{}.", timestamp).as_bytes());
    mac.update(body);
    hex::encode(mac.finalize().into_bytes().as_slice())
}

#[test]
fn end_to_end_accepts_the_documented_example() {
    let secret = b"whsec_test";
    let body = br#"{"type":"payment_intent.succeeded","id":"evt_1"}"#;
    let t: i64 = 1_700_000_000;
    let header = format!("t={},v1={}", t, sign(secret, t, body));
    assert_eq!(
        handle_webhook(body, &header, secret, t, 300),
        Ok(DispatchOutcome::Handled(HandledEvent::PaymentIntentSucceeded))
    );
}

#[test]
fn end_to_end_rejects_under_any_changed_secret_character() {
    let secret = b"whsec_test";
    let body = br#"{"type":"payment_intent.succeeded","id":"evt_1"}"#;
    let t: i64 = 1_700_000_000;
    let header = format!("t={},v1={}", t, sign(secret, t, body));
    for i in 0..secret.len() {
        let mut other = secret.to_vec();
        other[i] ^= 0x20;
        assert_eq!(
            handle_webhook(body, &header, &other, t, 300),
            Err(WebhookError::Auth(AuthError::SignatureMismatch))
        );
    }
}

#[test]
fn authenticated_unknown_event_is_acknowledged() {
    let secret = b"whsec_test";
    let body = br#"{"type":"some.new.event"}"#;
    let t: i64 = 1_700_000_000;
    let header = format!("t={},v1={}", t, sign(secret, t, body));
    assert_eq!(
        handle_webhook(body, &header, secret, t, 300),
        Ok(DispatchOutcome::Ignored)
    );
}

#[test]
fn authenticated_completed_session_reports_its_identifier() {
    let secret = b"whsec_test";
    let body =
        br#"{"type":"checkout.session.completed","data":{"object":{"id":"cs_123","payment_status":"paid"}}}"#;
    let t: i64 = 1_700_000_000;
    let header = format!("t={},v1={}", t, sign(secret, t, body));
    match handle_webhook(body, &header, secret, t, 300) {
        Ok(DispatchOutcome::Handled(HandledEvent::CheckoutSessionCompleted(facts))) => {
            assert_eq!(facts.session_id, Some("cs_123".to_string()));
            assert_eq!(facts.payment_status, Some("paid".to_string()));
        }
        other => panic!("wrong result: {:?}", other),
    }
}

#[test]
fn authenticated_unparseable_body_is_an_internal_fault() {
    let secret = b"whsec_test";
    let body = b"this is not a document";
    let t: i64 = 1_700_000_000;
    let header = format!("t={},v1={}", t, sign(secret, t, body));
    assert_eq!(
        handle_webhook(body, &header, secret, t, 300),
        Err(WebhookError::Dispatch(DispatchError::UnparseableBody))
    );
}

#[test]
fn authenticated_body_without_type_is_an_event_error() {
    let secret = b"whsec_test";
    let body = br#"{"id":"evt_1"}"#;
    let t: i64 = 1_700_000_000;
    let header = format!("t={},v1={}", t, sign(secret, t, body));
    assert_eq!(
        handle_webhook(body, &header, secret, t, 300),
        Err(WebhookError::Dispatch(DispatchError::MissingEventType))
    );
}

#[test]
fn rejection_precedes_parsing() {
    let secret = b"whsec_test";
    let body = b"this is not a document";
    let header = "v1=abc";
    assert_eq!(
        handle_webhook(body, header, secret, 0, 300),
        Err(WebhookError::Auth(AuthError::MissingTimestamp))
    );
}

#[test]
fn acknowledgment_reports_receipt() {
    assert!(acknowledge().received);
}
