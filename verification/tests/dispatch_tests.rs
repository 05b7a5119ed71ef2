use webhook_core::dispatch::dispatch;
use webhook_core::dispatch::DispatchOutcome;
use webhook_core::dispatch::HandledEvent;
use webhook_core::dispatch::VerifiedEvent;
use webhook_core::errors::DispatchError;
use webhook_core::json::JsonValue;

fn obj(fields: Vec<(&str, JsonValue)>) -> JsonValue {
    JsonValue::Obj(
        fields
            .into_iter()
            .map(|(k, v)| (k.to_string(), v))
            .collect(),
    )
}

fn text(s: &str) -> JsonValue {
    JsonValue::Str(s.to_string())
}

#[test]
fn completed_session_is_handled_with_its_fields() {
    let payload = obj(vec![
        ("type", text("checkout.session.completed")),
        ("id", text("evt_77")),
        (
            "data",
            obj(vec![(
                "object",
                obj(vec![
                    ("id", text("cs_123")),
                    ("payment_status", text("paid")),
                ]),
            )]),
        ),
    ]);
    let event = VerifiedEvent::from_payload(payload).unwrap();
    assert_eq!(event.event_type, "checkout.session.completed");
    assert_eq!(event.event_id, "evt_77");
    match dispatch(&event) {
        DispatchOutcome::Handled(HandledEvent::CheckoutSessionCompleted(facts)) => {
            assert_eq!(facts.session_id, Some("cs_123".to_string()));
            assert_eq!(facts.payment_status, Some("paid".to_string()));
            assert_eq!(facts.customer_email, None);
        }
        other => panic!("wrong outcome: {:?}", other),
    }
}

#[test]
fn completed_session_reads_customer_email() {
    let payload = obj(vec![
        ("type", text("checkout.session.completed")),
        (
            "data",
            obj(vec![(
                "object",
                obj(vec![
                    ("id", text("cs_9")),
                    (
                        "customer_details",
                        obj(vec![("email", text("a@b.example"))]),
                    ),
                ]),
            )]),
        ),
    ]);
    let event = VerifiedEvent::from_payload(payload).unwrap();
    match dispatch(&event) {
        DispatchOutcome::Handled(HandledEvent::CheckoutSessionCompleted(facts)) => {
            assert_eq!(facts.customer_email, Some("a@b.example".to_string()));
            assert_eq!(facts.payment_status, None);
        }
        other => panic!("wrong outcome: {:?}", other),
    }
}

#[test]
fn completed_session_without_primary_object_still_succeeds() {
    let payload = obj(vec![("type", text("checkout.session.completed"))]);
    let event = VerifiedEvent::from_payload(payload).unwrap();
    match dispatch(&event) {
        DispatchOutcome::Handled(HandledEvent::CheckoutSessionCompleted(facts)) => {
            assert_eq!(facts.session_id, None);
            assert_eq!(facts.payment_status, None);
            assert_eq!(facts.customer_email, None);
        }
        other => panic!("wrong outcome: {:?}", other),
    }
}

#[test]
fn each_known_type_reaches_its_handler() {
    let cases = vec![
        ("checkout.session.expired", HandledEvent::CheckoutSessionExpired),
        ("payment_intent.succeeded", HandledEvent::PaymentIntentSucceeded),
        (
            "payment_intent.payment_failed",
            HandledEvent::PaymentIntentFailed,
        ),
    ];
    for (tag, expected) in cases {
        let event = VerifiedEvent::from_payload(obj(vec![("type", text(tag))])).unwrap();
        assert_eq!(dispatch(&event), DispatchOutcome::Handled(expected));
    }
}

#[test]
fn unrecognized_type_is_ignored_never_an_error() {
    let payload = obj(vec![
        ("type", text("some.new.event")),
        ("id", text("evt_55")),
    ]);
    let event = VerifiedEvent::from_payload(payload).unwrap();
    assert_eq!(dispatch(&event), DispatchOutcome::Ignored);
}

#[test]
fn matching_is_exact_and_case_sensitive() {
    for tag in [
        "Checkout.Session.Completed",
        "checkout.session.completed.extra",
        "checkout.session",
    ] {
        let event = VerifiedEvent::from_payload(obj(vec![("type", text(tag))])).unwrap();
        assert_eq!(dispatch(&event), DispatchOutcome::Ignored);
    }
}

#[test]
fn missing_type_tag_is_an_event_error() {
    let payload = obj(vec![("id", text("evt_1"))]);
    match VerifiedEvent::from_payload(payload) {
        Err(DispatchError::MissingEventType) => {}
        other => panic!("wrong result: {:?}", other),
    }
}

#[test]
fn missing_event_id_falls_back_to_placeholder() {
    let payload = obj(vec![("type", text("some.new.event"))]);
    let event = VerifiedEvent::from_payload(payload).unwrap();
    assert_eq!(event.event_id, "unknown");
}

#[test]
fn field_lookup_is_safe_on_every_shape() {
    let node = text("just text");
    assert!(node.get("anything").is_none());
    let map = obj(vec![("a", JsonValue::Int(3))]);
    assert!(map.get("b").is_none());
    assert!(map.get_str("a").is_none());
    let nested = obj(vec![("a", text("x"))]);
    assert_eq!(nested.get_str("a").map(|s| s.as_str()), Some("x"));
}
