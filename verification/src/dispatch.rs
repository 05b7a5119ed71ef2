//! Routing of authenticated events: an exact, case-sensitive match on the
//! event's type tag against a fixed table, with unrecognized types
//! acknowledged and ignored so new provider event types never fail a
//! request.

use vstd::prelude::*;

use crate::crypto::constant_time_eq_str;
use crate::errors::DispatchError;
use crate::json::spec_get;
use crate::json::spec_get_str;
use crate::json::JsonValue;

verus! {

/// An event that passed signature verification, ready to route.
#[derive(Debug)]
pub struct VerifiedEvent {
    /// The dotted type tag the provider assigned, e.g.
    /// `checkout.session.completed`.
    pub event_type: String,
    /// The provider's event identifier; a placeholder when absent, since
    /// absence is tolerated and never fatal.
    pub event_id: String,
    /// The parsed body; handlers navigate it by field path.
    pub payload: JsonValue,
}

/// What the completed-session handler reads out of the primary object.
/// Absent optional fields stay absent; they never fail the request.
#[derive(Debug, Clone, PartialEq, Eq)]
pub struct CheckoutSessionFacts {
    pub session_id: Option<String>,
    pub payment_status: Option<String>,
    pub customer_email: Option<String>,
}

/// Which handler an event reached, with what it extracted.
#[derive(Debug, Clone, PartialEq, Eq)]
pub enum HandledEvent {
    CheckoutSessionCompleted(CheckoutSessionFacts),
    CheckoutSessionExpired,
    PaymentIntentSucceeded,
    PaymentIntentFailed,
}

/// What dispatching an event yields: a handled event, or receipt of one
/// whose type tag no handler claims.
#[derive(Debug, Clone, PartialEq, Eq)]
pub enum DispatchOutcome {
    Handled(HandledEvent),
    Ignored,
}

/// The event's primary object, at the fixed path `data.object`.
pub open spec fn spec_data_object(payload: JsonValue) -> Option<JsonValue> {
    match spec_get(payload, "data"@) {
        Some(d) => spec_get(d, "object"@),
        None => None,
    }
}

/// What a completed checkout session carries: identifier, payment status
/// and customer contact, each absent when the payload omits it.
pub open spec fn spec_completed_facts(payload: JsonValue) -> CheckoutSessionFacts {
    match spec_data_object(payload) {
        Some(obj) => CheckoutSessionFacts {
            session_id: spec_get_str(obj, "id"@),
            payment_status: spec_get_str(obj, "payment_status"@),
            customer_email: match spec_get(obj, "customer_details"@) {
                Some(d) => spec_get_str(d, "email"@),
                None => None,
            },
        },
        None => CheckoutSessionFacts { session_id: None, payment_status: None, customer_email: None },
    }
}

/// The fixed handler table's domain.
pub open spec fn known_event_type(t: Seq<char>) -> bool {
    ||| t == "checkout.session.completed"@
    ||| t == "checkout.session.expired"@
    ||| t == "payment_intent.succeeded"@
    ||| t == "payment_intent.payment_failed"@
}

/// The dispatcher's verdict as a function of the type tag and the payload.
pub open spec fn dispatch_spec(t: Seq<char>, payload: JsonValue) -> DispatchOutcome {
    if t == "checkout.session.completed"@ {
        DispatchOutcome::Handled(
            HandledEvent::CheckoutSessionCompleted(spec_completed_facts(payload)),
        )
    } else if t == "checkout.session.expired"@ {
        DispatchOutcome::Handled(HandledEvent::CheckoutSessionExpired)
    } else if t == "payment_intent.succeeded"@ {
        DispatchOutcome::Handled(HandledEvent::PaymentIntentSucceeded)
    } else if t == "payment_intent.payment_failed"@ {
        DispatchOutcome::Handled(HandledEvent::PaymentIntentFailed)
    } else {
        DispatchOutcome::Ignored
    }
}

impl VerifiedEvent {
    /// Builds the event handed to the dispatcher: the route tag is
    /// required, the identifier falls back to a placeholder, the payload is
    /// kept as parsed.
    pub fn from_payload(payload: JsonValue) -> (r: Result<VerifiedEvent, DispatchError>)
        ensures
            match r {
                Ok(ev) => {
                    &&& spec_get_str(payload, "type"@) == Some(ev.event_type)
                    &&& match spec_get_str(payload, "id"@) {
                        Some(s) => ev.event_id == s,
                        None => ev.event_id@ == "unknown"@,
                    }
                    &&& ev.payload == payload
                },
                Err(e) => e == DispatchError::MissingEventType && spec_get_str(payload, "type"@)
                    is None,
            },
    {
        let event_type = match payload.get_str("type") {
            Some(s) => s.clone(),
            None => {
                return Err(DispatchError::MissingEventType);
            },
        };
        let event_id = match payload.get_str("id") {
            Some(s) => s.clone(),
            None => String::from_str("unknown"),
        };
        Ok(VerifiedEvent { event_type, event_id, payload })
    }
}

/// Reads the fields the completed-session handler acts on.
fn extract_completed_facts(payload: &JsonValue) -> (r: CheckoutSessionFacts)
    ensures
        r == spec_completed_facts(*payload),
{
    let obj_opt = match payload.get("data") {
        Some(d) => d.get("object"),
        None => None,
    };
    match obj_opt {
        Some(obj) => {
            let session_id = match obj.get_str("id") {
                Some(s) => Some(s.clone()),
                None => None,
            };
            let payment_status = match obj.get_str("payment_status") {
                Some(s) => Some(s.clone()),
                None => None,
            };
            let customer_email = match obj.get("customer_details") {
                Some(d) => match d.get_str("email") {
                    Some(s) => Some(s.clone()),
                    None => None,
                },
                None => None,
            };
            CheckoutSessionFacts { session_id, payment_status, customer_email }
        },
        None => CheckoutSessionFacts {
            session_id: None,
            payment_status: None,
            customer_email: None,
        },
    }
}

/// Routes an authenticated event by exact type match. Total: every event
/// yields an outcome, and an unrecognized type is ignored, never an error.
pub fn dispatch(event: &VerifiedEvent) -> (r: DispatchOutcome)
    ensures
        r == dispatch_spec(event.event_type@, event.payload),
{
    let t = event.event_type.as_str();
    if constant_time_eq_str(t, "checkout.session.completed") {
        DispatchOutcome::Handled(
            HandledEvent::CheckoutSessionCompleted(extract_completed_facts(&event.payload)),
        )
    } else if constant_time_eq_str(t, "checkout.session.expired") {
        DispatchOutcome::Handled(HandledEvent::CheckoutSessionExpired)
    } else if constant_time_eq_str(t, "payment_intent.succeeded") {
        DispatchOutcome::Handled(HandledEvent::PaymentIntentSucceeded)
    } else if constant_time_eq_str(t, "payment_intent.payment_failed") {
        DispatchOutcome::Handled(HandledEvent::PaymentIntentFailed)
    } else {
        DispatchOutcome::Ignored
    }
}

/// Law: an authenticated event of an unrecognized type is acknowledged and
/// ignored, never an error, whatever its payload holds.
pub proof fn lemma_unknown_type_ignored(t: Seq<char>, payload: JsonValue)
    requires
        !known_event_type(t),
    ensures
        dispatch_spec(t, payload) == DispatchOutcome::Ignored,
{
}

} // verus!
