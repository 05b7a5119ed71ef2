//! The webhook endpoint's decision: verify first, and only then parse and
//! route. One linear pass per request; nothing outlives it.

use vstd::prelude::*;

use crate::dispatch::dispatch;
use crate::dispatch::dispatch_spec;
use crate::dispatch::DispatchOutcome;
use crate::dispatch::VerifiedEvent;
use crate::errors::DispatchError;
use crate::errors::WebhookError;
use crate::json::json_doc_of;
use crate::json::parse_json;
use crate::json::spec_get_str;
use crate::verify::verify;
use crate::verify::verify_spec;

verus! {

/// The acknowledgment body sent for every accepted webhook.
#[derive(Debug, Clone, Copy, PartialEq, Eq, Structural)]
pub struct WebhookResponse {
    pub received: bool,
}

/// The fixed acknowledgment an accepted webhook is answered with.
pub fn acknowledge() -> (r: WebhookResponse)
    ensures
        r.received,
{
    WebhookResponse { received: true }
}

/// The endpoint's verdict as a function of its inputs and the clock:
/// authentication errors first, then the parse, then the route.
pub open spec fn endpoint_spec(
    body: Seq<u8>,
    header: Seq<char>,
    secret: Seq<u8>,
    now: int,
    tolerance: int,
) -> Result<DispatchOutcome, WebhookError> {
    match verify_spec(body, header, secret, now, tolerance) {
        Err(e) => Err(WebhookError::Auth(e)),
        Ok(_) => match json_doc_of(body) {
            None => Err(WebhookError::Dispatch(DispatchError::UnparseableBody)),
            Some(doc) => match spec_get_str(doc, "type"@) {
                None => Err(WebhookError::Dispatch(DispatchError::MissingEventType)),
                Some(t) => Ok(dispatch_spec(t@, doc)),
            },
        },
    }
}

/// Handles one webhook request: rejects it unless the signature header
/// authenticates the body within the replay window, then parses the body
/// and routes the event. Handlers only describe their outcome here; their
/// side effects live with the caller and can never fail the request.
pub fn handle_webhook(
    body: &[u8],
    header_value: &str,
    secret: &[u8],
    now: i64,
    tolerance_seconds: i64,
) -> (r: Result<DispatchOutcome, WebhookError>)
    requires
        tolerance_seconds >= 0,
    ensures
        r == endpoint_spec(body@, header_value@, secret@, now as int, tolerance_seconds as int),
{
    match verify(body, header_value, secret, now, tolerance_seconds) {
        Err(e) => {
            return Err(WebhookError::Auth(e));
        },
        Ok(_) => {},
    }
    let doc = match parse_json(body) {
        Some(d) => d,
        None => {
            return Err(WebhookError::Dispatch(DispatchError::UnparseableBody));
        },
    };
    let event = match VerifiedEvent::from_payload(doc) {
        Ok(ev) => ev,
        Err(e) => {
            return Err(WebhookError::Dispatch(e));
        },
    };
    Ok(dispatch(&event))
}

} // verus!
