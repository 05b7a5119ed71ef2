//! Error taxonomy of the webhook core.
//!
//! Every authentication failure maps to the same externally observable
//! outcome (the request is rejected); the variants exist for diagnostics.

use vstd::prelude::*;

verus! {

/// Why signature verification rejected a request.
#[derive(Clone, Copy, Debug, PartialEq, Eq, Structural)]
pub enum AuthError {
    /// The header holds parseable pairs but no usable `t=` timestamp.
    MissingTimestamp,
    /// The header holds a timestamp but no `v1=` signature candidate.
    NoSignatures,
    /// The timestamp lies outside the replay-protection window.
    StaleTimestamp,
    /// No signature candidate matches the expected keyed digest.
    SignatureMismatch,
    /// The header contains no parseable `key=value` pair at all.
    MalformedHeader,
}

/// Faults raised after authentication, while turning the body into an event.
#[derive(Clone, Copy, Debug, PartialEq, Eq, Structural)]
pub enum DispatchError {
    /// The body is not a well-formed document; verification guarantees it
    /// was hashed as received, so this indicates a caller contract breach.
    UnparseableBody,
    /// The document carries no string `type` tag to route on.
    MissingEventType,
}

/// Everything the webhook endpoint can report instead of an outcome.
#[derive(Clone, Copy, Debug, PartialEq, Eq, Structural)]
pub enum WebhookError {
    /// Authentication failed; the caller answers with a client error.
    Auth(AuthError),
    /// Event extraction failed after authentication.
    Dispatch(DispatchError),
}

} // verus!
