//! The service's configured secrets, constructed once at startup and passed
//! in explicitly: the verifier never reads hidden global state.

use vstd::prelude::*;

verus! {

/// What the enclosing service is configured with.
#[derive(Debug, Clone)]
pub struct AppState {
    /// The key for outbound calls to the payment provider.
    pub stripe_secret_key: String,
    /// The shared secret webhook signatures are checked against; its absence
    /// is a startup-time fault, never a per-request one.
    pub stripe_webhook_secret: String,
}

} // verus!
