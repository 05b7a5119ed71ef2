//! Webhook authentication and event dispatch for a payment provider's
//! asynchronous notifications.
//!
//! The library decides, from a raw request body, a signature header and a
//! shared secret, whether an inbound webhook is authentic and fresh, and
//! routes authenticated events to a fixed set of handlers by their type tag.

pub mod checkout;
pub mod crypto;
pub mod dispatch;
pub mod endpoint;
pub mod errors;
pub mod header;
pub mod health;
pub mod json;
pub mod numeral;
pub mod state;
pub mod text;
pub mod verify;
