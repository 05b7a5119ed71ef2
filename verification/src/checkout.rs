//! The checkout-session request: its shapes and the decisions taken before
//! the outbound payment call, which an outside collaborator performs.

use vstd::prelude::*;

verus! {

/// A request to open a hosted payment session for a quote.
#[derive(Debug)]
pub struct CreateCheckoutSessionRequest {
    /// Quote identifier for tracking.
    pub quote_id: String,
    /// Total amount in cents.
    pub total_amount: i64,
    /// Currency code, e.g. `usd`.
    pub currency: String,
    /// Customer email, if known.
    pub customer_email: Option<String>,
    /// Where to send the customer after payment.
    pub success_url: Option<String>,
    /// Where to send the customer on cancellation.
    pub cancel_url: Option<String>,
    /// The quote the line items are built from.
    pub quote_details: QuoteDetails,
}

/// The priced quote a checkout session is opened for, in cents.
#[derive(Debug)]
pub struct QuoteDetails {
    pub base_price: i64,
    pub prep_surcharge: i64,
    pub rush_surcharge: i64,
    pub material: String,
    pub prep_level: String,
    pub quantity: i32,
}

/// What the payment provider answers with.
#[derive(Debug)]
pub struct CreateCheckoutSessionResponse {
    /// The provider's session identifier.
    pub session_id: String,
    /// The hosted checkout address to redirect the customer to.
    pub url: String,
}

/// An error answer of the checkout endpoint.
#[derive(Debug)]
pub struct ErrorResponse {
    pub error: String,
    pub message: String,
}

/// What a line item charges for.
#[derive(Debug, Clone, Copy, PartialEq, Eq, Structural)]
pub enum LineItemKind {
    BasePrice,
    PrepSurcharge,
    RushSurcharge,
}

/// One charge of the checkout session.
#[derive(Debug, Clone, Copy, PartialEq, Eq, Structural)]
pub struct LineItem {
    pub kind: LineItemKind,
    pub amount: i64,
}

/// The line items a quote is charged as: the base price always, each
/// surcharge exactly when it is positive.
pub open spec fn spec_line_items(d: QuoteDetails) -> Seq<LineItem> {
    seq![LineItem { kind: LineItemKind::BasePrice, amount: d.base_price }] + (if d.prep_surcharge
        > 0 {
        seq![LineItem { kind: LineItemKind::PrepSurcharge, amount: d.prep_surcharge }]
    } else {
        Seq::empty()
    }) + (if d.rush_surcharge > 0 {
        seq![LineItem { kind: LineItemKind::RushSurcharge, amount: d.rush_surcharge }]
    } else {
        Seq::empty()
    })
}

/// Decides which charges the session carries; the outbound call only maps
/// them onto the provider's wire format.
pub fn plan_line_items(d: &QuoteDetails) -> (r: Vec<LineItem>)
    ensures
        r@ == spec_line_items(*d),
{
    let mut items: Vec<LineItem> = Vec::new();
    items.push(LineItem { kind: LineItemKind::BasePrice, amount: d.base_price });
    if d.prep_surcharge > 0 {
        items.push(LineItem { kind: LineItemKind::PrepSurcharge, amount: d.prep_surcharge });
    }
    if d.rush_surcharge > 0 {
        items.push(LineItem { kind: LineItemKind::RushSurcharge, amount: d.rush_surcharge });
    }
    proof {
        assert(items@ =~= spec_line_items(*d));
    }
    items
}

/// Rejects a request whose amount cannot be charged; everything else is the
/// outbound collaborator's concern.
pub fn validate_total_amount(req: &CreateCheckoutSessionRequest) -> (r: Result<(), ErrorResponse>)
    ensures
        r is Ok <==> req.total_amount > 0,
        r matches Err(e) ==> e.error@ == "invalid_amount"@ && e.message@
            == "Total amount must be greater than zero"@,
{
    if req.total_amount <= 0 {
        Err(
            ErrorResponse {
                error: String::from_str("invalid_amount"),
                message: String::from_str("Total amount must be greater than zero"),
            },
        )
    } else {
        Ok(())
    }
}

} // verus!
