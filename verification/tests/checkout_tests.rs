use webhook_core::checkout::plan_line_items;
use webhook_core::checkout::validate_total_amount;
use webhook_core::checkout::CreateCheckoutSessionRequest;
use webhook_core::checkout::LineItem;
use webhook_core::checkout::LineItemKind;
use webhook_core::checkout::QuoteDetails;
use webhook_core::health::health_response;

fn details(base: i64, prep: i64, rush: i64) -> QuoteDetails {
    QuoteDetails {
        base_price: base,
        prep_surcharge: prep,
        rush_surcharge: rush,
        material: "Steel".to_string(),
        prep_level: "Clean".to_string(),
        quantity: 1,
    }
}

fn request(amount: i64) -> CreateCheckoutSessionRequest {
    CreateCheckoutSessionRequest {
        quote_id: "q_1".to_string(),
        total_amount: amount,
        currency: "usd".to_string(),
        customer_email: None,
        success_url: None,
        cancel_url: None,
        quote_details: details(amount, 0, 0),
    }
}

#[test]
fn base_price_alone_yields_one_line_item() {
    let items = plan_line_items(&details(5000, 0, 0));
    assert_eq!(
        items,
        vec![LineItem { kind: LineItemKind::BasePrice, amount: 5000 }]
    );
}

#[test]
fn positive_surcharges_each_add_a_line_item() {
    let items = plan_line_items(&details(5000, 700, 2500));
    assert_eq!(
        items,
        vec![
            LineItem { kind: LineItemKind::BasePrice, amount: 5000 },
            LineItem { kind: LineItemKind::PrepSurcharge, amount: 700 },
            LineItem { kind: LineItemKind::RushSurcharge, amount: 2500 },
        ]
    );
}

#[test]
fn only_the_positive_surcharge_is_charged() {
    let items = plan_line_items(&details(5000, 0, 2500));
    assert_eq!(
        items,
        vec![
            LineItem { kind: LineItemKind::BasePrice, amount: 5000 },
            LineItem { kind: LineItemKind::RushSurcharge, amount: 2500 },
        ]
    );
}

#[test]
fn nonpositive_amounts_are_rejected_with_the_named_error() {
    for amount in [0, -1, -5000] {
        match validate_total_amount(&request(amount)) {
            Err(e) => {
                assert_eq!(e.error, "invalid_amount");
                assert_eq!(e.message, "Total amount must be greater than zero");
            }
            Ok(()) => panic!("amount {} must be rejected", amount),
        }
    }
}

#[test]
fn positive_amounts_pass_validation() {
    assert!(validate_total_amount(&request(1)).is_ok());
    assert!(validate_total_amount(&request(5000)).is_ok());
}

#[test]
fn health_answer_reports_ok_and_the_given_version() {
    let r = health_response("1.2.3".to_string());
    assert_eq!(r.status, "ok");
    assert_eq!(r.version, "1.2.3");
}
