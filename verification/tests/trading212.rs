use tradex::protocol::{
    Trading212DemoCancelState, Trading212DemoNormalizedOrderStatus, Trading212DemoOrder,
    Trading212DemoOrderOrigin,
};
use tradex::provider_io::merge_trading212_orders;

/// A partially filled demo order as the broker's order record gives it:
/// order 22, 5 MSFT shares bought at market.
fn partially_filled(filled: &str, value: &str, currency: Option<&str>, observed_at: &str) -> Trading212DemoOrder {
    Trading212DemoOrder {
        provider_order_id: "22".into(),
        symbol: "MSFT_US_EQ".into(),
        side: "BUY".into(),
        order_type: "MARKET".into(),
        time_in_force: "DAY".into(),
        provider_status: "PARTIALLY_FILLED".into(),
        normalized_status: Trading212DemoNormalizedOrderStatus::PartiallyFilled,
        pending: true,
        quantity: Some("5".into()),
        filled_quantity: Some(filled.into()),
        filled_value: Some(value.into()),
        currency: currency.map(str::to_string),
        remaining_quantity: Some(if filled == "1" { "4" } else { "3" }.into()),
        submitted_at: "2026-09-23T10:00:00Z".into(),
        provider_updated_at: None,
        observed_at: observed_at.into(),
        origin: Trading212DemoOrderOrigin::External,
        cancel_state: Trading212DemoCancelState::NotRequested,
        cancel_idempotency_key: None,
        cancel_error: None,
        attempt_id: None,
    }
}

#[test]
fn trading212_order_merge_retains_known_currency_and_rejects_conflicts() {
    let known = partially_filled("1", "10", Some("GBP"), "2026-09-23T10:01:00Z");
    let missing = partially_filled("2", "20", None, "2026-09-23T10:02:00Z");
    let merged = merge_trading212_orders(&vec![known.clone()], vec![missing], false, true).unwrap();
    assert_eq!(merged[0].currency.as_deref(), Some("GBP"));
    assert_eq!(merged[0].filled_quantity.as_deref(), Some("2"));

    let conflict = partially_filled("2", "20", Some("USD"), "2026-09-23T10:02:00Z");
    assert_eq!(
        merge_trading212_orders(&vec![known], vec![conflict], false, true).unwrap_err().code,
        "PROVIDER_IDENTITY_CONFLICT"
    );
}

#[test]
fn pending_reads_keep_earlier_states_unless_refreshed() {
    let stored = partially_filled("1", "10", Some("GBP"), "2026-09-23T10:01:00Z");
    let mut settled = stored.clone();
    settled.pending = false;
    let later = partially_filled("2", "20", Some("GBP"), "2026-09-23T10:02:00Z");
    let mut not_pending = later.clone();
    not_pending.pending = false;
    // A history read of an order still pending elsewhere does not overwrite its pending state.
    let kept = merge_trading212_orders(&vec![stored.clone()], vec![not_pending], false, false).unwrap();
    assert_eq!(kept[0].filled_quantity.as_deref(), Some("1"));
    assert!(kept[0].pending);
    // A new order is appended.
    let mut other = later.clone();
    other.provider_order_id = "23".into();
    let both = merge_trading212_orders(&vec![settled], vec![other], false, false).unwrap();
    assert_eq!(both.len(), 2);
    // Replacing the pending set clears the pending flag of orders not in it.
    let replaced = merge_trading212_orders(&vec![stored], Vec::new(), true, false).unwrap();
    assert!(!replaced[0].pending);
}
