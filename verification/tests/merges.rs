use tradex::json::JsonValue;
use tradex::protocol::AlpacaPaperFillSource;
use tradex::provider_io::{insert_fill, parse_alpaca_fill, parse_alpaca_order, replace_order};

const ORDER_ID: &str = "18c65e3e-feb0-4576-99e2-36e6f047d84d";

fn s(text: &str) -> JsonValue {
    JsonValue::Str(text.into())
}

fn obj(members: Vec<(&str, JsonValue)>) -> JsonValue {
    JsonValue::Object(members.into_iter().map(|(k, v)| (k.to_string(), v)).collect())
}

fn order_row(status: &str, filled: &str, updated: &str) -> JsonValue {
    obj(vec![
        ("id", s(ORDER_ID)),
        ("client_order_id", s("tradex-1")),
        ("symbol", s("AAPL")),
        ("side", s("buy")),
        ("type", s("limit")),
        ("time_in_force", s("day")),
        ("status", s(status)),
        ("qty", s("2")),
        ("filled_qty", s(filled)),
        ("submitted_at", s("2026-09-23T10:00:00Z")),
        ("updated_at", s(updated)),
    ])
}

#[test]
fn repeated_order_reports_change_nothing() {
    let first = parse_alpaca_order(&order_row("new", "0", "2026-09-23T10:01:00Z"), "2026-09-23T10:05:00Z", None).unwrap();
    let newer = parse_alpaca_order(&order_row("filled", "2", "2026-09-23T10:02:00Z"), "2026-09-23T10:05:00Z", None).unwrap();
    let mut orders = Vec::new();
    replace_order(&mut orders, first).unwrap();
    replace_order(&mut orders, newer.clone()).unwrap();
    let once = orders.clone();
    replace_order(&mut orders, newer).unwrap();
    assert_eq!(orders, once);
    assert_eq!(orders.len(), 1);
    assert_eq!(orders[0].provider_status, "filled");
    assert_eq!(orders[0].remaining_quantity.as_deref(), Some("0"));

    let late = parse_alpaca_order(&order_row("new", "0", "2026-09-23T10:01:30Z"), "2026-09-23T10:05:00Z", None).unwrap();
    replace_order(&mut orders, late).unwrap();
    assert_eq!(orders, once);
}

#[test]
fn repeated_fills_are_kept_once() {
    let row = obj(vec![
        ("id", s("20260923100200000::00000000-0000-4000-8000-000000000002")),
        ("order_id", s(ORDER_ID)),
        ("symbol", s("AAPL")),
        ("side", s("buy")),
        ("qty", s("1")),
        ("price", s("10.25")),
        ("transaction_time", s("2026-09-23T10:02:00Z")),
    ]);
    let fill = parse_alpaca_fill(&row, "2026-09-23T10:05:00Z", AlpacaPaperFillSource::RestActivity, None).unwrap();
    let mut fills = Vec::new();
    insert_fill(&mut fills, fill.clone()).unwrap();
    let once = fills.clone();
    insert_fill(&mut fills, fill).unwrap();
    assert_eq!(fills, once);
    assert_eq!(fills.len(), 1);
}

fn paper_fill(activity_id: &str, quantity: &str, source: AlpacaPaperFillSource) -> tradex::protocol::AlpacaPaperFill {
    tradex::protocol::AlpacaPaperFill {
        activity_id: activity_id.into(),
        provider_order_id: ORDER_ID.into(),
        symbol: "AAPL".into(),
        instrument_id: Some("equity:US:AAPL".into()),
        side: "buy".into(),
        quantity: quantity.into(),
        price: "10.25".into(),
        source,
        executed_at: "2026-09-23T10:02:00Z".into(),
        observed_at: "2026-09-23T10:05:00Z".into(),
    }
}

#[test]
fn rest_fills_supersede_stream_fills_and_failures_change_nothing() {
    const E: &str = "00000000-0000-4000-8000-000000000002";
    let rest_id = format!("20260923100200000::{E}");
    let t = paper_fill(E, "0.5", AlpacaPaperFillSource::TradeUpdate);
    let r = paper_fill(&rest_id, "0.5", AlpacaPaperFillSource::RestActivity);
    let r2 = paper_fill(&rest_id, "0.4", AlpacaPaperFillSource::RestActivity);
    let mut fills = vec![t.clone()];
    insert_fill(&mut fills, r.clone()).unwrap();
    assert_eq!(fills, vec![r.clone()]);
    insert_fill(&mut fills, t).unwrap();
    assert_eq!(fills, vec![r.clone()]);
    assert!(insert_fill(&mut fills, r2).is_err());
    assert_eq!(fills, vec![r]);
}

#[test]
fn only_an_unrecorded_connect_removes_its_credential() {
    assert!(tradex::jobs::cleanup_needed(tradex::provider_io::JobKind::Connect, false));
    assert!(!tradex::jobs::cleanup_needed(tradex::provider_io::JobKind::Connect, true));
    assert!(!tradex::jobs::cleanup_needed(tradex::provider_io::JobKind::Probe, false));
}
