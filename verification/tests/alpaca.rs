use tradex::json::JsonValue;
use tradex::protocol::{
    AlpacaPaperFillSource, AlpacaPaperOrderAttempt, AlpacaPaperOrderAttemptState,
    AlpacaPaperOrderBook, AlpacaPaperOrderBookStatus, ExecutionContext, MarketDataStatus,
    OrderDraftFields, OrderProposal, OrderProposalStatus, OrderQuantity, OrderQuantityType,
    OrderSide, OrderType, ProposalReferenceStatus, TimeInForce,
};
use tradex::provider_io::{
    alpaca, alpaca_acknowledgement, alpaca_order_rejection, alpaca_order_request, apply_alpaca_trade_update, contains_secret, decimal,
    insert_fill, parse_alpaca_fill, parse_alpaca_order, parse_alpaca_trade_update,
    validate_alpaca_asset, validate_alpaca_sell_position,
};

const ACCOUNT_ID: &str = "81161e77-bafd-44bb-b2a0-60b9055e3cd4";
const ORDER_ID: &str = "18c65e3e-feb0-4576-99e2-36e6f047d84d";

fn s(text: &str) -> JsonValue {
    JsonValue::Str(text.into())
}

fn obj(members: Vec<(&str, JsonValue)>) -> JsonValue {
    JsonValue::Object(members.into_iter().map(|(k, v)| (k.to_string(), v)).collect())
}

fn frame(event: &str, status: &str, filled: &str, timestamp: &str) -> JsonValue {
    obj(vec![
        ("stream", s("trade_updates")),
        (
            "data",
            obj(vec![
                ("event", s(event)),
                ("execution_id", s("00000000-0000-4000-8000-000000000002")),
                ("qty", s("0.5")),
                ("price", s("10.25")),
                ("timestamp", s(timestamp)),
                (
                    "order",
                    obj(vec![
                        ("id", s(ORDER_ID)),
                        ("account_id", s(ACCOUNT_ID)),
                        ("client_order_id", s("trade-x-order-1")),
                        ("symbol", s("AAPL")),
                        ("side", s("buy")),
                        ("type", s("limit")),
                        ("time_in_force", s("day")),
                        ("status", s(status)),
                        ("qty", s("1")),
                        ("filled_qty", s(filled)),
                        ("submitted_at", s("2026-09-23T10:00:00Z")),
                        ("updated_at", s(timestamp)),
                    ]),
                ),
            ]),
        ),
    ])
}

fn empty_book() -> AlpacaPaperOrderBook {
    AlpacaPaperOrderBook {
        workspace_id: "workspace-1".into(),
        connection_id: "connection-1".into(),
        remote_account_id: ACCOUNT_ID.into(),
        status: AlpacaPaperOrderBookStatus::NeverSynced,
        state_version: "alpaca-paper-order-book:connection-1:0".into(),
        last_successful_sync_at: None,
        observed_at: "2026-09-23T10:00:00Z".into(),
        reason: None,
        orders: Vec::new(),
        fills: Vec::new(),
    }
}

fn apply(book: &mut AlpacaPaperOrderBook, frame: &JsonValue) {
    apply_alpaca_trade_update(
        book,
        frame,
        ACCOUNT_ID,
        "2026-09-23T10:05:00Z".to_string(),
        &Vec::new(),
        Some("equity:US:AAPL".to_string()),
    )
    .unwrap();
}

fn rest_fill(qty: &str) -> JsonValue {
    obj(vec![
        ("id", s("20260923100200000::00000000-0000-4000-8000-000000000002")),
        ("order_id", s(ORDER_ID)),
        ("symbol", s("AAPL")),
        ("side", s("buy")),
        ("qty", s(qty)),
        ("price", s("10.25")),
        ("transaction_time", s("2026-09-23T10:02:00Z")),
    ])
}

#[test]
fn updates_dedupe_fills_ignore_late_states_and_preserve_unknown_statuses() {
    let mut book = empty_book();
    let partial = frame(
        "partial_fill",
        "partially_filled",
        "0.5",
        "2026-09-23T10:02:00Z",
    );
    apply(&mut book, &partial);
    apply(&mut book, &partial);
    assert_eq!(book.fills.len(), 1);
    assert_eq!(book.orders[0].provider_status, "partially_filled");
    assert_eq!(book.fills[0].source, AlpacaPaperFillSource::TradeUpdate);

    let rest = parse_alpaca_fill(
        &rest_fill("0.5"),
        "2026-09-23T10:03:00Z",
        AlpacaPaperFillSource::RestActivity,
        Some("equity:US:AAPL".to_string()),
    )
    .unwrap();
    insert_fill(&mut book.fills, rest).unwrap();
    assert_eq!(book.fills.len(), 1);
    assert_eq!(book.fills[0].source, AlpacaPaperFillSource::RestActivity);
    assert!(book.fills[0].activity_id.contains("::"));
    apply(&mut book, &partial);
    assert_eq!(book.fills.len(), 1);
    assert_eq!(book.fills[0].source, AlpacaPaperFillSource::RestActivity);

    let conflicting = parse_alpaca_fill(
        &rest_fill("0.4"),
        "2026-09-23T10:03:00Z",
        AlpacaPaperFillSource::RestActivity,
        Some("equity:US:AAPL".to_string()),
    )
    .unwrap();
    assert!(insert_fill(&mut book.fills, conflicting).is_err());

    let late = frame("new", "new", "0", "2026-09-23T10:01:00Z");
    apply(&mut book, &late);
    assert_eq!(book.orders[0].provider_status, "partially_filled");

    let unknown = frame(
        "provider_transition",
        "future_provider_state",
        "0.5",
        "2026-09-23T10:03:00Z",
    );
    apply(&mut book, &unknown);
    assert_eq!(book.orders[0].provider_status, "future_provider_state");
    assert_eq!(book.fills.len(), 1);
}

#[test]
fn stream_updates_preserve_supported_lifecycle_states() {
    for (event, status, filled, has_fill) in [
        ("new", "new", "0", false),
        ("partial_fill", "partially_filled", "0.5", true),
        ("fill", "filled", "1", true),
        ("rejected", "rejected", "0", false),
        ("canceled", "canceled", "0", false),
        ("expired", "expired", "0", false),
    ] {
        let mut book = empty_book();
        let update = frame(event, status, filled, "2026-09-23T10:02:00Z");
        apply(&mut book, &update);
        assert_eq!(book.orders[0].provider_status, status);
        assert_eq!(book.fills.len(), usize::from(has_fill));
        assert_eq!(
            book.status,
            AlpacaPaperOrderBookStatus::Stale,
            "every stream event requires REST reconciliation"
        );
    }
}

#[test]
fn stream_updates_reject_cross_account_identity_and_secret_reflection() {
    let event = frame("new", "new", "0", "2026-09-23T10:01:00Z");
    let error = parse_alpaca_trade_update(
        &event,
        "different-remote-account",
        "2026-09-23T10:01:00Z",
        &Vec::new(),
        None,
    )
    .unwrap_err();
    assert_eq!(error.code, "PROVIDER_IDENTITY_CHANGED");

    let mut reflected = event;
    if let JsonValue::Object(members) = &mut reflected {
        members.push(("diagnostic".to_string(), s("fixture-private-secret")));
    }
    let error = parse_alpaca_trade_update(
        &reflected,
        ACCOUNT_ID,
        "2026-09-23T10:01:00Z",
        &vec!["fixture-private-secret".to_string()],
        None,
    )
    .unwrap_err();
    assert_eq!(error.code, "PROVIDER_RESPONSE_INVALID");
}

#[test]
fn trade_update_reports_order_and_fill_fields() {
    let update = frame("fill", "filled", "1", "2026-09-23T10:02:00Z");
    let (order, fill) = parse_alpaca_trade_update(
        &update,
        ACCOUNT_ID,
        "2026-09-23T10:04:00Z",
        &Vec::new(),
        Some("equity:US:AAPL".to_string()),
    )
    .unwrap();
    assert_eq!(order.remaining_quantity.as_deref(), Some("0"));
    assert_eq!(order.provider_updated_at.as_deref(), Some("2026-09-23T10:02:00Z"));
    let fill = fill.unwrap();
    assert_eq!(fill.activity_id, "00000000-0000-4000-8000-000000000002");
    assert_eq!(fill.provider_order_id, ORDER_ID);
    assert_eq!(fill.quantity, "0.5");
    assert_eq!(fill.price, "10.25");
    assert_eq!(fill.executed_at, "2026-09-23T10:02:00Z");
    assert_eq!(fill.instrument_id.as_deref(), Some("equity:US:AAPL"));
}

#[test]
fn orders_compute_the_exact_remaining_quantity() {
    let order = obj(vec![
        ("id", s(ORDER_ID)),
        ("client_order_id", s("client-1")),
        ("symbol", s("MSFT")),
        ("side", s("sell")),
        ("type", s("market")),
        ("time_in_force", s("day")),
        ("status", s("partially_filled")),
        ("qty", s("10.500")),
        ("filled_qty", s("2.25")),
        ("created_at", s("2026-09-23T10:00:00Z")),
    ]);
    let parsed = parse_alpaca_order(&order, "2026-09-23T10:05:00Z", None).unwrap();
    assert_eq!(parsed.quantity.as_deref(), Some("10.5"));
    assert_eq!(parsed.remaining_quantity.as_deref(), Some("8.25"));
    assert_eq!(parsed.submitted_at, "2026-09-23T10:00:00Z");
    assert_eq!(parsed.provider_updated_at, None);
    let overfilled = obj(vec![
        ("id", s(ORDER_ID)),
        ("client_order_id", s("client-1")),
        ("symbol", s("MSFT")),
        ("side", s("sell")),
        ("type", s("market")),
        ("time_in_force", s("day")),
        ("status", s("filled")),
        ("qty", s("1")),
        ("filled_qty", s("2")),
        ("submitted_at", s("2026-09-23T10:00:00Z")),
    ]);
    assert_eq!(
        parse_alpaca_order(&overfilled, "2026-09-23T10:05:00Z", None).unwrap_err().code,
        "PROVIDER_RESPONSE_INVALID"
    );
}

#[test]
fn decimals_are_strings_only() {
    assert_eq!(decimal(&s("007.50")).unwrap(), "7.5");
    assert_eq!(decimal(&s("-0.0")).unwrap(), "0");
    assert!(decimal(&JsonValue::Number("7.5".into())).is_err());
    assert!(decimal(&s("1e5")).is_err());
    assert!(decimal(&JsonValue::Null).is_err());
}

#[test]
fn secrets_are_found_in_keys_numbers_and_nested_values() {
    let secrets = vec!["hunter2".to_string()];
    assert!(contains_secret(&obj(vec![("xhunter2x", JsonValue::Null)]), &secrets));
    assert!(contains_secret(&JsonValue::Array(vec![JsonValue::Bool(true), s("a hunter2")]), &secrets));
    assert!(contains_secret(&JsonValue::Number("12".into()), &vec!["12".to_string()]));
    assert!(!contains_secret(&obj(vec![("safe", s("value"))]), &secrets));
}

fn account(status: &str, shorting: bool) -> JsonValue {
    obj(vec![
        ("id", s(ACCOUNT_ID)),
        ("currency", s("USD")),
        ("status", s(status)),
        ("account_blocked", JsonValue::Bool(false)),
        ("trading_blocked", JsonValue::Bool(false)),
        ("shorting_enabled", JsonValue::Bool(shorting)),
        ("cash", s("1000.00")),
        ("equity", s("1500")),
        ("buying_power", s("2000")),
    ])
}

#[test]
fn account_reads_normalize_positions_and_orders() {
    let positions = JsonValue::Array(vec![obj(vec![
        ("symbol", s("AAPL")),
        ("qty", s("3")),
        ("market_value", s("600.10")),
        ("avg_entry_price", JsonValue::Null),
    ])]);
    let orders = JsonValue::Array(vec![obj(vec![
        ("id", s(ORDER_ID)),
        ("side", s("buy")),
        ("status", s("new")),
        ("qty", s("1")),
        ("symbol", s("MSFT")),
        ("filled_qty", s("0")),
        ("limit_price", s("100.50")),
    ])]);
    let observation = alpaca(&account("ACTIVE", true), &positions, &orders).unwrap();
    let data = observation.data;
    assert_eq!(data.remote_account_id, ACCOUNT_ID);
    assert_eq!(data.account_type, "ALPACA_PAPER");
    assert_eq!(data.balances[0].available, "1000");
    assert_eq!(data.balances[0].total.as_deref(), Some("1500"));
    assert_eq!(data.positions[0].market_value.as_deref(), Some("600.1"));
    assert_eq!(data.positions[0].average_entry_price, None);
    assert_eq!(data.open_orders[0].limit_price.as_deref(), Some("100.5"));
    assert_eq!(data.open_orders[0].currency.as_deref(), Some("USD"));
    assert_eq!(data.limitations.len(), 2);
    assert_eq!(observation.permissions.detected.len(), 3);
    let restricted = alpaca(&account("DISABLED", false), &positions, &orders).unwrap();
    assert_eq!(restricted.data.limitations.len(), 2);
    let duplicated = JsonValue::Array(vec![
        obj(vec![("id", s(ORDER_ID)), ("side", s("buy")), ("status", s("new")), ("qty", s("1")), ("symbol", s("MSFT")), ("filled_qty", s("0"))]),
        obj(vec![("id", s(ORDER_ID)), ("side", s("buy")), ("status", s("new")), ("qty", s("1")), ("symbol", s("MSFT")), ("filled_qty", s("0"))]),
    ]);
    assert_eq!(
        alpaca(&account("ACTIVE", false), &positions, &duplicated).err().unwrap().code,
        "PROVIDER_RESPONSE_INVALID"
    );
    assert_eq!(
        alpaca(&account("PAUSED", false), &positions, &orders).err().unwrap().code,
        "PROVIDER_RESPONSE_INVALID"
    );
}

#[test]
fn order_rejections_are_classified_by_message() {
    assert_eq!(alpaca_order_rejection(401, None, "buy").code, "PROVIDER_AUTH_FAILED");
    assert_eq!(alpaca_order_rejection(429, None, "buy").code, "PROVIDER_RATE_LIMITED");
    assert_eq!(alpaca_order_rejection(422, Some("insufficient buying power"), "buy").code, "PROVIDER_ORDER_REJECTED");
    assert_eq!(
        alpaca_order_rejection(403, Some("Insufficient Buying Power"), "buy").code,
        "ORDER_BUYING_POWER_INSUFFICIENT"
    );
    assert_eq!(
        alpaca_order_rejection(403, Some("not enough shares available"), "sell").code,
        "ORDER_INSUFFICIENT_POSITION"
    );
    assert_eq!(
        alpaca_order_rejection(403, Some("Account not eligible"), "sell").code,
        "PROVIDER_PERMISSION_BLOCKED"
    );
    assert_eq!(alpaca_order_rejection(403, None, "buy").code, "PROVIDER_ORDER_REJECTED");
}

#[test]
fn assets_and_positions_gate_submissions() {
    let asset = |status: &str, fractionable: bool| {
        obj(vec![
            ("id", s(ORDER_ID)),
            ("symbol", s("AAPL")),
            ("class", s("us_equity")),
            ("status", s(status)),
            ("tradable", JsonValue::Bool(true)),
            ("fractionable", JsonValue::Bool(fractionable)),
        ])
    };
    assert_eq!(validate_alpaca_asset(&asset("active", true), "AAPL", true).unwrap(), ORDER_ID);
    assert_eq!(
        validate_alpaca_asset(&asset("inactive", true), "AAPL", false).unwrap_err().code,
        "ORDER_ASSET_UNTRADABLE"
    );
    assert_eq!(
        validate_alpaca_asset(&asset("active", false), "AAPL", true).unwrap_err().code,
        "ORDER_ASSET_NOT_FRACTIONABLE"
    );
    assert_eq!(
        validate_alpaca_asset(&asset("active", true), "MSFT", false).unwrap_err().code,
        "PROVIDER_RESPONSE_INVALID"
    );
    let position = obj(vec![
        ("asset_id", s(ORDER_ID)),
        ("symbol", s("AAPL")),
        ("asset_class", s("us_equity")),
        ("side", s("long")),
        ("qty_available", s("2.5")),
    ]);
    assert!(validate_alpaca_sell_position(&position, "AAPL", ORDER_ID, "2.5").is_ok());
    assert_eq!(
        validate_alpaca_sell_position(&position, "AAPL", ORDER_ID, "2.51").unwrap_err().code,
        "ORDER_INSUFFICIENT_POSITION"
    );
}

fn proposal(quantity: &str, order_type: OrderType, limit: Option<&str>) -> OrderProposal {
    OrderProposal {
        proposal_id: "proposal-1".into(),
        workspace_id: "workspace-1".into(),
        draft_id: "draft-1".into(),
        draft_version: 1,
        proposal_hash: "sha256:abc".into(),
        fields: OrderDraftFields {
            account_id: Some("connection-1".into()),
            venue: "NASDAQ".into(),
            environment: ExecutionContext::AlpacaPaper,
            instrument_id: "equity:US:AAPL".into(),
            side: OrderSide::Buy,
            order_type,
            quantity: OrderQuantity { quantity_type: OrderQuantityType::Base, value: quantity.into() },
            limit_price: limit.map(|l| l.to_string()),
            maximum_spend: None,
            time_in_force: TimeInForce::Day,
            client_label: None,
        },
        estimated_notional: None,
        estimated_notional_currency: None,
        estimated_notional_reason: None,
        policy_version: None,
        policy_state_version: None,
        policy_status: ProposalReferenceStatus::Available,
        policy_reference_reason: "configured".into(),
        market_snapshot_id: None,
        market_status: MarketDataStatus::Available,
        market_reference_reason: "fresh".into(),
        status: OrderProposalStatus::NeedsApproval,
        invalidation_reason: None,
        created_at: "2026-09-23T10:00:00Z".into(),
        state_version: "v1".into(),
        history: Vec::new(),
    }
}

fn attempt() -> AlpacaPaperOrderAttempt {
    AlpacaPaperOrderAttempt {
        attempt_id: "attempt-1".into(),
        workspace_id: "workspace-1".into(),
        connection_id: "connection-1".into(),
        remote_account_id: ACCOUNT_ID.into(),
        proposal_id: "proposal-1".into(),
        proposal_hash: "sha256:abc".into(),
        client_order_id: "tradex-1".into(),
        state: AlpacaPaperOrderAttemptState::Submitting,
        provider_order_id: None,
        provider_status: None,
        error_code: None,
        reason: "submitting".into(),
        state_version: "v1".into(),
        created_at: "2026-09-23T10:00:00Z".into(),
        updated_at: "2026-09-23T10:00:00Z".into(),
    }
}

fn member<'a>(body: &'a JsonValue, key: &str) -> Option<&'a str> {
    match body {
        JsonValue::Object(members) => members.iter().find(|(k, _)| k == key).and_then(|(_, v)| match v {
            JsonValue::Str(text) => Some(text.as_str()),
            _ => None,
        }),
        _ => None,
    }
}

#[test]
fn order_requests_and_acknowledgements_match() {
    let (symbol, body, fractional) =
        alpaca_order_request(&proposal("1.5", OrderType::Market, None), &attempt(), Some("AAPL")).unwrap();
    assert_eq!(symbol, "AAPL");
    assert!(fractional);
    assert_eq!(member(&body, "qty"), Some("1.5"));
    assert_eq!(member(&body, "type"), Some("market"));
    assert_eq!(member(&body, "time_in_force"), Some("day"));
    assert_eq!(member(&body, "client_order_id"), Some("tradex-1"));
    assert_eq!(
        alpaca_order_request(&proposal("1.5", OrderType::Limit, Some("10")), &attempt(), Some("AAPL"))
            .unwrap_err()
            .code,
        "ORDER_CAPABILITY_UNSUPPORTED"
    );
    assert_eq!(
        alpaca_order_request(&proposal("1", OrderType::Limit, None), &attempt(), Some("AAPL"))
            .unwrap_err()
            .code,
        "ORDER_AMOUNT_INVALID"
    );
    assert_eq!(
        alpaca_order_request(&proposal("1", OrderType::Market, None), &attempt(), None)
            .unwrap_err()
            .code,
        "ORDER_INSTRUMENT_PROVIDER_UNSUPPORTED"
    );
    let (_, limit_body, whole) =
        alpaca_order_request(&proposal("2", OrderType::Limit, Some("10.5")), &attempt(), Some("AAPL")).unwrap();
    assert!(!whole);
    assert_eq!(member(&limit_body, "limit_price"), Some("10.5"));

    let reply = obj(vec![
        ("id", s(ORDER_ID)),
        ("client_order_id", s("tradex-1")),
        ("symbol", s("AAPL")),
        ("asset_class", s("us_equity")),
        ("side", s("buy")),
        ("type", s("market")),
        ("time_in_force", s("day")),
        ("qty", s("1.5")),
        ("status", s("accepted")),
    ]);
    let acknowledged = alpaca_acknowledgement(&reply, &body, "AAPL", None, &attempt()).unwrap();
    assert_eq!(acknowledged.state, AlpacaPaperOrderAttemptState::Acknowledged);
    assert_eq!(acknowledged.provider_order_id.as_deref(), Some(ORDER_ID));
    assert_eq!(acknowledged.provider_status.as_deref(), Some("accepted"));
    assert_eq!(acknowledged.attempt_id, "attempt-1");
    let wrong = obj(vec![
        ("id", s(ORDER_ID)),
        ("client_order_id", s("tradex-1")),
        ("symbol", s("AAPL")),
        ("asset_class", s("us_equity")),
        ("side", s("buy")),
        ("type", s("market")),
        ("time_in_force", s("day")),
        ("qty", s("2")),
        ("status", s("accepted")),
    ]);
    assert_eq!(
        alpaca_acknowledgement(&wrong, &body, "AAPL", None, &attempt()).unwrap_err().code,
        "PROVIDER_RESPONSE_INVALID"
    );
}
