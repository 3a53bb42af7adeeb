use tradex::jobs::{
    bound_proposal, cancel_finish, cancel_refreshed, cancel_review, cancel_sent, cancel_target,
    checked_body, degrade_order_book, demo_read_error, demo_submit_refusal, endpoint_for, fill_page,
    observed_account_id, observed_credential_state, open_orders_page, order_history_page,
    order_read_path, order_reply, order_submission, paper_account_check, read_reply,
    reconcile_identity, reconcile_lookup, refresh_order_book, review_order, review_submit_account,
    route_job, sell_quantity, settle_alpaca_attempt, settle_trading212_attempt, submit_account_reply,
    submit_asset_reply, submit_position_reply, verify_account_reply, JobRoute, ProviderReply,
    SubmitOutcome,
};
use tradex::json::JsonValue;
use tradex::protocol::{
    AlpacaPaperCancelState, AlpacaPaperOrder, AlpacaPaperOrderAttempt, AlpacaPaperOrderAttemptState,
    AlpacaPaperOrderBook, AlpacaPaperOrderBookStatus, ExecutionContext, MarketDataStatus,
    OrderDraftFields, OrderProposal, OrderProposalStatus, OrderQuantity, OrderQuantityType,
    OrderSide, OrderType, ProposalReferenceStatus, TimeInForce, TradeXError,
    Trading212DemoOrderAttempt, Trading212DemoOrderAttemptState,
};
use tradex::provider_io::{
    alpaca_order_request, parse_alpaca_order, trading212_demo_order_request,
    validate_alpaca_paper_proposal, validate_trading212_demo_proposal, JobKind, ProviderEndpoint,
    ProviderListing,
};

const ACCOUNT_ID: &str = "81161e77-bafd-44bb-b2a0-60b9055e3cd4";
const OTHER_ACCOUNT: &str = "91161e77-bafd-44bb-b2a0-60b9055e3cd4";
const ORDER_ID: &str = "18c65e3e-feb0-4576-99e2-36e6f047d84d";
const SECOND_ORDER: &str = "28c65e3e-feb0-4576-99e2-36e6f047d84d";
const ASSET_ID: &str = "b0b6dd9d-8b9b-48a9-ba46-b9d54906e415";
const NOW: &str = "2026-09-23T10:05:00Z";

fn s(text: &str) -> JsonValue {
    JsonValue::Str(text.into())
}

fn obj(members: Vec<(&str, JsonValue)>) -> JsonValue {
    JsonValue::Object(members.into_iter().map(|(k, v)| (k.to_string(), v)).collect())
}

fn ok(body: JsonValue) -> ProviderReply {
    ProviderReply::Answered(200, Some(body))
}

fn account(status: &str, blocked: bool, currency: &str, buying_power: &str) -> JsonValue {
    obj(vec![
        ("id", s(ACCOUNT_ID)),
        ("status", s(status)),
        ("account_blocked", JsonValue::Bool(blocked)),
        ("trading_blocked", JsonValue::Bool(false)),
        ("trade_suspended_by_user", JsonValue::Bool(false)),
        ("currency", s(currency)),
        ("buying_power", s(buying_power)),
    ])
}

fn proposal(quantity_type: OrderQuantityType, quantity: &str) -> OrderProposal {
    OrderProposal {
        proposal_id: "proposal-1".into(),
        workspace_id: "workspace-1".into(),
        draft_id: "draft-1".into(),
        draft_version: 1,
        proposal_hash: "sha256:abc".into(),
        fields: OrderDraftFields {
            account_id: Some("connection-1".into()),
            venue: "NASDAQ".into(),
            environment: ExecutionContext::AlpacaPaper,
            instrument_id: "equity:US:AAPL".into(),
            side: OrderSide::Buy,
            order_type: OrderType::Market,
            quantity: OrderQuantity { quantity_type, value: quantity.into() },
            limit_price: None,
            maximum_spend: None,
            time_in_force: TimeInForce::Day,
            client_label: None,
        },
        estimated_notional: None,
        estimated_notional_currency: None,
        estimated_notional_reason: None,
        policy_version: None,
        policy_state_version: None,
        policy_status: ProposalReferenceStatus::Available,
        policy_reference_reason: "configured".into(),
        market_snapshot_id: None,
        market_status: MarketDataStatus::Available,
        market_reference_reason: "fresh".into(),
        status: OrderProposalStatus::NeedsApproval,
        invalidation_reason: None,
        created_at: "2026-09-23T10:00:00Z".into(),
        state_version: "v1".into(),
        history: Vec::new(),
    }
}

fn attempt() -> AlpacaPaperOrderAttempt {
    AlpacaPaperOrderAttempt {
        attempt_id: "attempt-1".into(),
        workspace_id: "workspace-1".into(),
        connection_id: "connection-1".into(),
        remote_account_id: ACCOUNT_ID.into(),
        proposal_id: "proposal-1".into(),
        proposal_hash: "sha256:abc".into(),
        client_order_id: "tradex-1".into(),
        state: AlpacaPaperOrderAttemptState::Submitting,
        provider_order_id: None,
        provider_status: None,
        error_code: None,
        reason: "submitting".into(),
        state_version: "v1".into(),
        created_at: "2026-09-23T10:00:00Z".into(),
        updated_at: "2026-09-23T10:00:00Z".into(),
    }
}

fn order_record(qty: &str) -> JsonValue {
    obj(vec![
        ("id", s(ORDER_ID)),
        ("client_order_id", s("tradex-1")),
        ("symbol", s("AAPL")),
        ("asset_id", s(ASSET_ID)),
        ("asset_class", s("us_equity")),
        ("side", s("buy")),
        ("type", s("market")),
        ("time_in_force", s("day")),
        ("qty", s(qty)),
        ("status", s("accepted")),
    ])
}

fn order_row(id: &str, status: &str, filled: &str, updated: &str) -> JsonValue {
    obj(vec![
        ("id", s(id)),
        ("client_order_id", s("tradex-1")),
        ("symbol", s("AAPL")),
        ("side", s("buy")),
        ("type", s("limit")),
        ("time_in_force", s("day")),
        ("status", s(status)),
        ("qty", s("2")),
        ("filled_qty", s(filled)),
        ("submitted_at", s("2026-09-23T10:00:00Z")),
        ("updated_at", s(updated)),
    ])
}

fn order(id: &str, status: &str, filled: &str, updated: &str) -> AlpacaPaperOrder {
    parse_alpaca_order(&order_row(id, status, filled, updated), NOW, Some("equity:US:AAPL".into())).unwrap()
}

fn book(orders: Vec<AlpacaPaperOrder>) -> AlpacaPaperOrderBook {
    AlpacaPaperOrderBook {
        workspace_id: "workspace-1".into(),
        connection_id: "connection-1".into(),
        remote_account_id: ACCOUNT_ID.into(),
        status: AlpacaPaperOrderBookStatus::Current,
        state_version: "v1".into(),
        last_successful_sync_at: None,
        observed_at: "2026-09-23T10:00:00Z".into(),
        reason: None,
        orders,
        fills: Vec::new(),
    }
}

fn instruments() -> Vec<(String, String)> {
    vec![("AAPL".to_string(), "equity:US:AAPL".to_string())]
}

fn code<T>(r: Result<T, TradeXError>) -> String {
    match r {
        Ok(_) => "OK".to_string(),
        Err(e) => e.code,
    }
}

#[test]
fn submit_account_review_checks_identity_status_and_buying_power() {
    let notional_body = obj(vec![("notional", s("150")), ("side", s("buy"))]);
    let qty_body = obj(vec![("qty", s("1")), ("side", s("buy"))]);
    assert!(review_submit_account(&account("ACTIVE", false, "USD", "200"), ACCOUNT_ID, &notional_body).is_ok());
    assert_eq!(
        code(review_submit_account(&account("ACTIVE", false, "USD", "100"), ACCOUNT_ID, &notional_body)),
        "ORDER_BUYING_POWER_INSUFFICIENT"
    );
    assert_eq!(
        code(review_submit_account(&account("ACTIVE", false, "EUR", "900"), ACCOUNT_ID, &notional_body)),
        "ORDER_CAPABILITY_UNSUPPORTED"
    );
    assert!(review_submit_account(&account("ACTIVE", false, "EUR", "1"), ACCOUNT_ID, &qty_body).is_ok());
    assert_eq!(
        code(review_submit_account(&account("ACTIVE", true, "USD", "900"), ACCOUNT_ID, &qty_body)),
        "PROVIDER_REVIEW_REQUIRED"
    );
    assert_eq!(
        code(review_submit_account(&account("INACTIVE", false, "USD", "900"), ACCOUNT_ID, &qty_body)),
        "PROVIDER_REVIEW_REQUIRED"
    );
    assert_eq!(
        code(review_submit_account(&account("ACTIVE", false, "USD", "900"), OTHER_ACCOUNT, &qty_body)),
        "PROVIDER_REVIEW_REQUIRED"
    );
    assert_eq!(
        code(review_submit_account(&account("ACTIVE", false, "usd", "900"), ACCOUNT_ID, &qty_body)),
        "PROVIDER_RESPONSE_INVALID"
    );
}

#[test]
fn read_replies_map_status_and_missing_resources() {
    assert_eq!(code(read_reply(ProviderReply::Answered(401, None), None)), "PROVIDER_AUTH_FAILED");
    assert_eq!(code(read_reply(ProviderReply::Answered(500, None), None)), "PROVIDER_UNAVAILABLE");
    assert_eq!(code(read_reply(ProviderReply::Answered(200, None), None)), "PROVIDER_RESPONSE_INVALID");
    assert_eq!(
        code(read_reply(ProviderReply::Answered(404, None), Some("ORDER_ASSET_UNAVAILABLE"))),
        "ORDER_ASSET_UNAVAILABLE"
    );
    assert_eq!(code(read_reply(ProviderReply::Answered(404, None), None)), "PROVIDER_RESPONSE_INVALID");
    assert_eq!(
        code(read_reply(ProviderReply::Failed(TradeXError::new("PROVIDER_UNAVAILABLE")), None)),
        "PROVIDER_UNAVAILABLE"
    );
    assert!(read_reply(ok(s("x")), None).is_ok());
    assert_eq!(
        code(submit_account_reply(ProviderReply::Answered(403, None), ACCOUNT_ID, &obj(vec![]))),
        "PROVIDER_PERMISSION_BLOCKED"
    );
    assert_eq!(
        code(submit_asset_reply(ProviderReply::Answered(404, None), "AAPL", false)),
        "ORDER_ASSET_UNAVAILABLE"
    );
    assert_eq!(
        code(submit_position_reply(ProviderReply::Answered(404, None), "AAPL", ASSET_ID, "1")),
        "ORDER_INSUFFICIENT_POSITION"
    );
}

#[test]
fn sell_quantities_come_from_the_body() {
    assert_eq!(sell_quantity(&obj(vec![("side", s("buy")), ("qty", s("1"))])).unwrap(), None);
    assert_eq!(
        sell_quantity(&obj(vec![("side", s("sell")), ("qty", s("1.5"))])).unwrap(),
        Some("1.5".to_string())
    );
    assert_eq!(
        code(sell_quantity(&obj(vec![("side", s("sell")), ("notional", s("10"))]))),
        "ORDER_CAPABILITY_UNSUPPORTED"
    );
}

#[test]
fn submission_replies_acknowledge_refuse_or_reconcile() {
    let (symbol, body, _) =
        alpaca_order_request(&proposal(OrderQuantityType::Base, "1.5"), &attempt(), Some("AAPL")).unwrap();
    match order_submission(ok(order_record("1.5")), &body, &symbol, ASSET_ID, &attempt()) {
        SubmitOutcome::Settled(Ok(a)) => {
            assert_eq!(a.state, AlpacaPaperOrderAttemptState::Acknowledged);
            assert_eq!(a.provider_order_id.as_deref(), Some(ORDER_ID));
        }
        _ => panic!("expected an acknowledgement"),
    }
    assert!(matches!(
        order_submission(ok(order_record("2")), &body, &symbol, ASSET_ID, &attempt()),
        SubmitOutcome::Reconcile
    ));
    assert!(matches!(
        order_submission(ProviderReply::Answered(503, None), &body, &symbol, ASSET_ID, &attempt()),
        SubmitOutcome::Reconcile
    ));
    assert!(matches!(
        order_submission(
            ProviderReply::Failed(TradeXError::new("PROVIDER_UNAVAILABLE")),
            &body,
            &symbol,
            ASSET_ID,
            &attempt()
        ),
        SubmitOutcome::Reconcile
    ));
    let refusal = obj(vec![("message", s("Insufficient buying power"))]);
    match order_submission(ProviderReply::Answered(403, Some(refusal)), &body, &symbol, ASSET_ID, &attempt()) {
        SubmitOutcome::Settled(Err(e)) => assert_eq!(e.code, "ORDER_BUYING_POWER_INSUFFICIENT"),
        _ => panic!("expected a refusal"),
    }
    match order_submission(ProviderReply::Answered(422, None), &body, &symbol, ASSET_ID, &attempt()) {
        SubmitOutcome::Settled(Err(e)) => assert_eq!(e.code, "PROVIDER_ORDER_REJECTED"),
        _ => panic!("expected a refusal"),
    }
}

#[test]
fn settled_attempts_keep_their_identity() {
    let rejected = settle_alpaca_attempt(attempt(), Err(TradeXError::new("ORDER_ASSET_UNAVAILABLE")));
    assert_eq!(rejected.state, AlpacaPaperOrderAttemptState::Rejected);
    assert_eq!(rejected.error_code.as_deref(), Some("ORDER_ASSET_UNAVAILABLE"));
    assert_eq!(rejected.reason, TradeXError::new("ORDER_ASSET_UNAVAILABLE").message);
    assert_eq!(rejected.client_order_id, "tradex-1");
    let mut acknowledged = attempt();
    acknowledged.state = AlpacaPaperOrderAttemptState::Acknowledged;
    assert_eq!(settle_alpaca_attempt(attempt(), Ok(acknowledged.clone())), acknowledged);

    let demo = Trading212DemoOrderAttempt {
        attempt_id: "attempt-2".into(),
        workspace_id: "workspace-1".into(),
        connection_id: "connection-2".into(),
        remote_account_id: "12345".into(),
        proposal_id: "proposal-2".into(),
        proposal_hash: "sha256:def".into(),
        state: Trading212DemoOrderAttemptState::Submitting,
        provider_order_id: Some("1".into()),
        provider_status: Some("NEW".into()),
        error_code: None,
        reason: "submitting".into(),
        state_version: "v1".into(),
        created_at: "2026-09-23T10:00:00Z".into(),
        updated_at: "2026-09-23T10:00:00Z".into(),
    };
    let refused = settle_trading212_attempt(demo, Err(TradeXError::new("PROVIDER_RATE_LIMITED")));
    assert_eq!(refused.state, Trading212DemoOrderAttemptState::Rejected);
    assert_eq!(refused.provider_order_id, None);
    assert_eq!(refused.provider_status, None);
    assert_eq!(refused.error_code.as_deref(), Some("PROVIDER_RATE_LIMITED"));
}

#[test]
fn reconciliation_never_resends_and_explains_unknown_outcomes() {
    let p = proposal(OrderQuantityType::Base, "1.5");
    let stopped = reconcile_identity(&attempt(), ProviderReply::Answered(500, None), &p, Some("AAPL")).unwrap_err();
    assert_eq!(stopped.state, AlpacaPaperOrderAttemptState::UnknownReconciling);
    assert_eq!(stopped.error_code.as_deref(), Some("PROVIDER_UNAVAILABLE"));
    let other = obj(vec![("id", s(OTHER_ACCOUNT))]);
    let changed = reconcile_identity(&attempt(), ok(other), &p, Some("AAPL")).unwrap_err();
    assert_eq!(changed.error_code.as_deref(), Some("PROVIDER_IDENTITY_CHANGED"));
    let same = obj(vec![("id", s(ACCOUNT_ID))]);
    let unbuildable = reconcile_identity(&attempt(), ok(obj(vec![("id", s(ACCOUNT_ID))])), &p, None).unwrap_err();
    assert_eq!(unbuildable.error_code.as_deref(), Some("ORDER_STATUS_UNKNOWN"));
    let (symbol, request, path) = reconcile_identity(&attempt(), ok(same), &p, Some("AAPL")).unwrap();
    assert_eq!(symbol, "AAPL");
    assert_eq!(path, "/v2/orders:by_client_order_id?client_order_id=tradex-1");

    let found = reconcile_lookup(&attempt(), ok(order_record("1.5")), &request, &symbol);
    assert_eq!(found.state, AlpacaPaperOrderAttemptState::Acknowledged);
    let missing = reconcile_lookup(&attempt(), ProviderReply::Answered(404, None), &request, &symbol);
    assert_eq!(missing.state, AlpacaPaperOrderAttemptState::UnknownReconciling);
    assert_eq!(missing.error_code.as_deref(), Some("ORDER_STATUS_UNKNOWN"));
    assert!(missing.reason.contains("single empty lookup"));
    let mismatch = reconcile_lookup(&attempt(), ok(order_record("3")), &request, &symbol);
    assert_eq!(mismatch.error_code.as_deref(), Some("PROVIDER_RESPONSE_INVALID"));
    let limited = reconcile_lookup(&attempt(), ProviderReply::Answered(429, None), &request, &symbol);
    assert_eq!(limited.error_code.as_deref(), Some("PROVIDER_RATE_LIMITED"));
}

#[test]
fn order_book_refresh_and_review() {
    let mut b = book(Vec::new());
    refresh_order_book(&mut b, vec![order(ORDER_ID, "new", "0", "2026-09-23T10:01:00Z")], Vec::new(), NOW.into())
        .unwrap();
    assert_eq!(b.status, AlpacaPaperOrderBookStatus::Current);
    assert_eq!(b.orders.len(), 1);
    assert_eq!(b.last_successful_sync_at.as_deref(), Some(NOW));

    let fresh = order(ORDER_ID, "partially_filled", "1", "2026-09-23T10:02:00Z");
    review_order(&mut b, ORDER_ID, fresh, "2026-09-23T10:06:00Z".into()).unwrap();
    assert_eq!(b.orders[0].provider_status, "partially_filled");
    assert_eq!(b.status, AlpacaPaperOrderBookStatus::Stale);
    assert_eq!(b.reason.as_deref(), Some("FULL_ORDER_BOOK_REFRESH_REQUIRED"));
    let unknown = order(SECOND_ORDER, "new", "0", "2026-09-23T10:02:00Z");
    assert_eq!(code(review_order(&mut b, SECOND_ORDER, unknown, NOW.into())), "ORDER_STATUS_UNKNOWN");
    let mut other = order(ORDER_ID, "new", "0", "2026-09-23T10:03:00Z");
    other.symbol = "MSFT".into();
    assert_eq!(code(review_order(&mut b, ORDER_ID, other, NOW.into())), "PROVIDER_REVIEW_REQUIRED");
}

#[test]
fn failed_cancels_never_resend_a_request_that_may_have_arrived() {
    let mut submitting = order(ORDER_ID, "new", "0", "2026-09-23T10:01:00Z");
    submitting.cancel_state = AlpacaPaperCancelState::Submitting;
    submitting.cancel_idempotency_key = Some("cancel-1".into());
    let mut b = book(vec![submitting.clone()]);
    degrade_order_book(&mut b, "PROVIDER_UNAVAILABLE", Some(NOW.into()), Some(ORDER_ID), true);
    assert_eq!(b.status, AlpacaPaperOrderBookStatus::Degraded);
    assert_eq!(b.orders[0].cancel_state, AlpacaPaperCancelState::Pending);
    assert_eq!(b.orders[0].cancel_error.as_deref(), Some("ORDER_CANCEL_STATUS_UNKNOWN"));

    let mut b = book(vec![submitting]);
    degrade_order_book(&mut b, "PROVIDER_AUTH_FAILED", None, Some(ORDER_ID), false);
    assert_eq!(b.observed_at, "2026-09-23T10:00:00Z");
    assert_eq!(b.orders[0].cancel_state, AlpacaPaperCancelState::NotRequested);
    assert_eq!(b.orders[0].cancel_idempotency_key, None);
    assert_eq!(b.orders[0].cancel_error.as_deref(), Some("PROVIDER_AUTH_FAILED"));
    assert_eq!(b.reason.as_deref(), Some("PROVIDER_AUTH_FAILED"));
}

#[test]
fn cancel_flow_settles_each_reply() {
    let reviewed = order(ORDER_ID, "new", "0", "2026-09-23T10:01:00Z");
    let mut b = book(vec![reviewed.clone()]);
    assert_eq!(code(cancel_target(&b, ORDER_ID, None)), "ORDER_STATUS_UNKNOWN");
    assert_eq!(code(cancel_target(&b, SECOND_ORDER, Some(&reviewed))), "ORDER_STATUS_UNKNOWN");
    let index = cancel_target(&b, ORDER_ID, Some(&reviewed)).unwrap();
    assert_eq!(index, 0);

    let changed = order(ORDER_ID, "partially_filled", "1", "2026-09-23T10:02:00Z");
    assert!(!cancel_review(&mut b, index, &reviewed, changed, NOW.into()));
    assert_eq!(b.orders[0].cancel_error.as_deref(), Some("ORDER_CHANGED_REVIEW_AGAIN"));
    assert_eq!(b.reason.as_deref(), Some("ORDER_CHANGED_REVIEW_AGAIN"));

    let mut b = book(vec![reviewed.clone()]);
    let same = order(ORDER_ID, "new", "0", "2026-09-23T10:01:00Z");
    assert!(cancel_review(&mut b, index, &reviewed, same, NOW.into()));
    assert_eq!(b.reason, None);

    assert_eq!(cancel_sent(&mut b, index, Some(204), NOW.into()), Some(204));
    assert_eq!(b.orders[0].cancel_state, AlpacaPaperCancelState::Pending);
    let refreshed = order(ORDER_ID, "canceled", "0", "2026-09-23T10:03:00Z");
    cancel_refreshed(&mut b, index, 204, Ok(refreshed)).unwrap();
    assert_eq!(b.orders[0].provider_status, "canceled");
    assert_eq!(b.orders[0].cancel_state, AlpacaPaperCancelState::NotRequested);
    assert_eq!(b.orders[0].cancel_error, None);
    cancel_finish(&mut b, Vec::new(), NOW.into()).unwrap();
    assert_eq!(b.status, AlpacaPaperOrderBookStatus::Stale);
    assert_eq!(b.reason.as_deref(), Some("FULL_ORDER_BOOK_REFRESH_REQUIRED"));

    let mut b = book(vec![reviewed.clone()]);
    assert_eq!(cancel_sent(&mut b, 0, Some(422), NOW.into()), Some(422));
    assert_eq!(b.orders[0].cancel_error.as_deref(), Some("PROVIDER_CANCEL_REJECTED"));
    assert_eq!(cancel_sent(&mut b, 0, Some(401), NOW.into()), Some(401));
    assert_eq!(b.orders[0].cancel_error.as_deref(), Some("PROVIDER_AUTH_FAILED"));
    assert_eq!(cancel_sent(&mut b, 0, None, NOW.into()), None);
    assert_eq!(b.orders[0].cancel_state, AlpacaPaperCancelState::Pending);
    assert_eq!(b.reason.as_deref(), Some("ORDER_CANCEL_STATUS_UNKNOWN"));

    let mut b = book(vec![reviewed]);
    cancel_refreshed(&mut b, 0, 204, Err(TradeXError::new("PROVIDER_UNAVAILABLE"))).unwrap();
    assert_eq!(b.status, AlpacaPaperOrderBookStatus::Degraded);
    assert_eq!(b.reason.as_deref(), Some("ORDER_CANCEL_STATUS_UNKNOWN"));
    cancel_finish(&mut b, Vec::new(), NOW.into()).unwrap();
    assert_eq!(b.status, AlpacaPaperOrderBookStatus::Degraded);
}

#[test]
fn jobs_route_by_kind_and_endpoint() {
    assert_eq!(route_job(JobKind::Disconnect), JobRoute::Disconnect);
    assert_eq!(route_job(JobKind::AlpacaPaperReconcile), JobRoute::AlpacaOrder);
    assert_eq!(route_job(JobKind::Trading212DemoOrderBookDetail), JobRoute::Trading212OrderBook);
    assert_eq!(route_job(JobKind::AlpacaPaperOrderCancel), JobRoute::AlpacaOrderBook);
    assert_eq!(route_job(JobKind::Probe), JobRoute::Observe);
    assert_eq!(endpoint_for("alpaca", "PAPER").unwrap(), ProviderEndpoint::AlpacaPaper);
    assert_eq!(endpoint_for("bitget", "LIVE").unwrap(), ProviderEndpoint::BitgetLive);
    assert_eq!(code(endpoint_for("alpaca", "LIVE")), "PROVIDER_UNSUPPORTED");
    assert!(paper_account_check("alpaca", "PAPER").is_ok());
    assert_eq!(code(paper_account_check("trading212", "DEMO")), "PROVIDER_UNSUPPORTED");
}

#[test]
fn credential_states_after_a_read() {
    assert_eq!(observed_credential_state(true, None, None), "CONFIGURED");
    assert_eq!(observed_credential_state(false, None, Some("PROVIDER_UNSUPPORTED")), "MISSING");
    assert_eq!(observed_credential_state(true, Some(true), None), "MISSING");
    assert_eq!(observed_credential_state(true, Some(false), None), "DELETE_PENDING");
    assert_eq!(observed_credential_state(true, Some(false), Some("PROVIDER_AUTH_FAILED")), "INVALID");
}

#[test]
fn read_bodies_and_identities() {
    let secrets = vec!["key-secret".to_string()];
    assert_eq!(code(checked_body(None, &secrets)), "PROVIDER_RESPONSE_INVALID");
    assert_eq!(code(checked_body(Some(s("has key-secret inside")), &secrets)), "PROVIDER_RESPONSE_INVALID");
    assert!(checked_body(Some(s("clean")), &secrets).is_ok());
    let a = obj(vec![("id", s(ACCOUNT_ID))]);
    assert_eq!(observed_account_id(&a, None).unwrap(), ACCOUNT_ID);
    assert_eq!(observed_account_id(&a, Some(ACCOUNT_ID)).unwrap(), ACCOUNT_ID);
    assert_eq!(code(observed_account_id(&a, Some(OTHER_ACCOUNT))), "PROVIDER_IDENTITY_CHANGED");
    assert_eq!(code(observed_account_id(&obj(vec![("id", s("x"))]), None)), "PROVIDER_RESPONSE_INVALID");
    assert!(verify_account_reply(ok(obj(vec![("id", s(ACCOUNT_ID))])), ACCOUNT_ID, &secrets).is_ok());
    assert_eq!(
        code(verify_account_reply(ok(obj(vec![("id", s(ACCOUNT_ID))])), OTHER_ACCOUNT, &secrets)),
        "PROVIDER_REVIEW_REQUIRED"
    );
    assert_eq!(order_read_path(ORDER_ID).unwrap(), format!("/v2/orders/{ORDER_ID}"));
    assert_eq!(code(order_read_path("../x")), "IPC_PAYLOAD_INVALID");
    let read = order_reply(ok(order_row(ORDER_ID, "new", "0", NOW)), &secrets, NOW, &instruments()).unwrap();
    assert_eq!(read.instrument_id.as_deref(), Some("equity:US:AAPL"));
    assert_eq!(read.remaining_quantity.as_deref(), Some("2"));
}

#[test]
fn open_order_pages_collect_distinct_orders() {
    let mut collected = Vec::new();
    let mut seen = Vec::new();
    let page = JsonValue::Array(vec![obj(vec![("id", s(ORDER_ID))]), obj(vec![("id", s(SECOND_ORDER))])]);
    assert_eq!(open_orders_page(&mut collected, &mut seen, page).unwrap(), None);
    assert_eq!(collected.len(), 2);
    assert_eq!(seen, vec![ORDER_ID.to_string(), SECOND_ORDER.to_string()]);
    let repeat = JsonValue::Array(vec![obj(vec![("id", s(ORDER_ID))])]);
    assert_eq!(code(open_orders_page(&mut collected, &mut seen, repeat)), "PROVIDER_DATA_INCOMPLETE");
    let mut c2 = Vec::new();
    let mut s2 = Vec::new();
    assert_eq!(code(open_orders_page(&mut c2, &mut s2, s("x"))), "PROVIDER_RESPONSE_INVALID");
    let bad = JsonValue::Array(vec![obj(vec![("id", s("not-a-uuid"))])]);
    assert_eq!(code(open_orders_page(&mut c2, &mut s2, bad)), "PROVIDER_RESPONSE_INVALID");
}

#[test]
fn history_and_fill_pages_end_on_a_short_page() {
    let mut orders = Vec::new();
    let mut cursors = Vec::new();
    let page = JsonValue::Array(vec![order_row(ORDER_ID, "filled", "2", NOW)]);
    assert_eq!(order_history_page(&mut orders, &mut cursors, None, 0, page, NOW, &instruments()).unwrap(), None);
    assert_eq!(orders.len(), 1);
    assert_eq!(orders[0].instrument_id.as_deref(), Some("equity:US:AAPL"));
    assert!(cursors.is_empty());
    assert_eq!(
        code(order_history_page(&mut orders, &mut cursors, None, 0, s("x"), NOW, &instruments())),
        "PROVIDER_RESPONSE_INVALID"
    );
    let too_many = JsonValue::Array((0..101).map(|_| obj(vec![])).collect());
    assert_eq!(
        code(order_history_page(&mut orders, &mut cursors, None, 0, too_many, NOW, &instruments())),
        "PROVIDER_RESPONSE_INCOMPLETE"
    );

    let mut fills = Vec::new();
    let mut tokens = Vec::new();
    let row = obj(vec![
        ("id", s("20260923100000000::00000000-0000-4000-8000-000000000001")),
        ("order_id", s(ORDER_ID)),
        ("symbol", s("AAPL")),
        ("side", s("buy")),
        ("qty", s("1")),
        ("price", s("10.5")),
        ("transaction_time", s(NOW)),
    ]);
    assert_eq!(
        fill_page(&mut fills, &mut tokens, None, 0, JsonValue::Array(vec![row]), NOW, &instruments()).unwrap(),
        None
    );
    assert_eq!(fills.len(), 1);
    assert_eq!(fills[0].price, "10.5");
}

#[test]
fn proposals_bind_to_their_attempt() {
    let p = proposal(OrderQuantityType::Base, "1");
    assert!(bound_proposal(Some(&p), "workspace-1", "proposal-1", "sha256:abc").is_ok());
    assert_eq!(
        code(bound_proposal(Some(&p), "workspace-1", "proposal-1", "sha256:other")),
        "STATE_VERSION_CONFLICT"
    );
    assert_eq!(code(bound_proposal(None, "workspace-1", "proposal-1", "sha256:abc")), "ORDER_PROPOSAL_NOT_ELIGIBLE");
    assert!(validate_alpaca_paper_proposal(&p, "connection-1", Some("AAPL")).is_ok());
    assert_eq!(
        code(validate_alpaca_paper_proposal(&p, "connection-2", Some("AAPL"))),
        "ORDER_PROPOSAL_NOT_ELIGIBLE"
    );
}

#[test]
fn demo_codes_follow_the_status() {
    assert_eq!(demo_read_error(401).code, "PROVIDER_AUTH_FAILED");
    assert_eq!(demo_read_error(403).code, "PROVIDER_PERMISSION_BLOCKED");
    assert_eq!(demo_read_error(429).code, "PROVIDER_RATE_LIMITED");
    assert_eq!(demo_read_error(500).code, "PROVIDER_UNAVAILABLE");
    assert_eq!(demo_submit_refusal(400).map(|e| e.code), Some("PROVIDER_ORDER_REJECTED".to_string()));
    assert_eq!(demo_submit_refusal(429).map(|e| e.code), Some("PROVIDER_RATE_LIMITED".to_string()));
    assert!(demo_submit_refusal(200).is_none());
    assert!(demo_submit_refusal(500).is_none());
}

fn demo_proposal(side: OrderSide, order_type: OrderType, limit: Option<&str>, tif: TimeInForce) -> OrderProposal {
    let mut p = proposal(OrderQuantityType::Base, "3");
    p.fields.environment = ExecutionContext::Trading212Demo;
    p.fields.side = side;
    p.fields.order_type = order_type;
    p.fields.limit_price = limit.map(|l| l.to_string());
    p.fields.time_in_force = tif;
    p
}

fn listing(exchange: &str, ticker: &str) -> ProviderListing {
    ProviderListing { exchange: Some(exchange.into()), provider_symbol: Some(ticker.into()) }
}

fn members(body: &JsonValue) -> Vec<(String, String)> {
    match body {
        JsonValue::Object(ms) => ms
            .iter()
            .map(|(k, v)| {
                let text = match v {
                    JsonValue::Str(t) | JsonValue::Number(t) => t.clone(),
                    JsonValue::Bool(b) => b.to_string(),
                    _ => String::new(),
                };
                (k.clone(), text)
            })
            .collect(),
        _ => Vec::new(),
    }
}

#[test]
fn demo_order_requests_sign_sells_and_check_the_listing() {
    let l = listing("NASDAQ", "AAPL_US_EQ");
    let (path, body) = trading212_demo_order_request(
        &demo_proposal(OrderSide::Sell, OrderType::Market, None, TimeInForce::Day),
        "connection-1",
        Some(&l),
    )
    .unwrap();
    assert_eq!(path, "/api/v0/equity/orders/market");
    assert_eq!(
        members(&body),
        vec![
            ("extendedHours".to_string(), "false".to_string()),
            ("quantity".to_string(), "-3".to_string()),
            ("ticker".to_string(), "AAPL_US_EQ".to_string()),
        ]
    );
    let (path, body) = trading212_demo_order_request(
        &demo_proposal(OrderSide::Buy, OrderType::Limit, Some("12.50"), TimeInForce::Gtc),
        "connection-1",
        Some(&l),
    )
    .unwrap();
    assert_eq!(path, "/api/v0/equity/orders/limit");
    assert_eq!(members(&body)[0].0, "limitPrice");
    assert_eq!(members(&body)[3], ("timeValidity".to_string(), "GOOD_TILL_CANCEL".to_string()));
    assert_eq!(
        code(trading212_demo_order_request(
            &demo_proposal(OrderSide::Buy, OrderType::Limit, None, TimeInForce::Day),
            "connection-1",
            Some(&l)
        )),
        "ORDER_LIMIT_PRICE_REQUIRED"
    );
    assert_eq!(
        code(trading212_demo_order_request(
            &demo_proposal(OrderSide::Buy, OrderType::Market, None, TimeInForce::Gtc),
            "connection-1",
            Some(&l)
        )),
        "ORDER_CAPABILITY_UNSUPPORTED"
    );
    assert_eq!(
        code(trading212_demo_order_request(
            &demo_proposal(OrderSide::Buy, OrderType::Market, None, TimeInForce::Day),
            "connection-1",
            Some(&listing("NYSE", "AAPL_US_EQ"))
        )),
        "ORDER_VENUE_INVALID"
    );
    assert_eq!(
        code(trading212_demo_order_request(
            &demo_proposal(OrderSide::Buy, OrderType::Market, None, TimeInForce::Day),
            "connection-1",
            Some(&listing("NASDAQ", "aapl"))
        )),
        "ORDER_INSTRUMENT_PROVIDER_UNSUPPORTED"
    );
    assert_eq!(
        code(validate_trading212_demo_proposal(
            &demo_proposal(OrderSide::Buy, OrderType::Market, None, TimeInForce::Day),
            "connection-1",
            None
        )),
        "ORDER_INSTRUMENT_PROVIDER_UNSUPPORTED"
    );
    let mut zero = demo_proposal(OrderSide::Buy, OrderType::Market, None, TimeInForce::Day);
    zero.fields.quantity.value = "0".into();
    assert_eq!(code(trading212_demo_order_request(&zero, "connection-1", Some(&l))), "ORDER_AMOUNT_INVALID");
    assert_eq!(
        code(trading212_demo_order_request(
            &proposal(OrderQuantityType::Base, "1"),
            "connection-1",
            Some(&l)
        )),
        "ORDER_PROPOSAL_NOT_ELIGIBLE"
    );
}

#[test]
fn full_history_pages_move_on_to_a_new_cursor() {
    let rows = || -> Vec<JsonValue> {
        (0..100).map(|i| order_row(&format!("00000000-0000-4000-8000-{:012}", i), "filled", "2", NOW)).collect()
    };
    let last = "00000000-0000-4000-8000-000000000099".to_string();
    let mut orders = Vec::new();
    let mut cursors = Vec::new();
    let next = order_history_page(&mut orders, &mut cursors, None, 0, JsonValue::Array(rows()), NOW, &instruments());
    assert_eq!(next.unwrap(), Some(last.clone()));
    assert_eq!(orders.len(), 100);
    assert_eq!(cursors, vec![last.clone()]);
    // The same cursor again, or one read after itself, ends the read as incomplete.
    assert_eq!(
        code(order_history_page(&mut orders, &mut cursors, None, 1, JsonValue::Array(rows()), NOW, &instruments())),
        "PROVIDER_RESPONSE_INCOMPLETE"
    );
    let mut fresh = Vec::new();
    let mut none = Vec::new();
    assert_eq!(
        code(order_history_page(&mut fresh, &mut none, Some(&last), 1, JsonValue::Array(rows()), NOW, &instruments())),
        "PROVIDER_RESPONSE_INCOMPLETE"
    );
    // No page is left after the last one.
    let mut fresh = Vec::new();
    let mut none = Vec::new();
    assert_eq!(
        code(order_history_page(&mut fresh, &mut none, None, 5, JsonValue::Array(rows()), NOW, &instruments())),
        "PROVIDER_RESPONSE_INCOMPLETE"
    );
    // A row that is not an order refuses the page.
    let mut fresh = Vec::new();
    let mut none = Vec::new();
    let bad = JsonValue::Array(vec![obj(vec![("id", s(ORDER_ID))])]);
    assert_eq!(
        code(order_history_page(&mut fresh, &mut none, None, 0, bad, NOW, &instruments())),
        "PROVIDER_RESPONSE_INVALID"
    );
}

#[test]
fn decisions_report_each_check_once_with_a_bounded_reason() {
    let p = proposal(OrderQuantityType::Base, "1");
    let time = tradex::protocol::TimeStatus {
        workspace_id: "workspace-1".into(),
        confidence: tradex::protocol::TimeConfidence::Trusted,
        wall_clock: NOW.into(),
        monotonic_ms: 1,
        provider_offset_ms: None,
        observed_at: NOW.into(),
        reason: "trusted".into(),
        remediation: tradex::protocol::Remediation { id: "none".into(), label: "None".into() },
    };
    let mut policy = tradex::risk::RiskPolicyState::new("workspace-1".into());
    policy.validate_policy().unwrap();
    for state in [None, Some(&policy)] {
        let d = tradex::evaluation::evaluate(&p, state, None, None, None, &time, Vec::new(), NOW.into());
        assert_eq!(d.checks.len(), 27);
        for (i, check) in d.checks.iter().enumerate() {
            assert!(d.checks[..i].iter().all(|c| c.check_id != check.check_id));
            assert!(!check.reason.is_empty() && check.reason.len() <= 512);
        }
    }
}
