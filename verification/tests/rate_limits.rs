use tradex::json::JsonValue;
use tradex::protocol::{Trading212DemoOrderBook, Trading212DemoOrderBookStatus, Trading212DemoRateLimits};
use tradex::providers::{AccountConnection, AccountData};
use tradex::provider_io::{
    parse_i64_text, parse_u64_text, rate_limit, record_trading212_rate_limit,
    reserve_trading212_read, JobKind, ProviderRateLimit, Trading212ReadEndpoint,
};

fn book() -> Trading212DemoOrderBook {
    Trading212DemoOrderBook {
        workspace_id: "workspace-1".into(),
        connection_id: "connection-1".into(),
        remote_account_id: "account-1".into(),
        environment: "DEMO".into(),
        status: Trading212DemoOrderBookStatus::NeverSynced,
        state_version: "v1".into(),
        last_successful_sync_at: None,
        observed_at: "2026-09-23T10:00:00Z".into(),
        reason: None,
        history_started: false,
        history_complete: false,
        history_page_count: 0,
        next_page_path: None,
        history_cursors: vec![],
        rate_limits: Trading212DemoRateLimits {
            pending_orders_retry_at: None,
            order_detail_retry_at: None,
            history_retry_at: None,
            cancel_order_retry_at: None,
        },
        orders: vec![],
    }
}

#[test]
fn integers_parse_as_the_standard_library_does() {
    assert_eq!(parse_u64_text("+17"), Some(17));
    assert_eq!(parse_u64_text("18446744073709551615"), Some(u64::MAX));
    assert_eq!(parse_u64_text("18446744073709551616"), None);
    assert_eq!(parse_u64_text("-1"), None);
    assert_eq!(parse_u64_text(""), None);
    assert_eq!(parse_i64_text("-9223372036854775808"), Some(i64::MIN));
    assert_eq!(parse_i64_text("9223372036854775808"), None);
    assert_eq!(parse_i64_text("+5"), Some(5));
    assert_eq!(parse_i64_text("-"), None);
}

#[test]
fn rate_limit_headers_are_read_when_present() {
    let limits = rate_limit(Some("0"), Some("1790000000")).unwrap();
    assert_eq!(limits.remaining, Some(0));
    assert_eq!(limits.reset_at.as_deref(), Some("2026-09-21T14:13:20Z"));
    assert!(rate_limit(None, None).is_none());
    assert!(rate_limit(Some("x"), Some("y")).is_none());
    assert_eq!(rate_limit(Some("3"), None).unwrap().reset_at, None);
}

#[test]
fn reads_are_spaced_by_the_endpoint_interval() {
    let mut b = book();
    let (next, retry) = reserve_trading212_read(&mut b, Trading212ReadEndpoint::History, 1790000000, 0);
    assert_eq!(next, Some(1790000010));
    assert_eq!(retry.unwrap(), "2026-09-21T14:13:30Z");
    assert_eq!(b.rate_limits.history_retry_at.as_deref(), Some("2026-09-21T14:13:30Z"));
    let (next, refused) = reserve_trading212_read(&mut b, Trading212ReadEndpoint::History, 1790000005, 0);
    assert_eq!(next, None);
    assert_eq!(refused.unwrap_err().code, "PROVIDER_RATE_LIMITED");
    let (next, _) = reserve_trading212_read(&mut b, Trading212ReadEndpoint::OrderDetail, 1790000005, 1790000007);
    assert_eq!(next, None);
    assert_eq!(b.rate_limits.order_detail_retry_at.as_deref(), Some("2026-09-21T14:13:27Z"));
}

#[test]
fn exhausted_limits_push_the_deadline_to_the_reset() {
    let mut b = book();
    let headers = ProviderRateLimit { remaining: Some(0), reset_at: Some("2026-09-21T14:13:20Z".into()) };
    let (value, result) = record_trading212_rate_limit(&mut b, Trading212ReadEndpoint::PendingOrders, Some(headers));
    assert!(result.is_ok());
    assert_eq!(value, Some(1790000000));
    assert_eq!(b.rate_limits.pending_orders_retry_at.as_deref(), Some("2026-09-21T14:13:20Z"));
    let mut untouched = book();
    let (value, _) = record_trading212_rate_limit(&mut untouched, Trading212ReadEndpoint::PendingOrders, None);
    assert_eq!(value, None);
    assert_eq!(untouched.rate_limits.pending_orders_retry_at, None);
}

#[test]
fn the_process_wide_deadline_spaces_reads_across_books() {
    let mut first = book();
    let (next, _) = reserve_trading212_read(&mut first, Trading212ReadEndpoint::History, 1790000000, 0);
    let next = next.unwrap();
    let mut other = book();
    let (none, refused) = reserve_trading212_read(&mut other, Trading212ReadEndpoint::History, next - 1, next);
    assert_eq!(none, None);
    assert_eq!(refused.unwrap_err().code, "PROVIDER_RATE_LIMITED");
    let (again, allowed) = reserve_trading212_read(&mut other, Trading212ReadEndpoint::History, next, next);
    assert!(allowed.is_ok());
    assert_eq!(again, Some(next + 10));
}

const NEXT: &str = "/api/v0/equity/history/orders?limit=50&cursor=1760346100000";

fn code<T: std::fmt::Debug>(r: Result<T, tradex::protocol::TradeXError>) -> String {
    r.unwrap_err().code
}

#[test]
fn demo_book_reads_plan_their_path_and_cursor() {
    let b = book();
    let (path, restart, _) = tradex::jobs::demo_book_read(&b, JobKind::Trading212DemoOrderBookPending, None).unwrap();
    assert_eq!(path, "/api/v0/equity/orders");
    assert!(!restart);
    assert_eq!(code(tradex::jobs::demo_book_read(&b, JobKind::Trading212DemoOrderBookDetail, None)), "IPC_PAYLOAD_INVALID");
    assert_eq!(
        code(tradex::jobs::demo_book_read(&b, JobKind::Trading212DemoOrderBookDetail, Some("123"))),
        "ORDER_STATUS_UNKNOWN"
    );
    let (path, restart, token) =
        tradex::jobs::demo_book_read(&b, JobKind::Trading212DemoOrderBookHistory, None).unwrap();
    assert_eq!(path, "/api/v0/equity/history/orders?limit=50");
    assert!(restart);
    assert_eq!(token, "FIRST");

    let mut going = book();
    going.history_started = true;
    going.history_page_count = 3;
    going.next_page_path = Some(NEXT.into());
    going.history_cursors = vec!["FIRST".into()];
    let (path, restart, token) =
        tradex::jobs::demo_book_read(&going, JobKind::Trading212DemoOrderBookHistory, None).unwrap();
    assert_eq!(path, NEXT);
    assert!(!restart);
    assert_eq!(token, "1760346100000");
    going.history_cursors.push("1760346100000".into());
    assert_eq!(
        code(tradex::jobs::demo_book_read(&going, JobKind::Trading212DemoOrderBookHistory, None)),
        "PROVIDER_DATA_INCOMPLETE"
    );
    going.history_page_count = 100;
    assert_eq!(
        code(tradex::jobs::demo_book_read(&going, JobKind::Trading212DemoOrderBookHistory, None)),
        "PROVIDER_DATA_INCOMPLETE"
    );
    assert_eq!(code(tradex::jobs::demo_book_read(&b, JobKind::Probe, None)), "PROVIDER_UNSUPPORTED");
}

#[test]
fn demo_history_pages_name_a_new_next_page() {
    let cursors = vec!["FIRST".to_string()];
    assert_eq!(tradex::jobs::demo_history_next(Some(&JsonValue::Null), "FIRST", &cursors).unwrap(), None);
    let next = JsonValue::Str(NEXT.into());
    assert_eq!(tradex::jobs::demo_history_next(Some(&next), "FIRST", &cursors).unwrap().as_deref(), Some(NEXT));
    assert_eq!(code(tradex::jobs::demo_history_next(Some(&next), "1760346100000", &cursors)), "PROVIDER_DATA_INCOMPLETE");
    assert_eq!(code(tradex::jobs::demo_history_next(None, "FIRST", &cursors)), "PROVIDER_DATA_INCOMPLETE");
    let foreign = JsonValue::Str("https://evil.test".into());
    assert_eq!(code(tradex::jobs::demo_history_next(Some(&foreign), "FIRST", &cursors)), "PROVIDER_DATA_INCOMPLETE");
}

#[test]
fn demo_books_bind_to_their_connection_and_degrade_on_failure() {
    let mut account = AccountConnection::new(
        "workspace-1".into(),
        "trading212".into(),
        "DEMO".into(),
        "Demo".into(),
        "2026-09-23T10:00:00Z".into(),
    )
    .unwrap();
    let mut b = book();
    b.connection_id = account.connection_id.clone();
    assert_eq!(
        code(tradex::jobs::demo_book_binding(&account, &b, JobKind::Trading212DemoOrderBookPending)),
        "PROVIDER_UNSUPPORTED"
    );
    account.data = Some(AccountData {
        remote_account_id: "account-1".into(),
        account_type: "TRADING212_DEMO".into(),
        currency: None,
        balances: vec![],
        positions: vec![],
        open_orders: vec![],
        capabilities: vec![],
        limitations: vec![],
    });
    assert!(tradex::jobs::demo_book_binding(&account, &b, JobKind::Trading212DemoOrderBookPending).is_ok());
    assert_eq!(code(tradex::jobs::demo_book_binding(&account, &b, JobKind::Probe)), "PROVIDER_UNSUPPORTED");

    tradex::jobs::degrade_demo_book(&mut b, "PROVIDER_UNSUPPORTED", Some("2026-09-23T10:05:00Z".into()));
    assert_eq!(b.status, Trading212DemoOrderBookStatus::Degraded);
    assert_eq!(b.reason.as_deref(), Some("PROVIDER_UNSUPPORTED"));
    assert_eq!(b.observed_at, "2026-09-23T10:05:00Z");
    tradex::jobs::degrade_demo_book(&mut b, "STATE_VERSION_CONFLICT", None);
    assert_eq!(b.observed_at, "2026-09-23T10:05:00Z");
}
