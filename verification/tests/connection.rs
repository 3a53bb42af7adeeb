use tradex::connection::{connection_step, ConnectionAction, ConnectionEvent, ConnectionStage, ConnectionTest, MAX_RESPONSE};
use tradex::jobs::ProviderOutcome;
use tradex::json::JsonValue;
use tradex::protocol::TradeXError;
use tradex::provider_io::{JobKind, ProviderEndpoint, ProviderJob};
use tradex::providers::AccountConnection;

const ACCOUNT_ID: &str = "81161e77-bafd-44bb-b2a0-60b9055e3cd4";
const ORDER_ID: &str = "18c65e3e-feb0-4576-99e2-36e6f047d84d";

fn s(text: &str) -> JsonValue {
    JsonValue::Str(text.into())
}

fn obj(members: Vec<(&str, JsonValue)>) -> JsonValue {
    JsonValue::Object(members.into_iter().map(|(k, v)| (k.to_string(), v)).collect())
}

fn job(provider: &str, environment: &str, kind: JobKind) -> ProviderJob {
    let account = AccountConnection::new(
        "workspace-1".into(),
        provider.into(),
        environment.into(),
        "Paper".into(),
        "2026-09-23T10:00:00Z".into(),
    )
    .unwrap();
    ProviderJob {
        account,
        kind,
        session: "session-1".into(),
        request_id: "request-1".into(),
        trading212_demo_attempt: None,
        trading212_demo_proposal: None,
        trading212_demo_order_book: None,
        trading212_demo_order_id: None,
        alpaca_attempt: None,
        alpaca_proposal: None,
        alpaca_order_book: None,
        alpaca_order_id: None,
        alpaca_expected_order: None,
    }
}

fn account_doc() -> JsonValue {
    obj(vec![
        ("id", s(ACCOUNT_ID)),
        ("currency", s("USD")),
        ("status", s("ACTIVE")),
        ("account_blocked", JsonValue::Bool(false)),
        ("trading_blocked", JsonValue::Bool(false)),
        ("shorting_enabled", JsonValue::Bool(false)),
        ("cash", s("1000.00")),
        ("equity", s("1500")),
        ("buying_power", s("2000")),
    ])
}

fn fetched(body: JsonValue) -> ConnectionEvent {
    ConnectionEvent::Fetched { reply: Ok((100, Some(body))), current: true }
}

fn finished(action: ConnectionAction) -> ProviderOutcome {
    match action {
        ConnectionAction::Finish(outcome) => outcome,
        _ => panic!("the job goes on"),
    }
}

fn error_code(outcome: &ProviderOutcome) -> Option<String> {
    outcome.error.as_ref().map(|e| e.code.clone())
}

fn keys() -> Vec<String> {
    vec!["key-id".to_string(), "secret-key".to_string()]
}

/// Steps a probe of the paper broker up to its account read.
fn probe_to_account(j: &ProviderJob) -> ConnectionTest {
    let (state, action) = connection_step(j, ConnectionTest::new(), ConnectionEvent::Begin { current: true });
    assert!(matches!(action, ConnectionAction::VaultGet));
    assert_eq!(state.fields, 2);
    let (state, action) = connection_step(j, state, ConnectionEvent::Loaded { values: Ok(Ok(keys())), current: true });
    match action {
        ConnectionAction::HttpGet(endpoint, path) => {
            assert_eq!(endpoint, ProviderEndpoint::AlpacaPaper);
            assert_eq!(path, "/v2/account");
        }
        _ => panic!("the account is read next"),
    }
    assert!(state.configured);
    state
}

#[test]
fn disconnection_removes_the_credential() {
    let j = job("alpaca", "PAPER", JobKind::Disconnect);
    let (state, action) = connection_step(&j, ConnectionTest::new(), ConnectionEvent::Begin { current: false });
    assert!(matches!(action, ConnectionAction::VaultRemove));
    let (_, action) = connection_step(&j, state, ConnectionEvent::Removed { result: Ok(()) });
    let outcome = finished(action);
    assert_eq!(outcome.credential, "MISSING");
    assert!(outcome.error.is_none());

    let (state, _) = connection_step(&j, ConnectionTest::new(), ConnectionEvent::Begin { current: true });
    let failure = TradeXError::new("CREDENTIAL_STORE_FAILED");
    let (_, action) = connection_step(&j, state, ConnectionEvent::Removed { result: Err(failure) });
    let outcome = finished(action);
    assert_eq!(outcome.credential, "DELETE_PENDING");
    assert_eq!(error_code(&outcome).as_deref(), Some("CREDENTIAL_STORE_FAILED"));
}

#[test]
fn probes_read_account_positions_and_open_orders_only() {
    let j = job("alpaca", "PAPER", JobKind::Probe);
    let state = probe_to_account(&j);
    let (state, action) = connection_step(&j, state, fetched(account_doc()));
    match action {
        ConnectionAction::HttpGet(_, path) => assert_eq!(path, "/v2/positions"),
        _ => panic!("the positions are read next"),
    }
    let (state, action) = connection_step(&j, state, fetched(JsonValue::Array(vec![])));
    match action {
        ConnectionAction::HttpGet(_, path) => {
            assert_eq!(path, "/v2/orders?status=open&limit=500&direction=asc&nested=false")
        }
        _ => panic!("the open orders are read next"),
    }
    let order = obj(vec![
        ("id", s(ORDER_ID)),
        ("side", s("buy")),
        ("status", s("new")),
        ("qty", s("1")),
        ("symbol", s("MSFT")),
        ("filled_qty", s("0")),
        ("limit_price", s("100.50")),
    ]);
    let (state, action) = connection_step(&j, state, fetched(JsonValue::Array(vec![order])));
    assert_eq!(state.stage, ConnectionStage::Done);
    let outcome = finished(action);
    assert_eq!(outcome.credential, "CONFIGURED");
    assert!(outcome.error.is_none());
    let observation = outcome.observation.unwrap();
    assert_eq!(observation.data.remote_account_id, ACCOUNT_ID);
    assert_eq!(observation.data.open_orders.len(), 1);
}

#[test]
fn full_open_order_pages_read_on_after_the_last_order() {
    let j = job("alpaca", "PAPER", JobKind::Probe);
    let state = probe_to_account(&j);
    let (state, _) = connection_step(&j, state, fetched(account_doc()));
    let (mut state, _) = connection_step(&j, state, fetched(JsonValue::Array(vec![])));
    let rows: Vec<JsonValue> =
        (0..500).map(|i| obj(vec![("id", s(&format!("00000000-0000-4000-8000-{:012}", i)))])).collect();
    let (next, action) = connection_step(&j, state, fetched(JsonValue::Array(rows)));
    match action {
        ConnectionAction::HttpGet(_, path) => assert_eq!(
            path,
            "/v2/orders?status=open&limit=500&direction=asc&nested=false&after_order_id=00000000-0000-4000-8000-000000000499"
        ),
        _ => panic!("the next page is read"),
    }
    assert_eq!(next.orders.len(), 500);
    state = next;
    let repeated = JsonValue::Array(vec![obj(vec![("id", s("00000000-0000-4000-8000-000000000001"))])]);
    let (_, action) = connection_step(&j, state, fetched(repeated));
    assert_eq!(error_code(&finished(action)).as_deref(), Some("PROVIDER_DATA_INCOMPLETE"));
}

#[test]
fn reads_refuse_large_reflecting_or_foreign_bodies() {
    let j = job("alpaca", "PAPER", JobKind::Probe);
    let state = probe_to_account(&j);
    let large = ConnectionEvent::Fetched { reply: Ok((MAX_RESPONSE + 1, Some(account_doc()))), current: true };
    let (_, action) = connection_step(&j, state, large);
    let outcome = finished(action);
    assert_eq!(error_code(&outcome).as_deref(), Some("PROVIDER_RESPONSE_INVALID"));
    assert_eq!(outcome.credential, "CONFIGURED");

    let state = probe_to_account(&j);
    let reflecting = obj(vec![("id", s(ACCOUNT_ID)), ("echo", s("secret-key"))]);
    let (_, action) = connection_step(&j, state, fetched(reflecting));
    assert_eq!(error_code(&finished(action)).as_deref(), Some("PROVIDER_RESPONSE_INVALID"));

    let state = probe_to_account(&j);
    let refused = ConnectionEvent::Fetched { reply: Err(TradeXError::new("PROVIDER_AUTH_FAILED")), current: true };
    let (_, action) = connection_step(&j, state, refused);
    let outcome = finished(action);
    assert_eq!(outcome.credential, "INVALID");
    assert_eq!(error_code(&outcome).as_deref(), Some("PROVIDER_AUTH_FAILED"));

    let state = probe_to_account(&j);
    let (_, action) = connection_step(&j, state, ConnectionEvent::Fetched { reply: Ok((10, None)), current: true });
    assert_eq!(error_code(&finished(action)).as_deref(), Some("PROVIDER_RESPONSE_INVALID"));
}

#[test]
fn connects_capture_store_and_withdraw() {
    let j = job("alpaca", "PAPER", JobKind::Connect);
    let (state, action) = connection_step(&j, ConnectionTest::new(), ConnectionEvent::Begin { current: true });
    match action {
        ConnectionAction::CaptureCredentials(definition) => {
            assert_eq!(definition.provider_id, "alpaca");
            assert_eq!(definition.fields.len(), 2);
        }
        _ => panic!("the credentials are captured first"),
    }
    let (_, action) =
        connection_step(&j, state, ConnectionEvent::Captured { count: Ok(3), current: true });
    let outcome = finished(action);
    assert_eq!(error_code(&outcome).as_deref(), Some("IPC_PAYLOAD_INVALID"));
    assert_eq!(outcome.credential, "MISSING");

    let (state, _) = connection_step(&j, ConnectionTest::new(), ConnectionEvent::Begin { current: true });
    let (state, action) = connection_step(&j, state, ConnectionEvent::Captured { count: Ok(2), current: true });
    assert!(matches!(action, ConnectionAction::VaultPut));
    let (state, action) = connection_step(&j, state, ConnectionEvent::Stored { result: Ok(()), current: true });
    assert!(matches!(action, ConnectionAction::VaultGet));
    // The workspace gave up the connect: the credential just stored goes again.
    let (state, action) = connection_step(&j, state, ConnectionEvent::Loaded { values: Ok(Ok(keys())), current: false });
    assert!(matches!(action, ConnectionAction::VaultRemove));
    assert_eq!(state.stage, ConnectionStage::Removing);
    let (_, action) = connection_step(&j, state, ConnectionEvent::Removed { result: Ok(()) });
    let outcome = finished(action);
    assert_eq!(error_code(&outcome).as_deref(), Some("STATE_VERSION_CONFLICT"));
    assert_eq!(outcome.credential, "MISSING");

    let (state, action) = connection_step(&j, ConnectionTest::new(), ConnectionEvent::Begin { current: false });
    assert!(matches!(action, ConnectionAction::VaultRemove));
    let failure = TradeXError::new("CREDENTIAL_STORE_FAILED");
    let (_, action) = connection_step(&j, state, ConnectionEvent::Removed { result: Err(failure) });
    let outcome = finished(action);
    assert_eq!(outcome.credential, "DELETE_PENDING");
    assert_eq!(error_code(&outcome).as_deref(), Some("STATE_VERSION_CONFLICT"));
}

#[test]
fn only_available_paper_accounts_are_read() {
    let j = job("trading212", "DEMO", JobKind::Probe);
    let (state, action) = connection_step(&j, ConnectionTest::new(), ConnectionEvent::Begin { current: true });
    assert!(matches!(action, ConnectionAction::VaultGet));
    let (_, action) = connection_step(&j, state, ConnectionEvent::Loaded { values: Ok(Ok(keys())), current: true });
    let outcome = finished(action);
    assert_eq!(error_code(&outcome).as_deref(), Some("PROVIDER_UNSUPPORTED"));
    assert_eq!(outcome.credential, "CONFIGURED");

    let j = job("binance", "TESTNET", JobKind::Probe);
    let (_, action) = connection_step(&j, ConnectionTest::new(), ConnectionEvent::Begin { current: true });
    let outcome = finished(action);
    assert_eq!(error_code(&outcome).as_deref(), Some("PROVIDER_UNSUPPORTED"));
    assert_eq!(outcome.credential, "MISSING");

    let j = job("alpaca", "PAPER", JobKind::Probe);
    let (state, _) = connection_step(&j, ConnectionTest::new(), ConnectionEvent::Begin { current: true });
    let short = vec!["key-id".to_string()];
    let (_, action) = connection_step(&j, state, ConnectionEvent::Loaded { values: Ok(Ok(short)), current: true });
    assert_eq!(error_code(&finished(action)).as_deref(), Some("CREDENTIAL_UNAVAILABLE"));
}

#[test]
fn a_credential_the_vault_gives_counts_as_configured() {
    let j = job("alpaca", "PAPER", JobKind::Probe);
    let (state, _) = connection_step(&j, ConnectionTest::new(), ConnectionEvent::Begin { current: true });
    let missing = ConnectionEvent::Loaded { values: Err(TradeXError::new("CREDENTIAL_UNAVAILABLE")), current: true };
    let outcome = finished(connection_step(&j, state, missing).1);
    assert_eq!(outcome.credential, "MISSING");

    let (state, _) = connection_step(&j, ConnectionTest::new(), ConnectionEvent::Begin { current: true });
    let unreadable =
        ConnectionEvent::Loaded { values: Ok(Err(TradeXError::new("CREDENTIAL_UNAVAILABLE"))), current: true };
    let outcome = finished(connection_step(&j, state, unreadable).1);
    assert_eq!(outcome.credential, "CONFIGURED");
    assert_eq!(error_code(&outcome).as_deref(), Some("CREDENTIAL_UNAVAILABLE"));
}
