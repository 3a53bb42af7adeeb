use tradex::json::JsonValue;
use tradex::risk::{
    complete_persisted_policy, input_reference, RequiredNullableDecimal, RequiredNullableU64,
    RiskDecisionInputKind, RiskPolicy, RiskPolicyInput,
};

fn member<'a>(v: &'a JsonValue, key: &str) -> Option<&'a JsonValue> {
    match v {
        JsonValue::Object(ms) => ms.iter().find(|(k, _)| k == key).map(|(_, v)| v),
        _ => None,
    }
}

fn required_policy() -> Vec<(String, JsonValue)> {
    vec![
        ("maxOrderNotional".to_string(), JsonValue::Null),
        ("maxSingleInstrumentExposurePercent".to_string(), JsonValue::Null),
        ("maxDailyTradedNotional".to_string(), JsonValue::Null),
        ("maxDailyRealizedLoss".to_string(), JsonValue::Null),
        ("staleQuoteThresholdSeconds".to_string(), JsonValue::Number("3".into())),
        ("marketOrdersEnabled".to_string(), JsonValue::Bool(true)),
        ("liveInactivityTimeoutMinutes".to_string(), JsonValue::Number("20".into())),
    ]
}

#[test]
fn legacy_policies_gain_unset_later_limits() {
    let state = JsonValue::Object(vec![
        ("workspaceId".to_string(), JsonValue::Str("workspace".into())),
        ("policy".to_string(), JsonValue::Object(required_policy())),
    ]);
    let completed = complete_persisted_policy(state).unwrap();
    let policy = member(&completed, "policy").unwrap();
    assert!(matches!(member(policy, "marketOrdersEnabled"), Some(JsonValue::Bool(true))));
    assert!(matches!(member(policy, "maxOrderQuantity"), Some(JsonValue::Null)));
    assert!(matches!(member(policy, "maxMarketOrderSlippagePercent"), Some(JsonValue::Null)));
    assert!(matches!(member(policy, "allowedInstrumentIds"), Some(JsonValue::Array(v)) if v.is_empty()));
    match policy {
        JsonValue::Object(ms) => assert_eq!(ms.len(), 21),
        _ => panic!("policy is an object"),
    }
    assert!(matches!(member(&completed, "workspaceId"), Some(JsonValue::Str(s)) if s == "workspace"));
}

#[test]
fn persisted_policies_without_required_limits_are_refused() {
    let mut policy = required_policy();
    policy.remove(5);
    let state = JsonValue::Object(vec![("policy".to_string(), JsonValue::Object(policy))]);
    assert_eq!(complete_persisted_policy(state).unwrap_err().code, "WORKSPACE_INTEGRITY_FAILED");
    assert_eq!(
        complete_persisted_policy(JsonValue::Array(vec![])).unwrap_err().code,
        "WORKSPACE_INTEGRITY_FAILED"
    );
    let existing = JsonValue::Object(vec![(
        "policy".to_string(),
        JsonValue::Object({
            let mut p = required_policy();
            p.push(("maxOpenOrders".to_string(), JsonValue::Number("4".into())));
            p
        }),
    )]);
    let kept = complete_persisted_policy(existing).unwrap();
    let policy = member(&kept, "policy").unwrap();
    assert!(matches!(member(policy, "maxOpenOrders"), Some(JsonValue::Number(n)) if n == "4"));
}

#[test]
fn input_references_digest_the_encoding() {
    let a = input_reference(RiskDecisionInputKind::Policy, "policy-1".into(), None, "{}").unwrap();
    let b = input_reference(RiskDecisionInputKind::Policy, "policy-1".into(), None, "{}").unwrap();
    let c = input_reference(RiskDecisionInputKind::Policy, "policy-1".into(), None, "[]").unwrap();
    assert_eq!(a.digest, b.digest);
    assert_ne!(a.digest, c.digest);
    assert_eq!(
        a.digest,
        "sha256:44136fa355b3678a1146ad16f7e8649e94fb4fc21fe77e8310c060f61caaff8a"
    );
}

#[test]
fn policy_inputs_unwrap_into_policies() {
    let input = RiskPolicyInput {
        max_order_notional: RequiredNullableDecimal(Some("100".into())),
        max_order_quantity: RequiredNullableDecimal(None),
        max_position_size: RequiredNullableDecimal(None),
        max_single_instrument_exposure_percent: RequiredNullableDecimal(Some("10".into())),
        max_asset_class_exposure_percent: vec![],
        max_daily_traded_notional: RequiredNullableDecimal(None),
        max_daily_realized_loss: RequiredNullableDecimal(None),
        max_open_orders: RequiredNullableU64(Some(3)),
        max_reserved_capital: RequiredNullableDecimal(None),
        allowed_instrument_ids: vec![],
        blocked_instrument_ids: vec![],
        allowed_venues: vec![],
        blocked_venues: vec![],
        allowed_account_ids: vec![],
        blocked_account_ids: vec![],
        allowed_environments: vec![],
        stale_quote_threshold_seconds: 3,
        market_orders_enabled: false,
        max_market_order_slippage_percent: RequiredNullableDecimal(None),
        max_price_deviation_percent: RequiredNullableDecimal(None),
        live_inactivity_timeout_minutes: 20,
    };
    let policy = RiskPolicy::from(input);
    assert_eq!(policy.max_order_notional.as_deref(), Some("100"));
    assert_eq!(policy.max_open_orders, Some(3));
    assert_eq!(policy.live_inactivity_timeout_minutes, 20);
}
