use tradex::protocol::AssetClass;
use tradex::risk::{RiskAssetClassLimit, RiskPolicy, RiskPolicyEnvironment, RiskPolicyState};

#[test]
fn defaults_leave_money_unset_and_keep_safe_non_money_values() {
    let state = RiskPolicyState::new("workspace".into());
    assert_eq!(state.policy.max_order_notional, None);
    assert_eq!(state.policy.max_daily_realized_loss, None);
    assert_eq!(state.policy.stale_quote_threshold_seconds, 3);
    assert!(!state.policy.market_orders_enabled);
    assert_eq!(state.policy.live_inactivity_timeout_minutes, 20);
}

#[test]
fn decimal_and_boundary_validation_is_exact() {
    let mut state = RiskPolicyState::new("workspace".into());
    state.policy.max_order_notional = Some("1000.125".into());
    state.policy.max_single_instrument_exposure_percent = Some("10.00".into());
    state.validate_policy().unwrap();
    assert_eq!(state.policy.max_order_notional.as_deref(), Some("1000.125"));
    state.policy.max_single_instrument_exposure_percent = Some("100.01".into());
    assert_eq!(
        state.validate_policy().unwrap_err().code,
        "RISK_POLICY_INVALID"
    );
    state.policy.max_single_instrument_exposure_percent = Some("0".into());
    assert_eq!(
        state.validate_policy().unwrap_err().code,
        "RISK_POLICY_INVALID"
    );
}

#[test]
fn validation_trims_limits_and_marks_the_policy_configured() {
    let mut state = RiskPolicyState::new("workspace".into());
    state.policy.max_order_quantity = Some("  12.5 \n".into());
    state.policy.max_asset_class_exposure_percent = vec![RiskAssetClassLimit {
        asset_class: AssetClass::Equity,
        max_exposure_percent: " 100.0000 ".into(),
    }];
    state.validate_policy().unwrap();
    assert!(state.configured);
    assert_eq!(state.policy.max_order_quantity.as_deref(), Some("12.5"));
    assert_eq!(
        state.policy.max_asset_class_exposure_percent[0].max_exposure_percent,
        "100.0000"
    );
    let once = state.policy.clone();
    state.validate_policy().unwrap();
    assert_eq!(state.policy, once);
}

#[test]
fn invalid_limits_and_lists_are_refused() {
    for bad in ["", "abc", "1.123456789", "1234567890123456", "0.000", "-1", "1.2.3"] {
        let mut state = RiskPolicyState::new("workspace".into());
        state.policy.max_order_notional = Some(bad.into());
        assert_eq!(state.validate_policy().unwrap_err().code, "RISK_POLICY_INVALID", "{bad}");
        assert!(!state.configured);
    }
    let mut state = RiskPolicyState::new("workspace".into());
    state.policy.max_open_orders = Some(0);
    assert!(state.validate_policy().is_err());
    let mut state = RiskPolicyState::new("workspace".into());
    state.policy.allowed_venues = vec!["NYSE".into(), "NYSE".into()];
    assert!(state.validate_policy().is_err());
    let mut state = RiskPolicyState::new("workspace".into());
    state.policy.allowed_environments =
        vec![RiskPolicyEnvironment::Paper, RiskPolicyEnvironment::Paper];
    assert!(state.validate_policy().is_err());
    let mut state = RiskPolicyState::new("workspace".into());
    state.policy.stale_quote_threshold_seconds = 0;
    assert!(state.validate_policy().is_err());
    let mut state = RiskPolicyState::new("workspace".into());
    state.policy.allowed_instrument_ids = vec!["equity:US:AAPL".into()];
    assert!(state.validate_policy().is_ok());
}

#[test]
fn saving_market_orders_needs_a_slippage_limit() {
    let mut state = RiskPolicyState::new("workspace".into());
    state.policy.market_orders_enabled = true;
    assert_eq!(
        state.validate_policy_for_save().unwrap_err().code,
        "RISK_POLICY_INVALID"
    );
    state.policy.max_market_order_slippage_percent = Some("0.5".into());
    assert!(state.validate_policy_for_save().is_ok());
}

#[test]
fn onboarding_steps_move_as_documented() {
    let mut state = RiskPolicyState::new("workspace".into());
    state.onboarding_step = 5;
    state.onboarding_completed = true;
    state.mark_editing();
    assert_eq!(state.onboarding_step, 4);
    assert!(!state.onboarding_completed);
    state.onboarding_completed = true;
    state.reopen_after_model_reset();
    assert_eq!(state.onboarding_step, 3);
    assert!(!state.ready_for_completion(true, true));
    state.configured = true;
    assert!(state.ready_for_completion(true, true));
    assert!(!state.ready_for_completion(false, true));
}

#[test]
fn persisted_state_is_checked_for_integrity() {
    let mut state = RiskPolicyState::new("workspace".into());
    state.state_version = "v1".into();
    state.updated_at = "2026-09-25T00:00:00Z".into();
    assert!(state.validate_persisted("workspace").is_ok());
    assert_eq!(
        state.validate_persisted("other").unwrap_err().code,
        "WORKSPACE_INTEGRITY_FAILED"
    );
    let mut unnormalized = state.clone();
    unnormalized.configured = true;
    unnormalized.policy.max_order_notional = Some(" 5 ".into());
    assert!(unnormalized.validate_persisted("workspace").is_err());
    let mut unconfigured = state.clone();
    unconfigured.policy.max_order_notional = Some("5".into());
    assert!(unconfigured.validate_persisted("workspace").is_err());
    let mut tampered = state.clone();
    tampered.hard_rules.pop();
    assert!(tampered.validate_persisted("workspace").is_err());
    assert_eq!(RiskPolicy::default(), RiskPolicyState::new("w".into()).policy);
}

#[test]
fn failed_validation_clears_the_malformed_limit_and_keeps_the_rest() {
    let mut state = tradex::risk::RiskPolicyState::new("workspace".into());
    state.policy.max_order_notional = Some(" 100 ".into());
    state.policy.max_order_quantity = Some("abc".into());
    state.policy.max_position_size = Some(" 5 ".into());
    assert!(state.validate_policy().is_err());
    assert_eq!(state.policy.max_order_notional.as_deref(), Some("100"));
    assert_eq!(state.policy.max_order_quantity, None);
    assert_eq!(state.policy.max_position_size.as_deref(), Some(" 5 "));
    assert!(!state.configured);
}

#[test]
fn validating_for_save_leaves_the_state_validation_leaves() {
    let mut base = RiskPolicyState::new("workspace".into());
    base.policy.max_order_notional = Some(" 100 ".into());
    base.policy.market_orders_enabled = true;
    // Valid, but market orders lack a slippage limit: refused for saving,
    // with the policy normalized and configured all the same.
    let mut plain = base.clone();
    let mut saved = base.clone();
    assert!(plain.validate_policy().is_ok());
    assert_eq!(saved.validate_policy_for_save().unwrap_err().code, "RISK_POLICY_INVALID");
    assert_eq!(plain, saved);
    assert_eq!(saved.policy.max_order_notional.as_deref(), Some("100"));
    assert!(saved.configured);
    // Invalid: both leave the same partly normalized policy.
    base.policy.max_order_quantity = Some("abc".into());
    let mut plain = base.clone();
    let mut saved = base.clone();
    assert!(plain.validate_policy().is_err());
    assert!(saved.validate_policy_for_save().is_err());
    assert_eq!(plain, saved);
    assert!(!saved.configured);
}
