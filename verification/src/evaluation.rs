//! The risk decision of an order proposal: every check of the policy against
//! the proposal, the account, the portfolio, the market and the clock, and
//! the status they imply.
use vstd::prelude::*;
use crate::amount::{
    abs_amount, abs_value, add_amounts, add_values, amount_value, amount_wf, compare_amounts,
    exceeds_ratio, neg_value, negate_amount, parse_amount, ratio_exceeds, text_value,
    value_order, Amount,
};
use crate::decimal::{compare_decimals, decimal_accepts, decimal_order, is_negative_text, Comparison};
use crate::ids::{new_uuid_text, parse_rfc3339, rfc3339_instant, uuid_hyphenated};
use crate::protocol::{
    AssetClass, ExecutionContext, MarketDataStatus, MarketDetail, MarketEntitlement,
    MarketFreshness, MarketSession, OrderProposal, OrderProposalStatus, OrderSide, OrderType,
    PortfolioSnapshot, PortfolioStatus, PortfolioValue, TimeConfidence, TimeStatus,
};
use crate::providers::{AccountConnection, AccountHealth, ConnectionState};
use crate::risk::{
    status_of, RiskCheckId, RiskCheckOutcome, RiskCheckResult, RiskDecision,
    RiskDecisionInputReference, RiskDecisionReasonCode, RiskDecisionStatus, RiskPolicy,
    RiskPolicyEnvironment, RiskPolicyState, DEFAULT_STALE_QUOTE_THRESHOLD_SECONDS,
};
use crate::text::{chars, lemma_utf8_len_le_4, owned, str_eq, string_of_all, utf8_len, slice};
use crate::decimal::push_chars;

verus! {

/// One expected check: its identifier, outcome, reason code and reason.
pub type Expected = (RiskCheckId, RiskCheckOutcome, RiskDecisionReasonCode, Seq<char>);

pub open spec fn check_is(c: RiskCheckResult, e: Expected) -> bool {
    c.check_id == e.0 && c.outcome == e.1 && c.reason_code == e.2 && c.reason@ == e.3
}

fn check(id: RiskCheckId, outcome: RiskCheckOutcome, code: RiskDecisionReasonCode, reason: &str) -> (r:
    RiskCheckResult)
    ensures
        check_is(r, (id, outcome, code, reason@)),
{
    RiskCheckResult { check_id: id, outcome, reason_code: code, reason: owned(reason) }
}

pub open spec fn policy_of(s: Option<&RiskPolicyState>) -> Option<RiskPolicy> {
    match s {
        Some(st) => Some(st.policy),
        None => None,
    }
}

pub open spec fn in_list(v: Seq<String>, x: Seq<char>) -> bool {
    exists|i: int| 0 <= i < v.len() && (#[trigger] v[i])@ == x
}

fn contains_text(v: &Vec<String>, x: &str) -> (r: bool)
    ensures
        r == in_list(v@, x@),
{
    let mut i: usize = 0;
    while i < v.len()
        invariant
            i <= v@.len(),
            forall|k: int| 0 <= k < i ==> (#[trigger] v@[k])@ != x@,
        decreases v@.len() - i,
    {
        if str_eq(v[i].as_str(), x) {
            return true;
        }
        i = i + 1;
    }
    false
}

// ---- proposal and policy presence -------------------------------------------------------

pub open spec fn proposal_identity(p: OrderProposal, t: TimeStatus) -> Expected {
    if p.status == OrderProposalStatus::NeedsApproval && p.workspace_id@ == t.workspace_id@ {
        (RiskCheckId::ProposalIdentity, RiskCheckOutcome::Pass, RiskDecisionReasonCode::WithinLimit,
            "The immutable proposal is current in this workspace."@)
    } else {
        (RiskCheckId::ProposalIdentity, RiskCheckOutcome::Reject,
            RiskDecisionReasonCode::ProposalInvalidated,
            "The proposal is no longer eligible for risk evaluation."@)
    }
}

pub open spec fn policy_configured(s: Option<&RiskPolicyState>) -> Expected {
    if s matches Some(st) && st.configured {
        (RiskCheckId::PolicyConfigured, RiskCheckOutcome::Pass, RiskDecisionReasonCode::WithinLimit,
            "A persisted risk policy is configured."@)
    } else {
        (RiskCheckId::PolicyConfigured, RiskCheckOutcome::Unavailable,
            RiskDecisionReasonCode::PolicyUnconfigured, "A persisted risk policy is not configured."@)
    }
}

/// The provider and environment a saved account must have for a context.
pub open spec fn expected_account(c: ExecutionContext) -> Option<(Seq<char>, Seq<char>)> {
    match c {
        ExecutionContext::LocalPaper => Some(("local-paper"@, "LOCAL"@)),
        ExecutionContext::AlpacaPaper => Some(("alpaca"@, "PAPER"@)),
        ExecutionContext::Trading212Demo => Some(("trading212"@, "DEMO"@)),
        ExecutionContext::Trading212Live => Some(("trading212"@, "LIVE"@)),
        ExecutionContext::BinanceTestnet => Some(("binance"@, "TESTNET"@)),
        ExecutionContext::BinanceLive => Some(("binance"@, "LIVE"@)),
        ExecutionContext::BitgetLive => Some(("bitget"@, "LIVE"@)),
        _ => None,
    }
}

fn expected_account_exec(c: ExecutionContext) -> (r: Option<(&'static str, &'static str)>)
    ensures
        match r {
            Some((p, e)) => expected_account(c) == Some((p@, e@)),
            None => expected_account(c) is None,
        },
{
    match c {
        ExecutionContext::LocalPaper => Some(("local-paper", "LOCAL")),
        ExecutionContext::AlpacaPaper => Some(("alpaca", "PAPER")),
        ExecutionContext::Trading212Demo => Some(("trading212", "DEMO")),
        ExecutionContext::Trading212Live => Some(("trading212", "LIVE")),
        ExecutionContext::BinanceTestnet => Some(("binance", "TESTNET")),
        ExecutionContext::BinanceLive => Some(("binance", "LIVE")),
        ExecutionContext::BitgetLive => Some(("bitget", "LIVE")),
        _ => None,
    }
}

pub open spec fn binding_outcome(p: OrderProposal, a: Option<&AccountConnection>) -> RiskCheckOutcome {
    match (p.fields.account_id, a, expected_account(p.fields.environment)) {
        (Some(id), Some(acc), Some((provider, environment))) => if id@ == acc.connection_id@
            && acc.workspace_id@ == p.workspace_id@ && acc.provider_id@ == provider
            && acc.environment@ == environment {
            RiskCheckOutcome::Pass
        } else {
            RiskCheckOutcome::Reject
        },
        _ => RiskCheckOutcome::Unavailable,
    }
}

pub open spec fn account_binding(p: OrderProposal, a: Option<&AccountConnection>) -> Expected {
    match binding_outcome(p, a) {
        RiskCheckOutcome::Pass => (RiskCheckId::AccountBinding, RiskCheckOutcome::Pass,
            RiskDecisionReasonCode::WithinLimit,
            "The proposal is bound to the exact account and environment."@),
        RiskCheckOutcome::Reject => (RiskCheckId::AccountBinding, RiskCheckOutcome::Reject,
            RiskDecisionReasonCode::AccountMismatch,
            "The saved account does not match the proposal context."@),
        RiskCheckOutcome::Unavailable => (RiskCheckId::AccountBinding,
            RiskCheckOutcome::Unavailable, RiskDecisionReasonCode::AccountUnavailable,
            "A supported account identity is not available."@),
    }
}

/// A connected account whose connection, authentication and credential
/// are reported healthy.
pub open spec fn health_ok(state: ConnectionState, h: AccountHealth) -> bool {
    &&& state == ConnectionState::Connected
    &&& (h.connection@ == "ONLINE"@ || h.connection@ == "CONNECTED"@)
    &&& (h.authentication@ == "VALID"@ || h.authentication@ == "NOT_REQUIRED"@)
    &&& (h.credential@ == "AVAILABLE"@ || h.credential@ == "CONFIGURED"@ || h.credential@
        == "NOT_REQUIRED"@)
}

fn health_ok_exec(state: ConnectionState, h: &AccountHealth) -> (r: bool)
    ensures
        r == health_ok(state, *h),
{
    state == ConnectionState::Connected && (str_eq(h.connection.as_str(), "ONLINE") || str_eq(
        h.connection.as_str(),
        "CONNECTED",
    )) && (str_eq(h.authentication.as_str(), "VALID") || str_eq(
        h.authentication.as_str(),
        "NOT_REQUIRED",
    )) && (str_eq(h.credential.as_str(), "AVAILABLE") || str_eq(h.credential.as_str(), "CONFIGURED")
        || str_eq(h.credential.as_str(), "NOT_REQUIRED"))
}

pub open spec fn account_health(a: Option<&AccountConnection>) -> Expected {
    if a matches Some(acc) && health_ok(acc.connection_state, acc.health) {
        (RiskCheckId::AccountHealth, RiskCheckOutcome::Pass, RiskDecisionReasonCode::WithinLimit,
            "The saved account connection and authentication are healthy."@)
    } else {
        (RiskCheckId::AccountHealth, RiskCheckOutcome::Unavailable,
            RiskDecisionReasonCode::AccountUnhealthy,
            "The saved account is disconnected or its health is unverified."@)
    }
}

pub open spec fn allowed_account(pol: Option<RiskPolicy>, account_id: Option<String>) -> Expected {
    let (outcome, code) = match (pol, account_id) {
        (Some(p), Some(id)) => if p.allowed_account_ids@.len() == 0 || in_list(
            p.allowed_account_ids@,
            id@,
        ) {
            (RiskCheckOutcome::Pass, RiskDecisionReasonCode::WithinLimit)
        } else {
            (RiskCheckOutcome::Reject, RiskDecisionReasonCode::IdentifierNotAllowed)
        },
        (Some(p), None) => if p.allowed_account_ids@.len() > 0 {
            (RiskCheckOutcome::Unavailable, RiskDecisionReasonCode::AccountUnavailable)
        } else {
            (RiskCheckOutcome::Pass, RiskDecisionReasonCode::LimitNotConfigured)
        },
        _ => (RiskCheckOutcome::Pass, RiskDecisionReasonCode::LimitNotConfigured),
    };
    (RiskCheckId::AllowedAccount, outcome, code, if outcome == RiskCheckOutcome::Reject {
        "The account is outside the configured allow-list."@
    } else if outcome == RiskCheckOutcome::Unavailable {
        "The configured account allow-list cannot be checked without an account ID."@
    } else {
        "The account allow-list does not block this proposal."@
    })
}

pub open spec fn blocked_account(pol: Option<RiskPolicy>, account_id: Option<String>) -> Expected {
    if pol matches Some(p) && account_id matches Some(id) && in_list(p.blocked_account_ids@, id@) {
        (RiskCheckId::BlockedAccount, RiskCheckOutcome::Reject,
            RiskDecisionReasonCode::IdentifierBlocked,
            "The account is in the configured block-list."@)
    } else {
        (RiskCheckId::BlockedAccount, RiskCheckOutcome::Pass, RiskDecisionReasonCode::WithinLimit,
            "The account is not in the configured block-list."@)
    }
}

/// The policy environment of an execution context.
pub open spec fn policy_environment(c: ExecutionContext) -> Option<RiskPolicyEnvironment> {
    match c {
        ExecutionContext::LocalPaper => Some(RiskPolicyEnvironment::LocalPaper),
        ExecutionContext::AlpacaPaper => Some(RiskPolicyEnvironment::Paper),
        ExecutionContext::Trading212Live => Some(RiskPolicyEnvironment::Live),
        ExecutionContext::Trading212Demo => Some(RiskPolicyEnvironment::Demo),
        ExecutionContext::BinanceTestnet => Some(RiskPolicyEnvironment::Testnet),
        ExecutionContext::BinanceLive => Some(RiskPolicyEnvironment::Live),
        ExecutionContext::BitgetLive => Some(RiskPolicyEnvironment::Live),
        _ => None,
    }
}

fn policy_environment_exec(c: ExecutionContext) -> (r: Option<RiskPolicyEnvironment>)
    ensures
        r == policy_environment(c),
{
    match c {
        ExecutionContext::LocalPaper => Some(RiskPolicyEnvironment::LocalPaper),
        ExecutionContext::AlpacaPaper => Some(RiskPolicyEnvironment::Paper),
        ExecutionContext::Trading212Live => Some(RiskPolicyEnvironment::Live),
        ExecutionContext::Trading212Demo => Some(RiskPolicyEnvironment::Demo),
        ExecutionContext::BinanceTestnet => Some(RiskPolicyEnvironment::Testnet),
        ExecutionContext::BinanceLive => Some(RiskPolicyEnvironment::Live),
        ExecutionContext::BitgetLive => Some(RiskPolicyEnvironment::Live),
        _ => None,
    }
}

pub open spec fn allowed_environment(pol: Option<RiskPolicy>, c: ExecutionContext) -> Expected {
    let (outcome, code) = match (pol, policy_environment(c)) {
        (Some(p), Some(e)) => if p.allowed_environments@.len() == 0 || p.allowed_environments@.contains(e) {
            (RiskCheckOutcome::Pass, RiskDecisionReasonCode::WithinLimit)
        } else {
            (RiskCheckOutcome::Reject, RiskDecisionReasonCode::EnvironmentNotAllowed)
        },
        _ => (RiskCheckOutcome::Unavailable, RiskDecisionReasonCode::UnsupportedContext),
    };
    (RiskCheckId::AllowedEnvironment, outcome, code, if outcome == RiskCheckOutcome::Reject {
        "The execution environment is outside the configured allow-list."@
    } else if outcome == RiskCheckOutcome::Unavailable {
        "This proposal has no supported policy environment mapping."@
    } else {
        "The execution environment is allowed by policy."@
    })
}

/// An allow-list check: allowed when the list is empty or holds the value.
pub open spec fn allow_list(
    id: RiskCheckId,
    list: Option<Seq<String>>,
    value: Seq<char>,
    rejected: Seq<char>,
    passed: Seq<char>,
) -> Expected {
    match list {
        Some(l) => if l.len() == 0 {
            (id, RiskCheckOutcome::Pass, RiskDecisionReasonCode::LimitNotConfigured, passed)
        } else if in_list(l, value) {
            (id, RiskCheckOutcome::Pass, RiskDecisionReasonCode::WithinLimit, passed)
        } else {
            (id, RiskCheckOutcome::Reject, RiskDecisionReasonCode::IdentifierNotAllowed, rejected)
        },
        None => (id, RiskCheckOutcome::Unavailable, RiskDecisionReasonCode::PolicyUnconfigured, passed),
    }
}

/// A block-list check: rejected when the list holds the value.
pub open spec fn block_list(
    id: RiskCheckId,
    list: Option<Seq<String>>,
    value: Seq<char>,
    rejected: Seq<char>,
    passed: Seq<char>,
) -> Expected {
    if list matches Some(l) && in_list(l, value) {
        (id, RiskCheckOutcome::Reject, RiskDecisionReasonCode::IdentifierBlocked, rejected)
    } else {
        (id, RiskCheckOutcome::Pass, RiskDecisionReasonCode::WithinLimit, passed)
    }
}

fn allow_list_exec(
    id: RiskCheckId,
    list: Option<&Vec<String>>,
    value: &str,
    rejected: &str,
    passed: &str,
) -> (r: RiskCheckResult)
    ensures
        check_is(
            r,
            allow_list(
                id,
                match list {
                    Some(l) => Some(l@),
                    None => None,
                },
                value@,
                rejected@,
                passed@,
            ),
        ),
{
    match list {
        Some(l) => if l.len() == 0 {
            check(id, RiskCheckOutcome::Pass, RiskDecisionReasonCode::LimitNotConfigured, passed)
        } else if contains_text(l, value) {
            check(id, RiskCheckOutcome::Pass, RiskDecisionReasonCode::WithinLimit, passed)
        } else {
            check(id, RiskCheckOutcome::Reject, RiskDecisionReasonCode::IdentifierNotAllowed, rejected)
        },
        None => check(id, RiskCheckOutcome::Unavailable, RiskDecisionReasonCode::PolicyUnconfigured, passed),
    }
}

fn block_list_exec(
    id: RiskCheckId,
    list: Option<&Vec<String>>,
    value: &str,
    rejected: &str,
    passed: &str,
) -> (r: RiskCheckResult)
    ensures
        check_is(
            r,
            block_list(
                id,
                match list {
                    Some(l) => Some(l@),
                    None => None,
                },
                value@,
                rejected@,
                passed@,
            ),
        ),
{
    let blocked = match list {
        Some(l) => contains_text(l, value),
        None => false,
    };
    if blocked {
        check(id, RiskCheckOutcome::Reject, RiskDecisionReasonCode::IdentifierBlocked, rejected)
    } else {
        check(id, RiskCheckOutcome::Pass, RiskDecisionReasonCode::WithinLimit, passed)
    }
}

// ---- limits -------------------------------------------------------------------------------

/// The reason of a limit check with `label`.
pub open spec fn limit_reason(label: Seq<char>, code: RiskDecisionReasonCode) -> Seq<char> {
    match code {
        RiskDecisionReasonCode::LimitNotConfigured => label + " limit is not configured."@,
        RiskDecisionReasonCode::EvidenceMissing => "Trusted "@ + label + " evidence is unavailable."@,
        RiskDecisionReasonCode::LimitExceeded => label + " exceeds the configured limit."@,
        RiskDecisionReasonCode::WithinLimit => label + " is within the configured limit."@,
        _ => label + " could not be compared exactly."@,
    }
}

fn limit_reason_exec(label: &str, code: RiskDecisionReasonCode) -> (r: String)
    ensures
        r@ == limit_reason(label@, code),
{
    match code {
        RiskDecisionReasonCode::LimitNotConfigured => {
            let mut r = owned(label);
            push_chars(&mut r, &chars(" limit is not configured."));
            r
        },
        RiskDecisionReasonCode::EvidenceMissing => {
            let mut r = owned("Trusted ");
            push_chars(&mut r, &chars(label));
            push_chars(&mut r, &chars(" evidence is unavailable."));
            r
        },
        RiskDecisionReasonCode::LimitExceeded => {
            let mut r = owned(label);
            push_chars(&mut r, &chars(" exceeds the configured limit."));
            r
        },
        RiskDecisionReasonCode::WithinLimit => {
            let mut r = owned(label);
            push_chars(&mut r, &chars(" is within the configured limit."));
            r
        },
        _ => {
            let mut r = owned(label);
            push_chars(&mut r, &chars(" could not be compared exactly."));
            r
        },
    }
}

fn limit_result(id: RiskCheckId, label: &str, outcome: RiskCheckOutcome, code: RiskDecisionReasonCode) -> (r:
    RiskCheckResult)
    ensures
        check_is(r, (id, outcome, code, limit_reason(label@, code))),
{
    RiskCheckResult { check_id: id, outcome, reason_code: code, reason: limit_reason_exec(label, code) }
}

/// A limit on a text value, compared as the decimal comparison does.
pub open spec fn text_limit(id: RiskCheckId, label: Seq<char>, value: Option<Seq<char>>, max: Option<Seq<char>>) -> Expected {
    let (o, c) = match max {
        None => (RiskCheckOutcome::Pass, RiskDecisionReasonCode::LimitNotConfigured),
        Some(m) => match value {
            None => (RiskCheckOutcome::Unavailable, RiskDecisionReasonCode::EvidenceMissing),
            Some(v) => match decimal_order(v, m) {
                Some(Comparison::Greater) => (RiskCheckOutcome::Reject, RiskDecisionReasonCode::LimitExceeded),
                Some(_) => (RiskCheckOutcome::Pass, RiskDecisionReasonCode::WithinLimit),
                None => (RiskCheckOutcome::Unavailable, RiskDecisionReasonCode::InvalidProposalValue),
            },
        },
    };
    (id, o, c, limit_reason(label, c))
}

fn text_limit_exec(id: RiskCheckId, label: &str, value: Option<&str>, max: Option<&str>) -> (r: RiskCheckResult)
    ensures
        check_is(
            r,
            text_limit(
                id,
                label@,
                match value {
                    Some(v) => Some(v@),
                    None => None,
                },
                match max {
                    Some(m) => Some(m@),
                    None => None,
                },
            ),
        ),
{
    match max {
        None => limit_result(id, label, RiskCheckOutcome::Pass, RiskDecisionReasonCode::LimitNotConfigured),
        Some(m) => match value {
            None => limit_result(id, label, RiskCheckOutcome::Unavailable, RiskDecisionReasonCode::EvidenceMissing),
            Some(v) => match compare_decimals(v, m) {
                Some(Comparison::Greater) => limit_result(
                    id,
                    label,
                    RiskCheckOutcome::Reject,
                    RiskDecisionReasonCode::LimitExceeded,
                ),
                Some(_) => limit_result(id, label, RiskCheckOutcome::Pass, RiskDecisionReasonCode::WithinLimit),
                None => limit_result(
                    id,
                    label,
                    RiskCheckOutcome::Unavailable,
                    RiskDecisionReasonCode::InvalidProposalValue,
                ),
            },
        },
    }
}

/// A usable limit text: an accepted, non-negative decimal.
pub open spec fn limit_usable(m: Seq<char>) -> bool {
    decimal_accepts(m) && !is_negative_text(m)
}

/// A limit on an exact amount.
pub open spec fn amount_limit(id: RiskCheckId, label: Seq<char>, value: Option<(int, nat)>, max: Option<Seq<char>>) -> Expected {
    let (o, c) = match max {
        None => (RiskCheckOutcome::Pass, RiskDecisionReasonCode::LimitNotConfigured),
        Some(m) => match value {
            None => (RiskCheckOutcome::Unavailable, RiskDecisionReasonCode::EvidenceMissing),
            Some(v) => if !limit_usable(m) || v.0 < 0 {
                (RiskCheckOutcome::Unavailable, RiskDecisionReasonCode::InvalidProposalValue)
            } else if value_order(v, text_value(m)) == Comparison::Greater {
                (RiskCheckOutcome::Reject, RiskDecisionReasonCode::LimitExceeded)
            } else {
                (RiskCheckOutcome::Pass, RiskDecisionReasonCode::WithinLimit)
            },
        },
    };
    (id, o, c, limit_reason(label, c))
}

pub open spec fn opt_amount(a: Option<Amount>) -> Option<(int, nat)> {
    match a {
        Some(x) => Some(amount_value(x)),
        None => None,
    }
}

pub open spec fn opt_text(t: Option<&str>) -> Option<Seq<char>> {
    match t {
        Some(x) => Some(x@),
        None => None,
    }
}

fn amount_limit_exec(id: RiskCheckId, label: &str, value: Option<Amount>, max: Option<&str>) -> (r: RiskCheckResult)
    requires
        value matches Some(v) ==> amount_wf(v),
    ensures
        check_is(r, amount_limit(id, label@, opt_amount(value), opt_text(max))),
{
    match max {
        None => limit_result(id, label, RiskCheckOutcome::Pass, RiskDecisionReasonCode::LimitNotConfigured),
        Some(m) => match value {
            None => limit_result(id, label, RiskCheckOutcome::Unavailable, RiskDecisionReasonCode::EvidenceMissing),
            Some(v) => {
                let lim = parse_amount(m);
                let negative_value = v.negative && !is_zero_amount(&v);
                proof {
                    crate::decimal::lemma_digits_value_bounds(v.digits@);
                    assert(negative_value <==> amount_value(v).0 < 0);
                }
                match lim {
                    Some(l) => {
                        if l.negative || negative_value {
                            proof {
                                if l.negative {
                                    assert(is_negative_text(m@));
                                }
                            }
                            return limit_result(
                                id,
                                label,
                                RiskCheckOutcome::Unavailable,
                                RiskDecisionReasonCode::InvalidProposalValue,
                            );
                        }
                        proof {
                            assert(!is_negative_text(m@));
                        }
                        match compare_amounts(&v, &l) {
                            Comparison::Greater => limit_result(
                                id,
                                label,
                                RiskCheckOutcome::Reject,
                                RiskDecisionReasonCode::LimitExceeded,
                            ),
                            _ => limit_result(id, label, RiskCheckOutcome::Pass, RiskDecisionReasonCode::WithinLimit),
                        }
                    },
                    None => limit_result(
                        id,
                        label,
                        RiskCheckOutcome::Unavailable,
                        RiskDecisionReasonCode::InvalidProposalValue,
                    ),
                }
            },
        },
    }
}

fn is_zero_amount(a: &Amount) -> (r: bool)
    requires
        amount_wf(*a),
    ensures
        r == (crate::decimal::digits_value(a.digits@) == 0),
{
    let z: Vec<char> = Vec::new();
    proof {
        assert(crate::decimal::digits_value(z@) == 0);
        crate::decimal::lemma_digits_value_bounds(a.digits@);
    }
    match crate::amount::compare_digit_values(&a.digits, &z) {
        Comparison::Equal => true,
        _ => false,
    }
}

/// A limit on the percentage `num * 100 / den` of two exact amounts; the
/// percentage exists only for a positive denominator.
pub open spec fn ratio_limit(
    id: RiskCheckId,
    label: Seq<char>,
    parts: Option<((int, nat), (int, nat))>,
    max: Option<Seq<char>>,
) -> Expected {
    let (o, c) = match max {
        None => (RiskCheckOutcome::Pass, RiskDecisionReasonCode::LimitNotConfigured),
        Some(m) => match parts {
            None => (RiskCheckOutcome::Unavailable, RiskDecisionReasonCode::EvidenceMissing),
            Some((num, den)) => if !limit_usable(m) {
                (RiskCheckOutcome::Unavailable, RiskDecisionReasonCode::InvalidProposalValue)
            } else if ratio_exceeds(num, den, text_value(m)) {
                (RiskCheckOutcome::Reject, RiskDecisionReasonCode::LimitExceeded)
            } else {
                (RiskCheckOutcome::Pass, RiskDecisionReasonCode::WithinLimit)
            },
        },
    };
    (id, o, c, limit_reason(label, c))
}

/// The parts of a percentage: a non-negative numerator and a positive
/// denominator.
pub open spec fn ratio_parts_ok(num: Amount, den: Amount) -> bool {
    &&& amount_wf(num)
    &&& amount_wf(den)
    &&& !num.negative
    &&& !den.negative
    &&& amount_value(den).0 > 0
}

pub open spec fn opt_parts(p: Option<(Amount, Amount)>) -> Option<((int, nat), (int, nat))> {
    match p {
        Some((n, d)) => Some((amount_value(n), amount_value(d))),
        None => None,
    }
}

fn ratio_limit_exec(id: RiskCheckId, label: &str, parts: Option<(Amount, Amount)>, max: Option<&str>) -> (r: RiskCheckResult)
    requires
        parts matches Some((n, d)) ==> ratio_parts_ok(n, d),
    ensures
        check_is(r, ratio_limit(id, label@, opt_parts(parts), opt_text(max))),
{
    match max {
        None => limit_result(id, label, RiskCheckOutcome::Pass, RiskDecisionReasonCode::LimitNotConfigured),
        Some(m) => match parts {
            None => limit_result(id, label, RiskCheckOutcome::Unavailable, RiskDecisionReasonCode::EvidenceMissing),
            Some((num, den)) => match parse_amount(m) {
                Some(l) => {
                    if l.negative {
                        proof {
                            assert(is_negative_text(m@));
                        }
                        return limit_result(
                            id,
                            label,
                            RiskCheckOutcome::Unavailable,
                            RiskDecisionReasonCode::InvalidProposalValue,
                        );
                    }
                    proof {
                        assert(!is_negative_text(m@));
                    }
                    if exceeds_ratio(&num, &den, &l) {
                        limit_result(id, label, RiskCheckOutcome::Reject, RiskDecisionReasonCode::LimitExceeded)
                    } else {
                        limit_result(id, label, RiskCheckOutcome::Pass, RiskDecisionReasonCode::WithinLimit)
                    }
                },
                None => limit_result(
                    id,
                    label,
                    RiskCheckOutcome::Unavailable,
                    RiskDecisionReasonCode::InvalidProposalValue,
                ),
            },
        },
    }
}

// ---- portfolio evidence -------------------------------------------------------------------

/// The text of a portfolio value in the workspace currency: the native value
/// when the currencies agree, else the converted workspace value.
pub open spec fn value_text(v: PortfolioValue) -> Option<Seq<char>> {
    let native = match v.native_currency {
        Some(c) => c@,
        None => Seq::<char>::empty(),
    };
    if v.workspace_currency@ == native {
        match v.native_value {
            Some(t) => Some(t@),
            None => None,
        }
    } else {
        match v.workspace_value {
            Some(t) => Some(t@),
            None => None,
        }
    }
}

fn value_text_exec(v: &PortfolioValue) -> (r: Option<&String>)
    ensures
        match r {
            Some(t) => value_text(*v) == Some(t@),
            None => value_text(*v) is None,
        },
{
    let same = match &v.native_currency {
        Some(c) => str_eq(v.workspace_currency.as_str(), c.as_str()),
        None => crate::text::is_empty_text(v.workspace_currency.as_str()),
    };
    proof {
        if v.native_currency is None && v.workspace_currency@.len() == 0 {
            assert(v.workspace_currency@ =~= Seq::<char>::empty());
        }
    }
    if same {
        match &v.native_value {
            Some(t) => Some(t),
            None => None,
        }
    } else {
        match &v.workspace_value {
            Some(t) => Some(t),
            None => None,
        }
    }
}

/// A complete portfolio: available, with at least one account, a workspace
/// equity total, and every account healthy with its equity known.
pub open spec fn portfolio_complete(f: PortfolioSnapshot) -> bool {
    &&& f.status == PortfolioStatus::Available
    &&& f.accounts@.len() > 0
    &&& f.totals.equity.workspace_value is Some
    &&& forall|i: int|
        0 <= i < f.accounts@.len() ==> health_ok(
            (#[trigger] f.accounts@[i]).connection_state,
            f.accounts@[i].health,
        ) && f.accounts@[i].equity.workspace_value is Some
}

fn portfolio_complete_exec(f: &PortfolioSnapshot) -> (r: bool)
    ensures
        r == portfolio_complete(*f),
{
    if f.status != PortfolioStatus::Available || f.accounts.len() == 0
        || f.totals.equity.workspace_value.is_none() {
        return false;
    }
    let mut i: usize = 0;
    while i < f.accounts.len()
        invariant
            i <= f.accounts@.len(),
            forall|k: int|
                0 <= k < i ==> health_ok(
                    (#[trigger] f.accounts@[k]).connection_state,
                    f.accounts@[k].health,
                ) && f.accounts@[k].equity.workspace_value is Some,
        decreases f.accounts@.len() - i,
    {
        let a = &f.accounts[i];
        if !health_ok_exec(a.connection_state, &a.health) || a.equity.workspace_value.is_none() {
            return false;
        }
        i = i + 1;
    }
    true
}

pub open spec fn complete_portfolio(f: Option<&PortfolioSnapshot>) -> Option<PortfolioSnapshot> {
    match f {
        Some(x) => if portfolio_complete(*x) {
            Some(*x)
        } else {
            None
        },
        None => None,
    }
}

/// The proposal's estimated notional, when it is in the base currency of a
/// complete portfolio.
pub open spec fn notional_text(p: OrderProposal, f: Option<&PortfolioSnapshot>) -> Option<Seq<char>> {
    match complete_portfolio(f) {
        Some(x) => match p.estimated_notional_currency {
            Some(c) => if c@ == x.base_currency@ {
                match p.estimated_notional {
                    Some(n) => Some(n@),
                    None => None,
                }
            } else {
                None
            },
            None => None,
        },
        None => None,
    }
}

/// A decimal text read as an exact amount.
pub open spec fn text_amount(t: Seq<char>) -> Option<(int, nat)> {
    if decimal_accepts(t) {
        Some(text_value(t))
    } else {
        None
    }
}

/// An order amount signed by its side: a sell counts negatively and must
/// not already be negative.
pub open spec fn signed_order(order: Seq<char>, side: OrderSide) -> Option<(int, nat)> {
    if !decimal_accepts(order) {
        None
    } else if side == OrderSide::Sell {
        if is_negative_text(order) {
            None
        } else {
            Some(neg_value(text_value(order)))
        }
    } else {
        Some(text_value(order))
    }
}

fn signed_order_exec(order: &str, side: OrderSide) -> (r: Option<Amount>)
    ensures
        opt_amount(r) == signed_order(order@, side),
        r matches Some(a) ==> amount_wf(a),
{
    match parse_amount(order) {
        None => None,
        Some(a) => {
            if side == OrderSide::Sell {
                if a.negative {
                    None
                } else {
                    Some(negate_amount(&a))
                }
            } else {
                Some(a)
            }
        },
    }
}

/// The summed workspace value of the holdings of one instrument.
pub open spec fn holdings_value(h: Seq<crate::protocol::PortfolioHolding>, id: Seq<char>) -> Option<(int, nat)>
    decreases h.len(),
{
    if h.len() == 0 {
        Some((0int, 0nat))
    } else {
        match holdings_value(h.drop_last(), id) {
            None => None,
            Some(acc) => {
                let x = h.last();
                if x.instrument_id matches Some(i) && i@ == id {
                    match value_text(x.value) {
                        Some(t) => match text_amount(t) {
                            Some(v) => Some(add_values(acc, v)),
                            None => None,
                        },
                        None => None,
                    }
                } else {
                    Some(acc)
                }
            },
        }
    }
}

fn zero_amount() -> (r: Amount)
    ensures
        amount_wf(r),
        amount_value(r) == (0int, 0nat),
{
    let r = Amount { negative: false, digits: Vec::new(), scale: 0 };
    assert(crate::decimal::digits_value(r.digits@) == 0);
    r
}

fn instrument_value(f: &PortfolioSnapshot, id: &str) -> (r: Option<Amount>)
    ensures
        opt_amount(r) == holdings_value(f.holdings@, id@),
        r matches Some(a) ==> amount_wf(a),
{
    let mut total = zero_amount();
    let mut i: usize = 0;
    while i < f.holdings.len()
        invariant
            i <= f.holdings@.len(),
            amount_wf(total),
            holdings_value(f.holdings@.subrange(0, i as int), id@) == Some(amount_value(total)),
        decreases f.holdings@.len() - i,
    {
        let h = &f.holdings[i];
        proof {
            let next = f.holdings@.subrange(0, i + 1);
            assert(next.drop_last() =~= f.holdings@.subrange(0, i as int));
            assert(next.last() == f.holdings@[i as int]);
        }
        let matches = match &h.instrument_id {
            Some(x) => str_eq(x.as_str(), id),
            None => false,
        };
        if matches {
            let t = match value_text_exec(&h.value) {
                Some(t) => t,
                None => {
                    proof {
                        assert(holdings_value(f.holdings@.subrange(0, i + 1), id@) is None);
                        lemma_holdings_none_stays(f.holdings@, id@, i + 1);
                    }
                    return None;
                },
            };
            match parse_amount(t.as_str()) {
                Some(v) => {
                    total = add_amounts(&total, &v);
                },
                None => {
                    proof {
                        assert(holdings_value(f.holdings@.subrange(0, i + 1), id@) is None);
                        lemma_holdings_none_stays(f.holdings@, id@, i + 1);
                    }
                    return None;
                },
            }
        }
        i = i + 1;
    }
    assert(f.holdings@.subrange(0, f.holdings@.len() as int) =~= f.holdings@);
    Some(total)
}

proof fn lemma_holdings_none_stays(h: Seq<crate::protocol::PortfolioHolding>, id: Seq<char>, k: int)
    requires
        0 <= k <= h.len(),
        holdings_value(h.subrange(0, k), id) is None,
    ensures
        holdings_value(h, id) is None,
    decreases h.len() - k,
{
    if k < h.len() {
        assert(h.subrange(0, k + 1).drop_last() =~= h.subrange(0, k));
        lemma_holdings_none_stays(h, id, k + 1);
    } else {
        assert(h.subrange(0, k) =~= h);
    }
}

/// The value of the proposal's instrument in a complete portfolio.
pub open spec fn current_value(p: OrderProposal, f: Option<&PortfolioSnapshot>) -> Option<(int, nat)> {
    match complete_portfolio(f) {
        Some(x) => holdings_value(x.holdings@, p.fields.instrument_id@),
        None => None,
    }
}

/// The position after the order, without sign.
pub open spec fn position_size(p: OrderProposal, f: Option<&PortfolioSnapshot>) -> Option<(int, nat)> {
    match (current_value(p, f), notional_text(p, f)) {
        (Some(c), Some(n)) => match signed_order(n, p.fields.side) {
            Some(o) => Some(abs_value(add_values(c, o))),
            None => None,
        },
        _ => None,
    }
}

/// The workspace equity of a complete portfolio, read as a positive amount.
pub open spec fn equity_amount(f: Option<&PortfolioSnapshot>) -> Option<(int, nat)> {
    match complete_portfolio(f) {
        Some(x) => match x.totals.equity.workspace_value {
            Some(t) => match text_amount(t@) {
                Some(v) => if v.0 > 0 {
                    Some(v)
                } else {
                    None
                },
                None => None,
            },
            None => None,
        },
        None => None,
    }
}

/// The parts of the exposure percentage after an order: the absolute
/// position and the equity.
pub open spec fn exposure_parts(current: Option<(int, nat)>, order: Option<(int, nat)>, equity: Option<(int, nat)>) -> Option<((int, nat), (int, nat))> {
    match (current, order, equity) {
        (Some(c), Some(o), Some(e)) => Some((abs_value(add_values(c, o)), e)),
        _ => None,
    }
}

pub open spec fn instrument_exposure(p: OrderProposal, f: Option<&PortfolioSnapshot>) -> Option<((int, nat), (int, nat))> {
    match notional_text(p, f) {
        Some(n) => exposure_parts(current_value(p, f), signed_order(n, p.fields.side), equity_amount(f)),
        None => None,
    }
}

// ---- asset-class exposure --------------------------------------------------------------------

/// The holding is the cash of this account, in the account's currency.
pub open spec fn cash_of(a: crate::protocol::PortfolioAccount, h: crate::protocol::PortfolioHolding) -> bool {
    a.connection_id@ == h.connection_id@ && match a.account_currency {
        Some(c) => c@ == h.asset@,
        None => false,
    }
}

/// The asset class a holding counts toward: by its instrument prefix; a
/// cash holding in its account's currency counts toward none; anything else
/// cannot be classified (`None`).
pub open spec fn holding_class(h: crate::protocol::PortfolioHolding, accounts: Seq<crate::protocol::PortfolioAccount>) -> Option<Option<AssetClass>> {
    match h.instrument_id {
        Some(id) => if crate::text::has_prefix(id@, "equity:"@) {
            Some(Some(AssetClass::Equity))
        } else if crate::text::has_prefix(id@, "crypto:"@) {
            Some(Some(AssetClass::CryptoSpot))
        } else {
            None
        },
        None => if exists|i: int| 0 <= i < accounts.len() && cash_of(#[trigger] accounts[i], h) {
            Some(None)
        } else {
            None
        },
    }
}

/// The summed value of the holdings of one asset class.
pub open spec fn class_total(
    h: Seq<crate::protocol::PortfolioHolding>,
    accounts: Seq<crate::protocol::PortfolioAccount>,
    class: AssetClass,
) -> Option<(int, nat)>
    decreases h.len(),
{
    if h.len() == 0 {
        Some((0int, 0nat))
    } else {
        match class_total(h.drop_last(), accounts, class) {
            None => None,
            Some(acc) => match holding_class(h.last(), accounts) {
                None => None,
                Some(c) => if c == Some(class) {
                    match value_text(h.last().value) {
                        Some(t) => match text_amount(t) {
                            Some(v) => Some(add_values(acc, v)),
                            None => None,
                        },
                        None => None,
                    }
                } else {
                    Some(acc)
                },
            },
        }
    }
}

fn holding_class_exec(h: &crate::protocol::PortfolioHolding, accounts: &Vec<crate::protocol::PortfolioAccount>) -> (r: Option<Option<AssetClass>>)
    ensures
        r == holding_class(*h, accounts@),
{
    match &h.instrument_id {
        Some(id) => {
            let v = chars(id.as_str());
            if crate::text::starts_with(&v, &chars("equity:")) {
                Some(Some(AssetClass::Equity))
            } else if crate::text::starts_with(&v, &chars("crypto:")) {
                Some(Some(AssetClass::CryptoSpot))
            } else {
                None
            }
        },
        None => {
            let mut i: usize = 0;
            while i < accounts.len()
                invariant
                    i <= accounts@.len(),
                    h.instrument_id is None,
                    forall|k: int|
                        0 <= k < i ==> !cash_of(#[trigger] accounts@[k], *h),
                decreases accounts@.len() - i,
            {
                let a = &accounts[i];
                let same_currency = match &a.account_currency {
                    Some(c) => str_eq(c.as_str(), h.asset.as_str()),
                    None => false,
                };
                if str_eq(a.connection_id.as_str(), h.connection_id.as_str()) && same_currency {
                    assert(cash_of(accounts@[i as int], *h));
                    assert(exists|j: int| 0 <= j < accounts@.len() && cash_of(#[trigger] accounts@[j], *h));
                    assert(h.instrument_id is None);
                    return Some(None);
                }
                i = i + 1;
            }
            None
        },
    }
}

proof fn lemma_class_none_stays(
    h: Seq<crate::protocol::PortfolioHolding>,
    accounts: Seq<crate::protocol::PortfolioAccount>,
    class: AssetClass,
    k: int,
)
    requires
        0 <= k <= h.len(),
        class_total(h.subrange(0, k), accounts, class) is None,
    ensures
        class_total(h, accounts, class) is None,
    decreases h.len() - k,
{
    if k < h.len() {
        assert(h.subrange(0, k + 1).drop_last() =~= h.subrange(0, k));
        lemma_class_none_stays(h, accounts, class, k + 1);
    } else {
        assert(h.subrange(0, k) =~= h);
    }
}

fn class_exposure(f: &PortfolioSnapshot, class: AssetClass) -> (r: Option<Amount>)
    ensures
        opt_amount(r) == class_total(f.holdings@, f.accounts@, class),
        r matches Some(a) ==> amount_wf(a),
{
    let mut total = zero_amount();
    let mut i: usize = 0;
    while i < f.holdings.len()
        invariant
            i <= f.holdings@.len(),
            amount_wf(total),
            class_total(f.holdings@.subrange(0, i as int), f.accounts@, class) == Some(amount_value(total)),
        decreases f.holdings@.len() - i,
    {
        let h = &f.holdings[i];
        proof {
            let next = f.holdings@.subrange(0, i + 1);
            assert(next.drop_last() =~= f.holdings@.subrange(0, i as int));
            assert(next.last() == f.holdings@[i as int]);
        }
        match holding_class_exec(h, &f.accounts) {
            None => {
                proof {
                    lemma_class_none_stays(f.holdings@, f.accounts@, class, i + 1);
                }
                return None;
            },
            Some(c) => {
                if c == Some(class) {
                    let t = match value_text_exec(&h.value) {
                        Some(t) => t,
                        None => {
                            proof {
                                lemma_class_none_stays(f.holdings@, f.accounts@, class, i + 1);
                            }
                            return None;
                        },
                    };
                    match parse_amount(t.as_str()) {
                        Some(v) => {
                            total = add_amounts(&total, &v);
                        },
                        None => {
                            proof {
                                lemma_class_none_stays(f.holdings@, f.accounts@, class, i + 1);
                            }
                            return None;
                        },
                    }
                }
            },
        }
        i = i + 1;
    }
    assert(f.holdings@.subrange(0, f.holdings@.len() as int) =~= f.holdings@);
    Some(total)
}

/// Whether one class limit is exceeded after the order (the order counts
/// only toward the market instrument's class).
pub open spec fn class_exceeded(
    limit: crate::risk::RiskAssetClassLimit,
    f: PortfolioSnapshot,
    market_class: AssetClass,
    order: Seq<char>,
    side: OrderSide,
    equity: (int, nat),
) -> Option<bool> {
    let applies = market_class == limit.asset_class;
    let proposed = if applies {
        signed_order(order, side)
    } else {
        Some((0int, 0nat))
    };
    match (class_total(f.holdings@, f.accounts@, limit.asset_class), proposed) {
        (Some(c), Some(o)) => if limit_usable(limit.max_exposure_percent@) {
            Some(ratio_exceeds(abs_value(add_values(c, o)), equity, text_value(limit.max_exposure_percent@)))
        } else {
            None
        },
        _ => None,
    }
}

/// Whether any class limit is exceeded; `None` when one cannot be judged.
pub open spec fn classes_exceeded(
    limits: Seq<crate::risk::RiskAssetClassLimit>,
    f: PortfolioSnapshot,
    market_class: AssetClass,
    order: Seq<char>,
    side: OrderSide,
    equity: (int, nat),
) -> Option<bool>
    decreases limits.len(),
{
    if limits.len() == 0 {
        Some(false)
    } else {
        match (
            classes_exceeded(limits.drop_last(), f, market_class, order, side, equity),
            class_exceeded(limits.last(), f, market_class, order, side, equity),
        ) {
            (Some(a), Some(b)) => Some(a || b),
            _ => None,
        }
    }
}

pub open spec fn class_limits(pol: Option<RiskPolicy>) -> Seq<crate::risk::RiskAssetClassLimit> {
    match pol {
        Some(p) => p.max_asset_class_exposure_percent@,
        None => Seq::empty(),
    }
}

pub open spec fn asset_class_check(
    p: OrderProposal,
    pol: Option<RiskPolicy>,
    f: Option<&PortfolioSnapshot>,
    m: Option<&MarketDetail>,
) -> Expected {
    let limits = class_limits(pol);
    let judged = match (complete_portfolio(f), m, notional_text(p, f), equity_amount(f)) {
        (Some(x), Some(md), Some(order), Some(eq)) => classes_exceeded(
            limits,
            x,
            md.instrument.asset_class,
            order,
            p.fields.side,
            eq,
        ),
        _ => if limits.len() == 0 {
            Some(false)
        } else {
            None
        },
    };
    if limits.len() == 0 {
        (RiskCheckId::AssetClassExposure, RiskCheckOutcome::Pass,
            RiskDecisionReasonCode::LimitNotConfigured,
            "Asset-class exposure is within limits or no class limit is configured."@)
    } else {
        match judged {
            Some(true) => (RiskCheckId::AssetClassExposure, RiskCheckOutcome::Reject,
                RiskDecisionReasonCode::LimitExceeded,
                "The proposed asset-class exposure exceeds its configured limit."@),
            Some(false) => (RiskCheckId::AssetClassExposure, RiskCheckOutcome::Pass,
                RiskDecisionReasonCode::WithinLimit,
                "Asset-class exposure is within limits or no class limit is configured."@),
            None => (RiskCheckId::AssetClassExposure, RiskCheckOutcome::Unavailable,
                RiskDecisionReasonCode::EvidenceMissing,
                "Workspace exposure or a trusted asset-class mapping is unavailable."@),
        }
    }
}

fn class_exceeded_exec(
    limit: &crate::risk::RiskAssetClassLimit,
    f: &PortfolioSnapshot,
    market_class: AssetClass,
    order: &str,
    side: OrderSide,
    equity: &Amount,
) -> (r: Option<bool>)
    requires
        amount_wf(*equity),
        !equity.negative,
        amount_value(*equity).0 > 0,
    ensures
        r == class_exceeded(*limit, *f, market_class, order@, side, amount_value(*equity)),
{
    let applies = market_class == limit.asset_class;
    let proposed = if applies {
        signed_order_exec(order, side)
    } else {
        Some(zero_amount())
    };
    let current = class_exposure(f, limit.asset_class);
    match (current, proposed) {
        (Some(c), Some(o)) => {
            let e = abs_amount(&add_amounts(&c, &o));
            match parse_amount(limit.max_exposure_percent.as_str()) {
                Some(l) => {
                    if l.negative {
                        return None;
                    }
                    Some(exceeds_ratio(&e, equity, &l))
                },
                None => None,
            }
        },
        _ => None,
    }
}

fn classes_exceeded_exec(
    limits: &Vec<crate::risk::RiskAssetClassLimit>,
    f: &PortfolioSnapshot,
    market_class: AssetClass,
    order: &str,
    side: OrderSide,
    equity: &Amount,
) -> (r: Option<bool>)
    requires
        amount_wf(*equity),
        !equity.negative,
        amount_value(*equity).0 > 0,
    ensures
        r == classes_exceeded(limits@, *f, market_class, order@, side, amount_value(*equity)),
{
    let mut acc: Option<bool> = Some(false);
    let mut i: usize = 0;
    while i < limits.len()
        invariant
            i <= limits@.len(),
            amount_wf(*equity),
            !equity.negative,
            amount_value(*equity).0 > 0,
            acc == classes_exceeded(
                limits@.subrange(0, i as int),
                *f,
                market_class,
                order@,
                side,
                amount_value(*equity),
            ),
        decreases limits@.len() - i,
    {
        let one = class_exceeded_exec(&limits[i], f, market_class, order, side, equity);
        proof {
            let next = limits@.subrange(0, i + 1);
            assert(next.drop_last() =~= limits@.subrange(0, i as int));
            assert(next.last() == limits@[i as int]);
        }
        acc = match (acc, one) {
            (Some(a), Some(b)) => Some(a || b),
            _ => None,
        };
        i = i + 1;
    }
    assert(limits@.subrange(0, limits@.len() as int) =~= limits@);
    acc
}

// ---- daily counters -----------------------------------------------------------------------

/// The characters of the first `n` bytes of a text, when `n` falls on a
/// character boundary (`str::get(..n)`).
pub open spec fn byte_prefix(s: Seq<char>, n: int) -> Option<Seq<char>>
    decreases s.len(),
{
    if n == 0 {
        Some(Seq::empty())
    } else if n < 0 || s.len() == 0 {
        None
    } else if crate::text::char_width(s[0]) > n {
        None
    } else {
        match byte_prefix(s.drop_first(), n - crate::text::char_width(s[0])) {
            Some(p) => Some(seq![s[0]] + p),
            None => None,
        }
    }
}

fn byte_prefix_exec(s: &Vec<char>, n: usize) -> (r: Option<Vec<char>>)
    ensures
        match r {
            Some(p) => byte_prefix(s@, n as int) == Some(p@),
            None => byte_prefix(s@, n as int) is None,
        },
{
    let mut i: usize = 0;
    let mut used: usize = 0;
    proof {
        assert(s@.subrange(0, s@.len() as int) =~= s@);
        assert(s@.subrange(0, 0) =~= Seq::<char>::empty());
        match byte_prefix(s@, n as int) {
            Some(p) => {
                assert(Seq::<char>::empty() + p =~= p);
            },
            None => {},
        }
    }
    while used < n
        invariant
            i <= s@.len(),
            used <= n,
            byte_prefix(s@, n as int) == match byte_prefix(s@.subrange(i as int, s@.len() as int), n - used) {
                Some(p) => Some(s@.subrange(0, i as int) + p),
                None => None,
            },
        decreases n - used,
    {
        if i >= s.len() {
            return None;
        }
        let c = s[i];
        let w: usize = if (c as u32) < 0x80 {
            1
        } else if (c as u32) < 0x800 {
            2
        } else if (c as u32) < 0x10000 {
            3
        } else {
            4
        };
        let ghost rest = s@.subrange(i as int, s@.len() as int);
        if w > n - used {
            return None;
        }
        proof {
            assert(rest[0] == c);
            assert(rest.drop_first() =~= s@.subrange(i + 1, s@.len() as int));
            assert(s@.subrange(0, i + 1) =~= s@.subrange(0, i as int) + seq![c]);
            match byte_prefix(rest.drop_first(), n - used - w) {
                Some(p) => {
                    assert(s@.subrange(0, i as int) + (seq![c] + p) =~= s@.subrange(0, i + 1) + p);
                },
                None => {},
            }
        }
        used = used + w;
        i = i + 1;
    }
    proof {
        assert(byte_prefix(s@.subrange(i as int, s@.len() as int), 0) == Some(Seq::<char>::empty()));
        assert(s@.subrange(0, i as int) + Seq::<char>::empty() =~= s@.subrange(0, i as int));
    }
    Some(slice(s, 0, i))
}

pub open spec fn fill_date(observed_at: Seq<char>) -> Option<Seq<char>> {
    byte_prefix(observed_at, 10)
}

/// The summed value of the fills observed on `date`.
pub open spec fn fills_total(fills: Seq<crate::protocol::PortfolioFill>, date: Seq<char>) -> Option<(int, nat)>
    decreases fills.len(),
{
    if fills.len() == 0 {
        Some((0int, 0nat))
    } else {
        match fills_total(fills.drop_last(), date) {
            None => None,
            Some(acc) => if fill_date(fills.last().observed_at@) == Some(date) {
                match value_text(fills.last().value) {
                    Some(t) => match text_amount(t) {
                        Some(v) => Some(add_values(acc, v)),
                        None => None,
                    },
                    None => None,
                }
            } else {
                Some(acc)
            },
        }
    }
}

/// The notional traded today: the fills of a complete portfolio observed on
/// the clock's date.
pub open spec fn daily_traded(f: Option<&PortfolioSnapshot>, t: TimeStatus) -> Option<(int, nat)> {
    match complete_portfolio(f) {
        Some(x) => match x.fills {
            Some(fl) => match fill_date(t.wall_clock@) {
                Some(date) => fills_total(fl@, date),
                None => None,
            },
            None => None,
        },
        None => None,
    }
}

proof fn lemma_fills_none_stays(fills: Seq<crate::protocol::PortfolioFill>, date: Seq<char>, k: int)
    requires
        0 <= k <= fills.len(),
        fills_total(fills.subrange(0, k), date) is None,
    ensures
        fills_total(fills, date) is None,
    decreases fills.len() - k,
{
    if k < fills.len() {
        assert(fills.subrange(0, k + 1).drop_last() =~= fills.subrange(0, k));
        lemma_fills_none_stays(fills, date, k + 1);
    } else {
        assert(fills.subrange(0, k) =~= fills);
    }
}

fn fills_total_exec(fills: &Vec<crate::protocol::PortfolioFill>, date: &Vec<char>) -> (r: Option<Amount>)
    ensures
        opt_amount(r) == fills_total(fills@, date@),
        r matches Some(a) ==> amount_wf(a),
{
    let mut total = zero_amount();
    let mut i: usize = 0;
    while i < fills.len()
        invariant
            i <= fills@.len(),
            amount_wf(total),
            fills_total(fills@.subrange(0, i as int), date@) == Some(amount_value(total)),
        decreases fills@.len() - i,
    {
        let fill = &fills[i];
        proof {
            let next = fills@.subrange(0, i + 1);
            assert(next.drop_last() =~= fills@.subrange(0, i as int));
            assert(next.last() == fills@[i as int]);
        }
        let today = match byte_prefix_exec(&chars(fill.observed_at.as_str()), 10) {
            Some(d) => crate::text::seq_eq(&d, date),
            None => false,
        };
        if today {
            let t = match value_text_exec(&fill.value) {
                Some(t) => t,
                None => {
                    proof {
                        lemma_fills_none_stays(fills@, date@, i + 1);
                    }
                    return None;
                },
            };
            match parse_amount(t.as_str()) {
                Some(v) => {
                    total = add_amounts(&total, &v);
                },
                None => {
                    proof {
                        lemma_fills_none_stays(fills@, date@, i + 1);
                    }
                    return None;
                },
            }
        }
        i = i + 1;
    }
    assert(fills@.subrange(0, fills@.len() as int) =~= fills@);
    Some(total)
}

pub open spec fn daily_traded_check(pol: Option<RiskPolicy>, f: Option<&PortfolioSnapshot>, t: TimeStatus) -> Expected {
    let limit = match pol {
        Some(p) => match p.max_daily_traded_notional {
            Some(m) => Some(m@),
            None => None,
        },
        None => None,
    };
    if limit is Some && t.confidence != TimeConfidence::Trusted {
        (RiskCheckId::DailyTradedNotional, RiskCheckOutcome::Unavailable,
            RiskDecisionReasonCode::ClockUncertain,
            "Trusted TimeService evidence is required to determine the current daily trading window."@)
    } else {
        amount_limit(RiskCheckId::DailyTradedNotional, "Daily traded notional"@, daily_traded(f, t), limit)
    }
}

// ---- open orders --------------------------------------------------------------------------

pub open spec fn order_closed(s: Seq<char>) -> bool {
    s == "FILLED"@ || s == "CANCELLED"@ || s == "CANCELED"@ || s == "REJECTED"@ || s == "EXPIRED"@
}

pub open spec fn order_open(s: Seq<char>) -> bool {
    s == "OPEN"@ || s == "PENDING"@ || s == "ACCEPTED"@ || s == "NEW"@ || s == "PARTIALLY_FILLED"@
        || s == "PENDING_CANCEL"@ || s == "CANCEL_PENDING"@ || s == "PROPOSED"@
}

/// The number of open orders; `None` for an unknown status.
pub open spec fn open_count(orders: Seq<crate::protocol::PortfolioOrder>) -> Option<int>
    decreases orders.len(),
{
    if orders.len() == 0 {
        Some(0)
    } else {
        match open_count(orders.drop_last()) {
            None => None,
            Some(c) => {
                let st = orders.last().status@;
                if order_closed(st) {
                    Some(c)
                } else if order_open(st) {
                    Some(c + 1)
                } else {
                    None
                }
            },
        }
    }
}

/// An order status the open-order counter knows: an open one or a
/// closed one.
pub open spec fn known_order_status(s: Seq<char>) -> bool {
    ||| s == "OPEN"@ || s == "PENDING"@ || s == "ACCEPTED"@ || s == "NEW"@ || s == "PARTIALLY_FILLED"@
    ||| s == "PENDING_CANCEL"@ || s == "CANCEL_PENDING"@ || s == "PROPOSED"@
    ||| s == "FILLED"@ || s == "CANCELLED"@ || s == "CANCELED"@ || s == "REJECTED"@ || s == "EXPIRED"@
}

proof fn lemma_closed_not_open(s: Seq<char>)
    ensures
        order_closed(s) ==> !order_open(s),
{
    reveal_strlit("OPEN");
    reveal_strlit("PENDING");
    reveal_strlit("ACCEPTED");
    reveal_strlit("NEW");
    reveal_strlit("PARTIALLY_FILLED");
    reveal_strlit("PENDING_CANCEL");
    reveal_strlit("CANCEL_PENDING");
    reveal_strlit("PROPOSED");
    reveal_strlit("FILLED");
    reveal_strlit("CANCELLED");
    reveal_strlit("CANCELED");
    reveal_strlit("REJECTED");
    reveal_strlit("EXPIRED");
    if order_closed(s) && order_open(s) {
        assert(s.len() == 6 || s.len() == 9 || s.len() == 8 || s.len() == 7);
        assert(s[0] == 'F' || s[0] == 'C' || s[0] == 'R' || s[0] == 'E');
        assert(false);
    }
}

/// Whether an order counts as open: its status is OPEN, PENDING, ACCEPTED,
/// NEW, PARTIALLY_FILLED, PENDING_CANCEL, CANCEL_PENDING or PROPOSED.
pub open spec fn counted_open() -> spec_fn(crate::protocol::PortfolioOrder) -> bool {
    |o: crate::protocol::PortfolioOrder|
        o.status@ == "OPEN"@ || o.status@ == "PENDING"@ || o.status@ == "ACCEPTED"@ || o.status@ == "NEW"@
            || o.status@ == "PARTIALLY_FILLED"@ || o.status@ == "PENDING_CANCEL"@ || o.status@ == "CANCEL_PENDING"@
            || o.status@ == "PROPOSED"@
}

/// The workspace's open orders are counted: when every status is known,
/// the count is the number of orders whose status is OPEN, PENDING,
/// ACCEPTED, NEW, PARTIALLY_FILLED, PENDING_CANCEL, CANCEL_PENDING or
/// PROPOSED.
pub proof fn lemma_open_count_counts_open_orders(orders: Seq<crate::protocol::PortfolioOrder>)
    requires
        forall|i: int| 0 <= i < orders.len() ==> known_order_status(#[trigger] orders[i].status@),
    ensures
        open_count(orders) == Some(
            orders.filter(counted_open()).len() as int,
        ),
    decreases orders.len(),
{
    let p = counted_open();
    if orders.len() == 0 {
        assert(orders.filter(p) =~= orders) by {
            reveal(Seq::filter);
        }
    } else {
        let d = orders.drop_last();
        let o = orders.last();
        let st = o.status@;
        assert forall|i: int| 0 <= i < d.len() implies known_order_status(#[trigger] d[i].status@) by {
            assert(d[i] == orders[i]);
        }
        lemma_open_count_counts_open_orders(d);
        assert(d.push(o) =~= orders);
        d.lemma_filter_push(o, p);
        assert(known_order_status(orders[orders.len() - 1].status@));
        reveal_strlit("OPEN");
        reveal_strlit("PENDING");
        reveal_strlit("ACCEPTED");
        reveal_strlit("NEW");
        reveal_strlit("PARTIALLY_FILLED");
        reveal_strlit("PENDING_CANCEL");
        reveal_strlit("CANCEL_PENDING");
        reveal_strlit("PROPOSED");
        reveal_strlit("FILLED");
        reveal_strlit("CANCELLED");
        reveal_strlit("CANCELED");
        reveal_strlit("REJECTED");
        reveal_strlit("EXPIRED");
        assert(p(o) == order_open(st));
        lemma_closed_not_open(st);
        if order_closed(st) {
            assert(!p(o));
            assert(orders.filter(p) == d.filter(p));
        } else {
            assert(order_open(st));
            assert(p(o));
            assert(orders.filter(p) == d.filter(p).push(o));
        }
    }
}

/// The open-order check counts this proposal on top of the workspace's
/// open orders: with a configured limit, a complete portfolio and known
/// statuses, it rejects (`LimitExceeded`) exactly when the number of open
/// orders plus one exceeds the limit, and passes (`WithinLimit`)
/// otherwise.
pub proof fn lemma_open_order_limit(pol: Option<RiskPolicy>, f: Option<&PortfolioSnapshot>)
    requires
        pol matches Some(p) && p.max_open_orders is Some,
        complete_portfolio(f) matches Some(x) && forall|i: int|
            0 <= i < x.open_orders@.len() ==> known_order_status(#[trigger] x.open_orders@[i].status@),
    ensures
        ({
            let max = pol->0.max_open_orders->0;
            let orders = complete_portfolio(f)->0.open_orders@;
            let open = orders.filter(counted_open()).len();
            &&& open_order_check(pol, f).0 == RiskCheckId::OpenOrderCount
            &&& (open_order_check(pol, f).1 == RiskCheckOutcome::Reject <==> open + 1 > max)
            &&& (open + 1 > max ==> open_order_check(pol, f).2 == RiskDecisionReasonCode::LimitExceeded)
            &&& (open + 1 <= max ==> open_order_check(pol, f).1 == RiskCheckOutcome::Pass && open_order_check(
                pol,
                f,
            ).2 == RiskDecisionReasonCode::WithinLimit)
        }),
{
    lemma_open_count_counts_open_orders(complete_portfolio(f)->0.open_orders@);
}

/// An order of unknown status leaves the open orders uncounted.
pub proof fn lemma_open_count_unknown(orders: Seq<crate::protocol::PortfolioOrder>, i: int)
    requires
        0 <= i < orders.len(),
        !known_order_status(orders[i].status@),
    ensures
        open_count(orders) is None,
    decreases orders.len(),
{
    if i < orders.len() - 1 {
        let d = orders.drop_last();
        assert(d[i] == orders[i]);
        lemma_open_count_unknown(d, i);
    } else {
        assert(orders.last() == orders[i]);
    }
}

/// The open-order check without a count: no limit configured (or no
/// policy) passes as `LimitNotConfigured`; with a limit, an incomplete
/// portfolio or an order of unknown status makes the check `Unavailable`
/// (`CounterUnavailable`).
pub proof fn lemma_open_order_uncounted(pol: Option<RiskPolicy>, f: Option<&PortfolioSnapshot>)
    ensures
        !(pol matches Some(p) && p.max_open_orders is Some) ==> open_order_check(pol, f).1 == RiskCheckOutcome::Pass
            && open_order_check(pol, f).2 == RiskDecisionReasonCode::LimitNotConfigured,
        (pol matches Some(p) && p.max_open_orders is Some) && complete_portfolio(f) is None ==> open_order_check(
            pol,
            f,
        ).1 == RiskCheckOutcome::Unavailable && open_order_check(pol, f).2
            == RiskDecisionReasonCode::CounterUnavailable,
        (pol matches Some(p) && p.max_open_orders is Some) && (complete_portfolio(f) matches Some(x) && exists|i: int|
            0 <= i < x.open_orders@.len() && !known_order_status(#[trigger] x.open_orders@[i].status@))
            ==> open_order_check(pol, f).1 == RiskCheckOutcome::Unavailable && open_order_check(pol, f).2
            == RiskDecisionReasonCode::CounterUnavailable,
{
    if (pol matches Some(p) && p.max_open_orders is Some) && (complete_portfolio(f) matches Some(x) && exists|i: int|
        0 <= i < x.open_orders@.len() && !known_order_status(#[trigger] x.open_orders@[i].status@)) {
        let x = complete_portfolio(f)->0;
        let i = choose|i: int| 0 <= i < x.open_orders@.len() && !known_order_status(#[trigger] x.open_orders@[i].status@);
        lemma_open_count_unknown(x.open_orders@, i);
    }
}

/// A decision's open-order check is the one the policy and portfolio
/// give: with a limit, a complete portfolio and known statuses, more open
/// orders than the limit leaves room for this proposal rejects the check
/// and the whole decision.
pub proof fn lemma_decision_open_orders(
    d: RiskDecision,
    p: OrderProposal,
    s: Option<&RiskPolicyState>,
    a: Option<&AccountConnection>,
    f: Option<&PortfolioSnapshot>,
    m: Option<&MarketDetail>,
    t: TimeStatus,
)
    requires
        checks_match(d.checks@, expected_checks(p, s, a, f, m, t)),
        d.status == status_of(d.checks@),
    ensures
        d.checks@[18].check_id == RiskCheckId::OpenOrderCount,
        d.checks@[18].outcome == open_order_check(policy_of(s), f).1,
        d.checks@[18].reason_code == open_order_check(policy_of(s), f).2,
        (policy_of(s) matches Some(pol) && pol.max_open_orders is Some) && (complete_portfolio(f) matches Some(
            x,
        ) && forall|i: int| 0 <= i < x.open_orders@.len() ==> known_order_status(#[trigger] x.open_orders@[i].status@))
            && complete_portfolio(f)->0.open_orders@.filter(counted_open()).len() + 1 > policy_of(s)->0.max_open_orders->0
            ==> d.status == RiskDecisionStatus::Rejected,
{
    let e = expected_checks(p, s, a, f, m, t);
    assert(check_is(d.checks@[18], e[18]));
    if (policy_of(s) matches Some(pol) && pol.max_open_orders is Some) && (complete_portfolio(f) matches Some(
        x,
    ) && forall|i: int| 0 <= i < x.open_orders@.len() ==> known_order_status(#[trigger] x.open_orders@[i].status@))
        && complete_portfolio(f)->0.open_orders@.filter(counted_open()).len() + 1 > policy_of(s)->0.max_open_orders->0 {
        lemma_open_order_limit(policy_of(s), f);
        assert(d.checks@[18].outcome == RiskCheckOutcome::Reject);
    }
}

proof fn lemma_open_count_bound(orders: Seq<crate::protocol::PortfolioOrder>)
    ensures
        open_count(orders) matches Some(c) ==> 0 <= c <= orders.len(),
    decreases orders.len(),
{
    if orders.len() > 0 {
        lemma_open_count_bound(orders.drop_last());
    }
}

pub open spec fn open_order_code(pol: Option<RiskPolicy>, f: Option<&PortfolioSnapshot>) -> (RiskCheckOutcome, RiskDecisionReasonCode) {
    match pol {
        Some(p) => match p.max_open_orders {
            None => (RiskCheckOutcome::Pass, RiskDecisionReasonCode::LimitNotConfigured),
            Some(max) => match complete_portfolio(f) {
                None => (RiskCheckOutcome::Unavailable, RiskDecisionReasonCode::CounterUnavailable),
                Some(x) => match open_count(x.open_orders@) {
                    None => (RiskCheckOutcome::Unavailable, RiskDecisionReasonCode::CounterUnavailable),
                    Some(c) => if c + 1 > max {
                        (RiskCheckOutcome::Reject, RiskDecisionReasonCode::LimitExceeded)
                    } else {
                        (RiskCheckOutcome::Pass, RiskDecisionReasonCode::WithinLimit)
                    },
                },
            },
        },
        None => (RiskCheckOutcome::Pass, RiskDecisionReasonCode::LimitNotConfigured),
    }
}

pub open spec fn open_order_check(pol: Option<RiskPolicy>, f: Option<&PortfolioSnapshot>) -> Expected {
    let (o, c) = open_order_code(pol, f);
    (RiskCheckId::OpenOrderCount, o, c, if c == RiskDecisionReasonCode::LimitNotConfigured {
        "Open-order limit is not configured."@
    } else if c == RiskDecisionReasonCode::LimitExceeded {
        "Existing workspace open orders plus this proposal exceed the configured limit."@
    } else if o == RiskCheckOutcome::Unavailable {
        "Complete workspace open-order observations are unavailable."@
    } else {
        "Workspace open-order count is within the configured limit."@
    })
}

fn status_closed(s: &str) -> (r: bool)
    ensures
        r == order_closed(s@),
{
    str_eq(s, "FILLED") || str_eq(s, "CANCELLED") || str_eq(s, "CANCELED") || str_eq(s, "REJECTED")
        || str_eq(s, "EXPIRED")
}

fn status_open(s: &str) -> (r: bool)
    ensures
        r == order_open(s@),
{
    str_eq(s, "OPEN") || str_eq(s, "PENDING") || str_eq(s, "ACCEPTED") || str_eq(s, "NEW") || str_eq(
        s,
        "PARTIALLY_FILLED",
    ) || str_eq(s, "PENDING_CANCEL") || str_eq(s, "CANCEL_PENDING") || str_eq(s, "PROPOSED")
}

fn open_count_exec(orders: &Vec<crate::protocol::PortfolioOrder>) -> (r: Option<u64>)
    ensures
        match r {
            Some(c) => open_count(orders@) == Some(c as int),
            None => open_count(orders@) is None,
        },
{
    let mut count: u64 = 0;
    let mut i: usize = 0;
    while i < orders.len()
        invariant
            i <= orders@.len(),
            open_count(orders@.subrange(0, i as int)) == Some(count as int),
            count <= i,
        decreases orders@.len() - i,
    {
        proof {
            let next = orders@.subrange(0, i + 1);
            assert(next.drop_last() =~= orders@.subrange(0, i as int));
            assert(next.last() == orders@[i as int]);
        }
        let st = orders[i].status.as_str();
        if status_closed(st) {
        } else if status_open(st) {
            count = count + 1;
        } else {
            proof {
                lemma_open_count_none_stays(orders@, i + 1);
            }
            return None;
        }
        i = i + 1;
    }
    assert(orders@.subrange(0, orders@.len() as int) =~= orders@);
    Some(count)
}

proof fn lemma_open_count_none_stays(orders: Seq<crate::protocol::PortfolioOrder>, k: int)
    requires
        0 <= k <= orders.len(),
        open_count(orders.subrange(0, k)) is None,
    ensures
        open_count(orders) is None,
    decreases orders.len() - k,
{
    if k < orders.len() {
        assert(orders.subrange(0, k + 1).drop_last() =~= orders.subrange(0, k));
        lemma_open_count_none_stays(orders, k + 1);
    } else {
        assert(orders.subrange(0, k) =~= orders);
    }
}

// ---- market evidence ----------------------------------------------------------------------

pub open spec fn instant_seconds(t: Seq<char>) -> Option<int> {
    match rfc3339_instant(t) {
        Some((s, _)) => Some(s),
        None => None,
    }
}

/// Whether the market quote is real-time, healthy and no older than
/// `max_age` seconds by a trusted clock.
pub open spec fn freshness(m: Option<&MarketDetail>, t: TimeStatus, max_age: u64) -> (RiskCheckOutcome, RiskDecisionReasonCode) {
    if t.confidence != TimeConfidence::Trusted {
        (RiskCheckOutcome::Unavailable, RiskDecisionReasonCode::ClockUncertain)
    } else {
        match m {
            None => (RiskCheckOutcome::Unavailable, RiskDecisionReasonCode::EvidenceMissing),
            Some(md) => if md.status != MarketDataStatus::Available {
                (RiskCheckOutcome::Unavailable, RiskDecisionReasonCode::EvidenceUntrusted)
            } else {
                match md.snapshot {
                    None => (RiskCheckOutcome::Unavailable, RiskDecisionReasonCode::EvidenceMissing),
                    Some(snap) => if snap.provenance.entitlement != MarketEntitlement::Realtime
                        || snap.provenance.freshness != MarketFreshness::Healthy
                        || snap.last_price is None {
                        (RiskCheckOutcome::Unavailable, RiskDecisionReasonCode::EvidenceUntrusted)
                    } else {
                        match (
                            instant_seconds(t.wall_clock@),
                            instant_seconds(snap.provenance.received_timestamp@),
                            instant_seconds(snap.provenance.provider_timestamp@),
                        ) {
                            (Some(now), Some(received), Some(provider)) => if now - received < 0
                                || now - provider < 0 {
                                (RiskCheckOutcome::Unavailable, RiskDecisionReasonCode::EvidenceUntrusted)
                            } else if now - received > max_age || now - provider > max_age {
                                (RiskCheckOutcome::Unavailable, RiskDecisionReasonCode::EvidenceStale)
                            } else {
                                (RiskCheckOutcome::Pass, RiskDecisionReasonCode::WithinLimit)
                            },
                            _ => (RiskCheckOutcome::Unavailable, RiskDecisionReasonCode::EvidenceMissing),
                        }
                    },
                }
            },
        }
    }
}

fn freshness_exec(m: Option<&MarketDetail>, t: &TimeStatus, max_age: u64) -> (r: (RiskCheckOutcome, RiskDecisionReasonCode))
    ensures
        r == freshness(m, *t, max_age),
{
    if t.confidence != TimeConfidence::Trusted {
        return (RiskCheckOutcome::Unavailable, RiskDecisionReasonCode::ClockUncertain);
    }
    let md = match m {
        None => {
            return (RiskCheckOutcome::Unavailable, RiskDecisionReasonCode::EvidenceMissing);
        },
        Some(md) => md,
    };
    if md.status != MarketDataStatus::Available {
        return (RiskCheckOutcome::Unavailable, RiskDecisionReasonCode::EvidenceUntrusted);
    }
    let snap = match &md.snapshot {
        None => {
            return (RiskCheckOutcome::Unavailable, RiskDecisionReasonCode::EvidenceMissing);
        },
        Some(s) => s,
    };
    if snap.provenance.entitlement != MarketEntitlement::Realtime || snap.provenance.freshness
        != MarketFreshness::Healthy || snap.last_price.is_none() {
        return (RiskCheckOutcome::Unavailable, RiskDecisionReasonCode::EvidenceUntrusted);
    }
    let now = parse_rfc3339(t.wall_clock.as_str());
    let received = parse_rfc3339(snap.provenance.received_timestamp.as_str());
    let provider = parse_rfc3339(snap.provenance.provider_timestamp.as_str());
    match (now, received, provider) {
        (Some((n, _)), Some((rc, _)), Some((pv, _))) => {
            let age_received = n - rc;
            let age_provider = n - pv;
            if age_received < 0 || age_provider < 0 {
                (RiskCheckOutcome::Unavailable, RiskDecisionReasonCode::EvidenceUntrusted)
            } else if age_received as u64 > max_age || age_provider as u64 > max_age {
                (RiskCheckOutcome::Unavailable, RiskDecisionReasonCode::EvidenceStale)
            } else {
                (RiskCheckOutcome::Pass, RiskDecisionReasonCode::WithinLimit)
            }
        },
        _ => (RiskCheckOutcome::Unavailable, RiskDecisionReasonCode::EvidenceMissing),
    }
}

pub open spec fn quote_reason(c: RiskDecisionReasonCode) -> Seq<char> {
    match c {
        RiskDecisionReasonCode::WithinLimit => "A real-time quote is fresh and the clock is trusted."@,
        RiskDecisionReasonCode::NotApplicable => "The local simulator validates its quote at submission."@,
        RiskDecisionReasonCode::EvidenceStale => "The market observation is older than the configured threshold."@,
        RiskDecisionReasonCode::EvidenceUntrusted => "Market entitlement or time confidence is not trusted."@,
        RiskDecisionReasonCode::ClockUncertain => "The application clock is not trusted for a freshness check."@,
        _ => "A required current market quote is unavailable."@,
    }
}

fn quote_reason_exec(c: RiskDecisionReasonCode) -> (r: &'static str)
    ensures
        r@ == quote_reason(c),
{
    match c {
        RiskDecisionReasonCode::WithinLimit => "A real-time quote is fresh and the clock is trusted.",
        RiskDecisionReasonCode::NotApplicable => "The local simulator validates its quote at submission.",
        RiskDecisionReasonCode::EvidenceStale => "The market observation is older than the configured threshold.",
        RiskDecisionReasonCode::EvidenceUntrusted => "Market entitlement or time confidence is not trusted.",
        RiskDecisionReasonCode::ClockUncertain => "The application clock is not trusted for a freshness check.",
        _ => "A required current market quote is unavailable.",
    }
}

pub open spec fn stale_threshold(pol: Option<RiskPolicy>) -> u64 {
    match pol {
        Some(p) => p.stale_quote_threshold_seconds,
        None => DEFAULT_STALE_QUOTE_THRESHOLD_SECONDS,
    }
}

pub open spec fn quote_check(local: bool, pol: Option<RiskPolicy>, m: Option<&MarketDetail>, t: TimeStatus) -> Expected {
    let (o, c) = if local {
        (RiskCheckOutcome::Pass, RiskDecisionReasonCode::NotApplicable)
    } else {
        freshness(m, t, stale_threshold(pol))
    };
    (RiskCheckId::QuoteFreshness, o, c, quote_reason(c))
}

/// The session an authoritative market calendar reports.
pub open spec fn session_code(local: bool, m: Option<&MarketDetail>) -> (RiskCheckOutcome, RiskDecisionReasonCode) {
    if local {
        (RiskCheckOutcome::Pass, RiskDecisionReasonCode::NotApplicable)
    } else {
        match m {
            Some(md) => if md.market_state.source_status == MarketDataStatus::Available
                && md.market_state.source_id is Some && md.market_state.calendar_version is Some
                && md.market_state.time_confidence == TimeConfidence::Trusted {
                match md.market_state.session {
                    MarketSession::Open => (RiskCheckOutcome::Pass, RiskDecisionReasonCode::WithinLimit),
                    MarketSession::Closed => (RiskCheckOutcome::Reject, RiskDecisionReasonCode::MarketClosed),
                    MarketSession::Halted => (RiskCheckOutcome::Reject, RiskDecisionReasonCode::MarketHalted),
                    MarketSession::Suspended => (RiskCheckOutcome::Reject, RiskDecisionReasonCode::MarketHalted),
                    _ => (RiskCheckOutcome::Unavailable, RiskDecisionReasonCode::CalendarUnavailable),
                }
            } else {
                (RiskCheckOutcome::Unavailable, RiskDecisionReasonCode::CalendarUnavailable)
            },
            None => (RiskCheckOutcome::Unavailable, RiskDecisionReasonCode::CalendarUnavailable),
        }
    }
}

pub open spec fn session_check(local: bool, m: Option<&MarketDetail>) -> Expected {
    let (o, c) = session_code(local, m);
    (RiskCheckId::MarketSession, o, c, match c {
        RiskDecisionReasonCode::MarketClosed => "The authoritative market calendar reports a closed session."@,
        RiskDecisionReasonCode::MarketHalted => "The authoritative market state reports a halt or suspension."@,
        RiskDecisionReasonCode::WithinLimit => "The market session is open."@,
        _ => "A current authoritative market calendar is unavailable."@,
    })
}

fn session_code_exec(local: bool, m: Option<&MarketDetail>) -> (r: (RiskCheckOutcome, RiskDecisionReasonCode))
    ensures
        r == session_code(local, m),
{
    if local {
        return (RiskCheckOutcome::Pass, RiskDecisionReasonCode::NotApplicable);
    }
    match m {
        Some(md) => {
            let st = &md.market_state;
            if st.source_status == MarketDataStatus::Available && st.source_id.is_some()
                && st.calendar_version.is_some() && st.time_confidence == TimeConfidence::Trusted {
                match st.session {
                    MarketSession::Open => (RiskCheckOutcome::Pass, RiskDecisionReasonCode::WithinLimit),
                    MarketSession::Closed => (RiskCheckOutcome::Reject, RiskDecisionReasonCode::MarketClosed),
                    MarketSession::Halted => (RiskCheckOutcome::Reject, RiskDecisionReasonCode::MarketHalted),
                    MarketSession::Suspended => (RiskCheckOutcome::Reject, RiskDecisionReasonCode::MarketHalted),
                    _ => (RiskCheckOutcome::Unavailable, RiskDecisionReasonCode::CalendarUnavailable),
                }
            } else {
                (RiskCheckOutcome::Unavailable, RiskDecisionReasonCode::CalendarUnavailable)
            }
        },
        None => (RiskCheckOutcome::Unavailable, RiskDecisionReasonCode::CalendarUnavailable),
    }
}

fn session_reason_exec(c: RiskDecisionReasonCode) -> (r: &'static str)
    ensures
        r@ == match c {
            RiskDecisionReasonCode::MarketClosed => "The authoritative market calendar reports a closed session."@,
            RiskDecisionReasonCode::MarketHalted => "The authoritative market state reports a halt or suspension."@,
            RiskDecisionReasonCode::WithinLimit => "The market session is open."@,
            _ => "A current authoritative market calendar is unavailable."@,
        },
{
    match c {
        RiskDecisionReasonCode::MarketClosed => "The authoritative market calendar reports a closed session.",
        RiskDecisionReasonCode::MarketHalted => "The authoritative market state reports a halt or suspension.",
        RiskDecisionReasonCode::WithinLimit => "The market session is open.",
        _ => "A current authoritative market calendar is unavailable.",
    }
}

/// The parts of the price deviation: the absolute difference between the
/// limit price and a positive last price, and the last price.
pub open spec fn deviation_parts(limit_price: Seq<char>, last: Seq<char>) -> Option<((int, nat), (int, nat))> {
    match (text_amount(limit_price), text_amount(last)) {
        (Some(l), Some(p)) => if p.0 > 0 {
            Some((abs_value(add_values(l, neg_value(p))), p))
        } else {
            None
        },
        _ => None,
    }
}

pub open spec fn deviation_check(p: OrderProposal, pol: Option<RiskPolicy>, m: Option<&MarketDetail>) -> Expected {
    let limit = match pol {
        Some(x) => match x.max_price_deviation_percent {
            Some(v) => Some(v@),
            None => None,
        },
        None => None,
    };
    if limit is None {
        (RiskCheckId::PriceDeviation, RiskCheckOutcome::Pass, RiskDecisionReasonCode::LimitNotConfigured,
            "Maximum price deviation is not configured."@)
    } else if p.fields.order_type == OrderType::Market {
        (RiskCheckId::PriceDeviation, RiskCheckOutcome::Unavailable,
            RiskDecisionReasonCode::ExecutionQuoteUnavailable,
            "A market order has no proposal limit price for price-deviation evaluation."@)
    } else {
        let parts = match (p.fields.limit_price, m) {
            (Some(lp), Some(md)) => match md.snapshot {
                Some(snap) => match snap.last_price {
                    Some(last) => deviation_parts(lp@, last@),
                    None => None,
                },
                None => None,
            },
            _ => None,
        };
        ratio_limit(RiskCheckId::PriceDeviation, "Price deviation percent"@, parts, limit)
    }
}

fn deviation_parts_exec(limit_price: &str, last: &str) -> (r: Option<(Amount, Amount)>)
    ensures
        opt_parts(r) == deviation_parts(limit_price@, last@),
        r matches Some((n, d)) ==> ratio_parts_ok(n, d),
{
    match (parse_amount(limit_price), parse_amount(last)) {
        (Some(l), Some(p)) => {
            let positive = !p.negative && !is_zero_amount(&p);
            proof {
                crate::decimal::lemma_digits_value_bounds(p.digits@);
            }
            if !positive {
                return None;
            }
            let diff = abs_amount(&add_amounts(&l, &negate_amount(&p)));
            Some((diff, p))
        },
        _ => None,
    }
}

// ---- the decision ---------------------------------------------------------------------------

pub open spec fn checks_match(v: Seq<RiskCheckResult>, e: Seq<Expected>) -> bool {
    v.len() == e.len() && forall|i: int| 0 <= i < v.len() ==> check_is(#[trigger] v[i], e[i])
}

proof fn lemma_match_push(v: Seq<RiskCheckResult>, e: Seq<Expected>, c: RiskCheckResult, x: Expected)
    requires
        checks_match(v, e),
        check_is(c, x),
    ensures
        checks_match(v.push(c), e.push(x)),
{
    assert forall|i: int| 0 <= i < v.push(c).len() implies check_is(#[trigger] v.push(c)[i], e.push(x)[i]) by {
        if i < v.len() {
            assert(v.push(c)[i] == v[i]);
            assert(e.push(x)[i] == e[i]);
        }
    }
}

pub open spec fn list_of(pol: Option<RiskPolicy>, which: int) -> Option<Seq<String>> {
    match pol {
        Some(x) => Some(if which == 0 {
            x.allowed_venues@
        } else if which == 1 {
            x.allowed_instrument_ids@
        } else if which == 2 {
            x.blocked_venues@
        } else {
            x.blocked_instrument_ids@
        }),
        None => None,
    }
}

pub open spec fn policy_text(pol: Option<RiskPolicy>, which: int) -> Option<Seq<char>> {
    match pol {
        Some(x) => {
            let o = if which == 0 {
                x.max_order_notional
            } else if which == 1 {
                x.max_order_quantity
            } else if which == 2 {
                x.max_position_size
            } else {
                x.max_single_instrument_exposure_percent
            };
            match o {
                Some(v) => Some(v@),
                None => None,
            }
        },
        None => None,
    }
}

pub open spec fn daily_loss_check(pol: Option<RiskPolicy>) -> Expected {
    if pol matches Some(x) && x.max_daily_realized_loss is Some {
        (RiskCheckId::DailyRealizedLoss, RiskCheckOutcome::Unavailable,
            RiskDecisionReasonCode::CounterUnavailable,
            "Complete daily realized-loss counters are unavailable."@)
    } else {
        (RiskCheckId::DailyRealizedLoss, RiskCheckOutcome::Pass,
            RiskDecisionReasonCode::LimitNotConfigured, "Daily realized-loss limit is not configured."@)
    }
}

pub open spec fn reserved_check(pol: Option<RiskPolicy>) -> Expected {
    if pol matches Some(x) && x.max_reserved_capital is Some {
        (RiskCheckId::ReservedCapital, RiskCheckOutcome::Unavailable,
            RiskDecisionReasonCode::ReservationUnavailable,
            "No complete workspace reservation ledger is available."@)
    } else {
        (RiskCheckId::ReservedCapital, RiskCheckOutcome::Pass,
            RiskDecisionReasonCode::LimitNotConfigured, "Reserved-capital limit is not configured."@)
    }
}

pub open spec fn market_orders_on(pol: Option<RiskPolicy>) -> bool {
    pol matches Some(x) && x.market_orders_enabled
}

pub open spec fn market_order_check(p: OrderProposal, pol: Option<RiskPolicy>) -> Expected {
    if p.fields.order_type != OrderType::Market {
        (RiskCheckId::MarketOrder, RiskCheckOutcome::Pass, RiskDecisionReasonCode::NotApplicable,
            "The proposal is a limit order; market-order policy is not applicable."@)
    } else if market_orders_on(pol) {
        (RiskCheckId::MarketOrder, RiskCheckOutcome::Pass, RiskDecisionReasonCode::WithinLimit,
            "Market orders are enabled by policy."@)
    } else {
        (RiskCheckId::MarketOrder, RiskCheckOutcome::Reject, RiskDecisionReasonCode::MarketOrderDisabled,
            "Market orders are disabled by policy."@)
    }
}

pub open spec fn slippage_check(p: OrderProposal, pol: Option<RiskPolicy>) -> Expected {
    let local = p.fields.environment == ExecutionContext::LocalPaper;
    let market = p.fields.order_type == OrderType::Market;
    let configured = pol matches Some(x) && x.max_market_order_slippage_percent is Some;
    let (o, c) = if local || !market || !configured {
        (RiskCheckOutcome::Pass, RiskDecisionReasonCode::NotApplicable)
    } else if !market_orders_on(pol) {
        (RiskCheckOutcome::Reject, RiskDecisionReasonCode::MarketOrderDisabled)
    } else {
        (RiskCheckOutcome::Unavailable, RiskDecisionReasonCode::ExecutionQuoteUnavailable)
    };
    (RiskCheckId::MarketOrderSlippage, o, c, if c == RiskDecisionReasonCode::ExecutionQuoteUnavailable {
        "A size-aware executable quote is unavailable for slippage evaluation."@
    } else if c == RiskDecisionReasonCode::MarketOrderDisabled {
        "Market orders are disabled by policy."@
    } else if local && market {
        "The local simulator validates its quote and slippage at submission."@
    } else {
        "Market-order slippage is not applicable to this proposal."@
    })
}

pub open spec fn rules_check(local: bool) -> Expected {
    if local {
        (RiskCheckId::InstrumentRules, RiskCheckOutcome::Pass, RiskDecisionReasonCode::NotApplicable,
            "The local simulator validates its built-in order rules at submission."@)
    } else {
        (RiskCheckId::InstrumentRules, RiskCheckOutcome::Unavailable,
            RiskDecisionReasonCode::InstrumentRulesUnavailable,
            "No authoritative provider instrument-rule snapshot is available."@)
    }
}

pub open spec fn inactivity_check() -> Expected {
    (RiskCheckId::LiveInactivity, RiskCheckOutcome::Pass, RiskDecisionReasonCode::NotApplicable,
        "Live inactivity timeout applies to a later Arm session, not this policy evaluation."@)
}

/// Every check of a proposal, in order.
pub open spec fn expected_checks(
    p: OrderProposal,
    s: Option<&RiskPolicyState>,
    a: Option<&AccountConnection>,
    f: Option<&PortfolioSnapshot>,
    m: Option<&MarketDetail>,
    t: TimeStatus,
) -> Seq<Expected> {
    let pol = policy_of(s);
    let local = p.fields.environment == ExecutionContext::LocalPaper;
    seq![
        proposal_identity(p, t),
        policy_configured(s),
        account_binding(p, a),
        account_health(a),
        allowed_account(pol, p.fields.account_id),
        blocked_account(pol, p.fields.account_id),
        allowed_environment(pol, p.fields.environment),
        allow_list(RiskCheckId::AllowedVenue, list_of(pol, 0), p.fields.venue@,
            "The venue is outside the configured allow-list."@,
            "The venue is allowed by policy or no venue allow-list is configured."@),
        allow_list(RiskCheckId::AllowedInstrument, list_of(pol, 1), p.fields.instrument_id@,
            "The instrument is outside the configured allow-list."@,
            "The instrument is allowed by policy or no instrument allow-list is configured."@),
        block_list(RiskCheckId::BlockedVenue, list_of(pol, 2), p.fields.venue@,
            "The venue is in the configured block-list."@,
            "The venue is not in the configured block-list."@),
        block_list(RiskCheckId::BlockedInstrument, list_of(pol, 3), p.fields.instrument_id@,
            "The instrument is in the configured block-list."@,
            "The instrument is not in the configured block-list."@),
        text_limit(RiskCheckId::OrderNotional, "Order notional"@, notional_text(p, f), policy_text(pol, 0)),
        text_limit(RiskCheckId::OrderQuantity, "Order quantity"@, Some(p.fields.quantity.value@), policy_text(pol, 1)),
        amount_limit(RiskCheckId::PositionSize, "Position size"@, position_size(p, f), policy_text(pol, 2)),
        ratio_limit(RiskCheckId::SingleInstrumentExposure, "Single-instrument exposure percent"@,
            instrument_exposure(p, f), policy_text(pol, 3)),
        asset_class_check(p, pol, f, m),
        daily_traded_check(pol, f, t),
        daily_loss_check(pol),
        open_order_check(pol, f),
        reserved_check(pol),
        market_order_check(p, pol),
        slippage_check(p, pol),
        quote_check(local, pol, m, t),
        session_check(local, m),
        deviation_check(p, pol, m),
        rules_check(local),
        inactivity_check(),
    ]
}

/// The check identifiers of a decision, in order: each of the 27 checks
/// once.
pub open spec fn check_ids() -> Seq<RiskCheckId> {
    seq![
        RiskCheckId::ProposalIdentity,
        RiskCheckId::PolicyConfigured,
        RiskCheckId::AccountBinding,
        RiskCheckId::AccountHealth,
        RiskCheckId::AllowedAccount,
        RiskCheckId::BlockedAccount,
        RiskCheckId::AllowedEnvironment,
        RiskCheckId::AllowedVenue,
        RiskCheckId::AllowedInstrument,
        RiskCheckId::BlockedVenue,
        RiskCheckId::BlockedInstrument,
        RiskCheckId::OrderNotional,
        RiskCheckId::OrderQuantity,
        RiskCheckId::PositionSize,
        RiskCheckId::SingleInstrumentExposure,
        RiskCheckId::AssetClassExposure,
        RiskCheckId::DailyTradedNotional,
        RiskCheckId::DailyRealizedLoss,
        RiskCheckId::OpenOrderCount,
        RiskCheckId::ReservedCapital,
        RiskCheckId::MarketOrder,
        RiskCheckId::MarketOrderSlippage,
        RiskCheckId::QuoteFreshness,
        RiskCheckId::MarketSession,
        RiskCheckId::PriceDeviation,
        RiskCheckId::InstrumentRules,
        RiskCheckId::LiveInactivity,
    ]
}

/// Where a check stands among `check_ids`.
pub open spec fn check_index(id: RiskCheckId) -> int {
    match id {
        RiskCheckId::ProposalIdentity => 0,
        RiskCheckId::PolicyConfigured => 1,
        RiskCheckId::AccountBinding => 2,
        RiskCheckId::AccountHealth => 3,
        RiskCheckId::AllowedAccount => 4,
        RiskCheckId::BlockedAccount => 5,
        RiskCheckId::AllowedEnvironment => 6,
        RiskCheckId::AllowedVenue => 7,
        RiskCheckId::AllowedInstrument => 8,
        RiskCheckId::BlockedVenue => 9,
        RiskCheckId::BlockedInstrument => 10,
        RiskCheckId::OrderNotional => 11,
        RiskCheckId::OrderQuantity => 12,
        RiskCheckId::PositionSize => 13,
        RiskCheckId::SingleInstrumentExposure => 14,
        RiskCheckId::AssetClassExposure => 15,
        RiskCheckId::DailyTradedNotional => 16,
        RiskCheckId::DailyRealizedLoss => 17,
        RiskCheckId::OpenOrderCount => 18,
        RiskCheckId::ReservedCapital => 19,
        RiskCheckId::MarketOrder => 20,
        RiskCheckId::MarketOrderSlippage => 21,
        RiskCheckId::QuoteFreshness => 22,
        RiskCheckId::MarketSession => 23,
        RiskCheckId::PriceDeviation => 24,
        RiskCheckId::InstrumentRules => 25,
        RiskCheckId::LiveInactivity => 26,
    }
}

/// Every decision reports each check exactly once: its checks carry the
/// identifiers of `check_ids`, in that order, and every identifier occurs
/// there once.
pub proof fn lemma_each_check_once(
    d: RiskDecision,
    p: OrderProposal,
    s: Option<&RiskPolicyState>,
    a: Option<&AccountConnection>,
    f: Option<&PortfolioSnapshot>,
    m: Option<&MarketDetail>,
    t: TimeStatus,
)
    requires
        checks_match(d.checks@, expected_checks(p, s, a, f, m, t)),
    ensures
        d.checks@.len() == 27,
        forall|i: int| 0 <= i < 27 ==> (#[trigger] d.checks@[i]).check_id == check_ids()[i],
        forall|id: RiskCheckId| 0 <= #[trigger] check_index(id) < 27 && check_ids()[check_index(id)] == id,
        forall|i: int, j: int| 0 <= i < j < 27 ==> #[trigger] check_ids()[i] != #[trigger] check_ids()[j],
{
    let e = expected_checks(p, s, a, f, m, t);
    let ids = check_ids();
    assert(e.len() == 27);
    assert forall|i: int| 0 <= i < 27 implies (#[trigger] d.checks@[i]).check_id == ids[i] by {
        assert(check_is(d.checks@[i], e[i]));
    }
    assert forall|id: RiskCheckId| ids[#[trigger] check_index(id)] == id by {}
}

/// A reason of at most 128 characters, none of them missing: at most 512
/// bytes of UTF-8.
pub open spec fn reason_bounded(r: Seq<char>) -> bool {
    0 < utf8_len(r) <= 512
}

/// Every check of a decision gives a reason: never empty, at most 512
/// bytes.
pub proof fn lemma_reasons_bounded(
    d: RiskDecision,
    p: OrderProposal,
    s: Option<&RiskPolicyState>,
    a: Option<&AccountConnection>,
    f: Option<&PortfolioSnapshot>,
    m: Option<&MarketDetail>,
    t: TimeStatus,
)
    requires
        checks_match(d.checks@, expected_checks(p, s, a, f, m, t)),
    ensures
        forall|i: int| 0 <= i < d.checks@.len() ==> reason_bounded(#[trigger] d.checks@[i].reason@),
{
    let e = expected_checks(p, s, a, f, m, t);
    let pol = policy_of(s);
    let local = p.fields.environment == ExecutionContext::LocalPaper;
    assert(0 < e[0].3.len() <= 128) by {
        reveal_strlit("The immutable proposal is current in this workspace.");
        reveal_strlit("The proposal is no longer eligible for risk evaluation.");
    }
    assert(0 < e[1].3.len() <= 128) by {
        reveal_strlit("A persisted risk policy is configured.");
        reveal_strlit("A persisted risk policy is not configured.");
    }
    assert(0 < e[2].3.len() <= 128) by {
        reveal_strlit("A supported account identity is not available.");
        reveal_strlit("DEMO");
        reveal_strlit("LIVE");
        reveal_strlit("LOCAL");
        reveal_strlit("PAPER");
        reveal_strlit("TESTNET");
        reveal_strlit("The proposal is bound to the exact account and environment.");
        reveal_strlit("The saved account does not match the proposal context.");
        reveal_strlit("alpaca");
        reveal_strlit("binance");
        reveal_strlit("bitget");
        reveal_strlit("local-paper");
        reveal_strlit("trading212");
    }
    assert(0 < e[3].3.len() <= 128) by {
        reveal_strlit("AVAILABLE");
        reveal_strlit("CONFIGURED");
        reveal_strlit("CONNECTED");
        reveal_strlit("NOT_REQUIRED");
        reveal_strlit("ONLINE");
        reveal_strlit("The saved account connection and authentication are healthy.");
        reveal_strlit("The saved account is disconnected or its health is unverified.");
        reveal_strlit("VALID");
    }
    assert(0 < e[4].3.len() <= 128) by {
        reveal_strlit("The account allow-list does not block this proposal.");
        reveal_strlit("The account is outside the configured allow-list.");
        reveal_strlit("The configured account allow-list cannot be checked without an account ID.");
    }
    assert(0 < e[5].3.len() <= 128) by {
        reveal_strlit("The account is in the configured block-list.");
        reveal_strlit("The account is not in the configured block-list.");
    }
    assert(0 < e[6].3.len() <= 128) by {
        reveal_strlit("The execution environment is allowed by policy.");
        reveal_strlit("The execution environment is outside the configured allow-list.");
        reveal_strlit("This proposal has no supported policy environment mapping.");
    }
    assert(0 < e[7].3.len() <= 128) by {
        reveal_strlit("The venue is allowed by policy or no venue allow-list is configured.");
        reveal_strlit("The venue is outside the configured allow-list.");
    }
    assert(0 < e[8].3.len() <= 128) by {
        reveal_strlit("The instrument is allowed by policy or no instrument allow-list is configured.");
        reveal_strlit("The instrument is outside the configured allow-list.");
    }
    assert(0 < e[9].3.len() <= 128) by {
        reveal_strlit("The venue is in the configured block-list.");
        reveal_strlit("The venue is not in the configured block-list.");
    }
    assert(0 < e[10].3.len() <= 128) by {
        reveal_strlit("The instrument is in the configured block-list.");
        reveal_strlit("The instrument is not in the configured block-list.");
    }
    assert(0 < e[11].3.len() <= 128) by {
        reveal_strlit(" could not be compared exactly.");
        reveal_strlit(" evidence is unavailable.");
        reveal_strlit(" exceeds the configured limit.");
        reveal_strlit(" is within the configured limit.");
        reveal_strlit(" limit is not configured.");
        reveal_strlit("Order notional");
        reveal_strlit("Trusted ");
    }
    assert(0 < e[12].3.len() <= 128) by {
        reveal_strlit(" could not be compared exactly.");
        reveal_strlit(" evidence is unavailable.");
        reveal_strlit(" exceeds the configured limit.");
        reveal_strlit(" is within the configured limit.");
        reveal_strlit(" limit is not configured.");
        reveal_strlit("Order quantity");
        reveal_strlit("Trusted ");
    }
    assert(0 < e[13].3.len() <= 128) by {
        reveal_strlit(" could not be compared exactly.");
        reveal_strlit(" evidence is unavailable.");
        reveal_strlit(" exceeds the configured limit.");
        reveal_strlit(" is within the configured limit.");
        reveal_strlit(" limit is not configured.");
        reveal_strlit("Position size");
        reveal_strlit("Trusted ");
    }
    assert(0 < e[14].3.len() <= 128) by {
        reveal_strlit(" could not be compared exactly.");
        reveal_strlit(" evidence is unavailable.");
        reveal_strlit(" exceeds the configured limit.");
        reveal_strlit(" is within the configured limit.");
        reveal_strlit(" limit is not configured.");
        reveal_strlit("Single-instrument exposure percent");
        reveal_strlit("Trusted ");
    }
    assert(0 < e[15].3.len() <= 128) by {
        reveal_strlit("AVAILABLE");
        reveal_strlit("Asset-class exposure is within limits or no class limit is configured.");
        reveal_strlit("CONFIGURED");
        reveal_strlit("CONNECTED");
        reveal_strlit("NOT_REQUIRED");
        reveal_strlit("ONLINE");
        reveal_strlit("The proposed asset-class exposure exceeds its configured limit.");
        reveal_strlit("VALID");
        reveal_strlit("Workspace exposure or a trusted asset-class mapping is unavailable.");
        reveal_strlit("crypto:");
        reveal_strlit("equity:");
    }
    assert(0 < e[16].3.len() <= 128) by {
        reveal_strlit(" could not be compared exactly.");
        reveal_strlit(" evidence is unavailable.");
        reveal_strlit(" exceeds the configured limit.");
        reveal_strlit(" is within the configured limit.");
        reveal_strlit(" limit is not configured.");
        reveal_strlit("AVAILABLE");
        reveal_strlit("CONFIGURED");
        reveal_strlit("CONNECTED");
        reveal_strlit("Daily traded notional");
        reveal_strlit("NOT_REQUIRED");
        reveal_strlit("ONLINE");
        reveal_strlit("Trusted ");
        reveal_strlit("Trusted TimeService evidence is required to determine the current daily trading window.");
        reveal_strlit("VALID");
    }
    assert(0 < e[17].3.len() <= 128) by {
        reveal_strlit("Complete daily realized-loss counters are unavailable.");
        reveal_strlit("Daily realized-loss limit is not configured.");
    }
    assert(0 < e[18].3.len() <= 128) by {
        reveal_strlit("ACCEPTED");
        reveal_strlit("AVAILABLE");
        reveal_strlit("CANCELED");
        reveal_strlit("CANCELLED");
        reveal_strlit("CANCEL_PENDING");
        reveal_strlit("CONFIGURED");
        reveal_strlit("CONNECTED");
        reveal_strlit("Complete workspace open-order observations are unavailable.");
        reveal_strlit("EXPIRED");
        reveal_strlit("Existing workspace open orders plus this proposal exceed the configured limit.");
        reveal_strlit("FILLED");
        reveal_strlit("NEW");
        reveal_strlit("NOT_REQUIRED");
        reveal_strlit("ONLINE");
        reveal_strlit("OPEN");
        reveal_strlit("Open-order limit is not configured.");
        reveal_strlit("PARTIALLY_FILLED");
        reveal_strlit("PENDING");
        reveal_strlit("PENDING_CANCEL");
        reveal_strlit("PROPOSED");
        reveal_strlit("REJECTED");
        reveal_strlit("VALID");
        reveal_strlit("Workspace open-order count is within the configured limit.");
    }
    assert(0 < e[19].3.len() <= 128) by {
        reveal_strlit("No complete workspace reservation ledger is available.");
        reveal_strlit("Reserved-capital limit is not configured.");
    }
    assert(0 < e[20].3.len() <= 128) by {
        reveal_strlit("Market orders are disabled by policy.");
        reveal_strlit("Market orders are enabled by policy.");
        reveal_strlit("The proposal is a limit order; market-order policy is not applicable.");
    }
    assert(0 < e[21].3.len() <= 128) by {
        reveal_strlit("A size-aware executable quote is unavailable for slippage evaluation.");
        reveal_strlit("Market orders are disabled by policy.");
        reveal_strlit("Market-order slippage is not applicable to this proposal.");
        reveal_strlit("The local simulator validates its quote and slippage at submission.");
    }
    assert(0 < e[22].3.len() <= 128) by {
        reveal_strlit("A real-time quote is fresh and the clock is trusted.");
        reveal_strlit("A required current market quote is unavailable.");
        reveal_strlit("Market entitlement or time confidence is not trusted.");
        reveal_strlit("The application clock is not trusted for a freshness check.");
        reveal_strlit("The local simulator validates its quote at submission.");
        reveal_strlit("The market observation is older than the configured threshold.");
    }
    assert(0 < e[23].3.len() <= 128) by {
        reveal_strlit("A current authoritative market calendar is unavailable.");
        reveal_strlit("The authoritative market calendar reports a closed session.");
        reveal_strlit("The authoritative market state reports a halt or suspension.");
        reveal_strlit("The market session is open.");
    }
    assert(0 < e[24].3.len() <= 128) by {
        reveal_strlit(" could not be compared exactly.");
        reveal_strlit(" evidence is unavailable.");
        reveal_strlit(" exceeds the configured limit.");
        reveal_strlit(" is within the configured limit.");
        reveal_strlit(" limit is not configured.");
        reveal_strlit("A market order has no proposal limit price for price-deviation evaluation.");
        reveal_strlit("Maximum price deviation is not configured.");
        reveal_strlit("Price deviation percent");
        reveal_strlit("Trusted ");
    }
    assert(0 < e[25].3.len() <= 128) by {
        reveal_strlit("No authoritative provider instrument-rule snapshot is available.");
        reveal_strlit("The local simulator validates its built-in order rules at submission.");
    }
    assert(0 < e[26].3.len() <= 128) by {
        reveal_strlit("Live inactivity timeout applies to a later Arm session, not this policy evaluation.");
    }
    assert forall|i: int| 0 <= i < d.checks@.len() implies reason_bounded(#[trigger] d.checks@[i].reason@) by {
        assert(check_is(d.checks@[i], e[i]));
        assert(0 < e[i].3.len() <= 128);
        lemma_utf8_len_le_4(e[i].3);
    }
}

// ---- the checks, computed ---------------------------------------------------------------------

pub open spec fn deref_policy(pol: Option<&RiskPolicy>) -> Option<RiskPolicy> {
    match pol {
        Some(x) => Some(*x),
        None => None,
    }
}

fn proposal_identity_exec(p: &OrderProposal, t: &TimeStatus) -> (r: RiskCheckResult)
    ensures
        check_is(r, proposal_identity(*p, *t)),
{
    if p.status == OrderProposalStatus::NeedsApproval && str_eq(p.workspace_id.as_str(), t.workspace_id.as_str()) {
        check(RiskCheckId::ProposalIdentity, RiskCheckOutcome::Pass, RiskDecisionReasonCode::WithinLimit,
            "The immutable proposal is current in this workspace.")
    } else {
        check(RiskCheckId::ProposalIdentity, RiskCheckOutcome::Reject,
            RiskDecisionReasonCode::ProposalInvalidated,
            "The proposal is no longer eligible for risk evaluation.")
    }
}

fn policy_configured_exec(s: Option<&RiskPolicyState>) -> (r: RiskCheckResult)
    ensures
        check_is(r, policy_configured(s)),
{
    let configured = match s {
        Some(st) => st.configured,
        None => false,
    };
    if configured {
        check(RiskCheckId::PolicyConfigured, RiskCheckOutcome::Pass, RiskDecisionReasonCode::WithinLimit,
            "A persisted risk policy is configured.")
    } else {
        check(RiskCheckId::PolicyConfigured, RiskCheckOutcome::Unavailable,
            RiskDecisionReasonCode::PolicyUnconfigured, "A persisted risk policy is not configured.")
    }
}

fn account_binding_exec(p: &OrderProposal, a: Option<&AccountConnection>) -> (r: RiskCheckResult)
    ensures
        check_is(r, account_binding(*p, a)),
{
    let outcome = match (&p.fields.account_id, a, expected_account_exec(p.fields.environment)) {
        (Some(id), Some(acc), Some((provider, environment))) => if str_eq(id.as_str(), acc.connection_id.as_str())
            && str_eq(acc.workspace_id.as_str(), p.workspace_id.as_str()) && str_eq(
            acc.provider_id.as_str(),
            provider,
        ) && str_eq(acc.environment.as_str(), environment) {
            RiskCheckOutcome::Pass
        } else {
            RiskCheckOutcome::Reject
        },
        _ => RiskCheckOutcome::Unavailable,
    };
    match outcome {
        RiskCheckOutcome::Pass => check(RiskCheckId::AccountBinding, RiskCheckOutcome::Pass,
            RiskDecisionReasonCode::WithinLimit,
            "The proposal is bound to the exact account and environment."),
        RiskCheckOutcome::Reject => check(RiskCheckId::AccountBinding, RiskCheckOutcome::Reject,
            RiskDecisionReasonCode::AccountMismatch,
            "The saved account does not match the proposal context."),
        RiskCheckOutcome::Unavailable => check(RiskCheckId::AccountBinding,
            RiskCheckOutcome::Unavailable, RiskDecisionReasonCode::AccountUnavailable,
            "A supported account identity is not available."),
    }
}

fn account_health_exec(a: Option<&AccountConnection>) -> (r: RiskCheckResult)
    ensures
        check_is(r, account_health(a)),
{
    let healthy = match a {
        Some(acc) => health_ok_exec(acc.connection_state, &acc.health),
        None => false,
    };
    if healthy {
        check(RiskCheckId::AccountHealth, RiskCheckOutcome::Pass, RiskDecisionReasonCode::WithinLimit,
            "The saved account connection and authentication are healthy.")
    } else {
        check(RiskCheckId::AccountHealth, RiskCheckOutcome::Unavailable,
            RiskDecisionReasonCode::AccountUnhealthy,
            "The saved account is disconnected or its health is unverified.")
    }
}

fn allowed_account_exec(pol: Option<&RiskPolicy>, account_id: &Option<String>) -> (r: RiskCheckResult)
    ensures
        check_is(r, allowed_account(deref_policy(pol), *account_id)),
{
    let (outcome, code) = match (pol, account_id) {
        (Some(p), Some(id)) => if p.allowed_account_ids.len() == 0 || contains_text(
            &p.allowed_account_ids,
            id.as_str(),
        ) {
            (RiskCheckOutcome::Pass, RiskDecisionReasonCode::WithinLimit)
        } else {
            (RiskCheckOutcome::Reject, RiskDecisionReasonCode::IdentifierNotAllowed)
        },
        (Some(p), None) => if p.allowed_account_ids.len() > 0 {
            (RiskCheckOutcome::Unavailable, RiskDecisionReasonCode::AccountUnavailable)
        } else {
            (RiskCheckOutcome::Pass, RiskDecisionReasonCode::LimitNotConfigured)
        },
        _ => (RiskCheckOutcome::Pass, RiskDecisionReasonCode::LimitNotConfigured),
    };
    let reason = if outcome == RiskCheckOutcome::Reject {
        "The account is outside the configured allow-list."
    } else if outcome == RiskCheckOutcome::Unavailable {
        "The configured account allow-list cannot be checked without an account ID."
    } else {
        "The account allow-list does not block this proposal."
    };
    check(RiskCheckId::AllowedAccount, outcome, code, reason)
}

fn blocked_account_exec(pol: Option<&RiskPolicy>, account_id: &Option<String>) -> (r: RiskCheckResult)
    ensures
        check_is(r, blocked_account(deref_policy(pol), *account_id)),
{
    let blocked = match (pol, account_id) {
        (Some(p), Some(id)) => contains_text(&p.blocked_account_ids, id.as_str()),
        _ => false,
    };
    if blocked {
        check(RiskCheckId::BlockedAccount, RiskCheckOutcome::Reject,
            RiskDecisionReasonCode::IdentifierBlocked, "The account is in the configured block-list.")
    } else {
        check(RiskCheckId::BlockedAccount, RiskCheckOutcome::Pass, RiskDecisionReasonCode::WithinLimit,
            "The account is not in the configured block-list.")
    }
}

fn allowed_environment_exec(pol: Option<&RiskPolicy>, c: ExecutionContext) -> (r: RiskCheckResult)
    ensures
        check_is(r, allowed_environment(deref_policy(pol), c)),
{
    let (outcome, code) = match (pol, policy_environment_exec(c)) {
        (Some(p), Some(e)) => {
            let mut found = false;
            let mut i: usize = 0;
            while i < p.allowed_environments.len()
                invariant
                    i <= p.allowed_environments@.len(),
                    found <==> exists|k: int| 0 <= k < i && p.allowed_environments@[k] == e,
                decreases p.allowed_environments@.len() - i,
            {
                if p.allowed_environments[i] == e {
                    found = true;
                }
                i = i + 1;
            }
            proof {
                if found {
                    let k = choose|k: int| 0 <= k < i && p.allowed_environments@[k] == e;
                    assert(p.allowed_environments@.contains(e));
                }
            }
            if p.allowed_environments.len() == 0 || found {
                (RiskCheckOutcome::Pass, RiskDecisionReasonCode::WithinLimit)
            } else {
                (RiskCheckOutcome::Reject, RiskDecisionReasonCode::EnvironmentNotAllowed)
            }
        },
        _ => (RiskCheckOutcome::Unavailable, RiskDecisionReasonCode::UnsupportedContext),
    };
    let reason = if outcome == RiskCheckOutcome::Reject {
        "The execution environment is outside the configured allow-list."
    } else if outcome == RiskCheckOutcome::Unavailable {
        "This proposal has no supported policy environment mapping."
    } else {
        "The execution environment is allowed by policy."
    };
    check(RiskCheckId::AllowedEnvironment, outcome, code, reason)
}

fn notional_exec<'a>(p: &'a OrderProposal, f: Option<&PortfolioSnapshot>) -> (r: Option<&'a String>)
    ensures
        match r {
            Some(n) => notional_text(*p, f) == Some(n@),
            None => notional_text(*p, f) is None,
        },
{
    let complete = match f {
        Some(x) => portfolio_complete_exec(x),
        None => false,
    };
    if !complete {
        return None;
    }
    let x = f.unwrap();
    match &p.estimated_notional_currency {
        Some(c) => if str_eq(c.as_str(), x.base_currency.as_str()) {
            match &p.estimated_notional {
                Some(n) => Some(n),
                None => None,
            }
        } else {
            None
        },
        None => None,
    }
}

fn current_value_exec(p: &OrderProposal, f: Option<&PortfolioSnapshot>) -> (r: Option<Amount>)
    ensures
        opt_amount(r) == current_value(*p, f),
        r matches Some(a) ==> amount_wf(a),
{
    match f {
        Some(x) => if portfolio_complete_exec(x) {
            instrument_value(x, p.fields.instrument_id.as_str())
        } else {
            None
        },
        None => None,
    }
}

fn position_size_exec(p: &OrderProposal, f: Option<&PortfolioSnapshot>) -> (r: Option<Amount>)
    ensures
        opt_amount(r) == position_size(*p, f),
        r matches Some(a) ==> amount_wf(a),
{
    match (current_value_exec(p, f), notional_exec(p, f)) {
        (Some(c), Some(n)) => match signed_order_exec(n.as_str(), p.fields.side) {
            Some(o) => Some(abs_amount(&add_amounts(&c, &o))),
            None => None,
        },
        _ => None,
    }
}

fn equity_exec(f: Option<&PortfolioSnapshot>) -> (r: Option<Amount>)
    ensures
        opt_amount(r) == equity_amount(f),
        r matches Some(a) ==> amount_wf(a) && !a.negative && amount_value(a).0 > 0,
{
    match f {
        Some(x) => {
            if !portfolio_complete_exec(x) {
                return None;
            }
            match &x.totals.equity.workspace_value {
                Some(t) => match parse_amount(t.as_str()) {
                    Some(v) => {
                        let positive = !v.negative && !is_zero_amount(&v);
                        proof {
                            crate::decimal::lemma_digits_value_bounds(v.digits@);
                        }
                        if positive {
                            Some(v)
                        } else {
                            None
                        }
                    },
                    None => None,
                },
                None => None,
            }
        },
        None => None,
    }
}

fn instrument_exposure_exec(p: &OrderProposal, f: Option<&PortfolioSnapshot>) -> (r: Option<(Amount, Amount)>)
    ensures
        opt_parts(r) == instrument_exposure(*p, f),
        r matches Some((n, d)) ==> ratio_parts_ok(n, d),
{
    match notional_exec(p, f) {
        Some(n) => match (current_value_exec(p, f), signed_order_exec(n.as_str(), p.fields.side), equity_exec(f)) {
            (Some(c), Some(o), Some(e)) => Some((abs_amount(&add_amounts(&c, &o)), e)),
            _ => None,
        },
        None => None,
    }
}

fn asset_class_exec(p: &OrderProposal, pol: Option<&RiskPolicy>, f: Option<&PortfolioSnapshot>, m: Option<&MarketDetail>) -> (r: RiskCheckResult)
    ensures
        check_is(r, asset_class_check(*p, deref_policy(pol), f, m)),
{
    let empty: Vec<crate::risk::RiskAssetClassLimit> = Vec::new();
    let limits = match pol {
        Some(x) => &x.max_asset_class_exposure_percent,
        None => &empty,
    };
    if limits.len() == 0 {
        return check(RiskCheckId::AssetClassExposure, RiskCheckOutcome::Pass,
            RiskDecisionReasonCode::LimitNotConfigured,
            "Asset-class exposure is within limits or no class limit is configured.");
    }
    let complete = match f {
        Some(x) => portfolio_complete_exec(x),
        None => false,
    };
    let judged = match (complete, m, notional_exec(p, f), equity_exec(f)) {
        (true, Some(md), Some(order), Some(eq)) => classes_exceeded_exec(
            limits,
            f.unwrap(),
            md.instrument.asset_class,
            order.as_str(),
            p.fields.side,
            &eq,
        ),
        _ => None,
    };
    match judged {
        Some(true) => check(RiskCheckId::AssetClassExposure, RiskCheckOutcome::Reject,
            RiskDecisionReasonCode::LimitExceeded,
            "The proposed asset-class exposure exceeds its configured limit."),
        Some(false) => check(RiskCheckId::AssetClassExposure, RiskCheckOutcome::Pass,
            RiskDecisionReasonCode::WithinLimit,
            "Asset-class exposure is within limits or no class limit is configured."),
        None => check(RiskCheckId::AssetClassExposure, RiskCheckOutcome::Unavailable,
            RiskDecisionReasonCode::EvidenceMissing,
            "Workspace exposure or a trusted asset-class mapping is unavailable."),
    }
}

fn daily_traded_exec(pol: Option<&RiskPolicy>, f: Option<&PortfolioSnapshot>, t: &TimeStatus) -> (r: RiskCheckResult)
    ensures
        check_is(r, daily_traded_check(deref_policy(pol), f, *t)),
{
    let limit: Option<&str> = match pol {
        Some(x) => match &x.max_daily_traded_notional {
            Some(m) => Some(m.as_str()),
            None => None,
        },
        None => None,
    };
    if limit.is_some() && t.confidence != TimeConfidence::Trusted {
        return check(RiskCheckId::DailyTradedNotional, RiskCheckOutcome::Unavailable,
            RiskDecisionReasonCode::ClockUncertain,
            "Trusted TimeService evidence is required to determine the current daily trading window.");
    }
    let traded = match f {
        Some(x) => if portfolio_complete_exec(x) {
            match &x.fills {
                Some(fl) => match byte_prefix_exec(&chars(t.wall_clock.as_str()), 10) {
                    Some(date) => fills_total_exec(fl, &date),
                    None => None,
                },
                None => None,
            }
        } else {
            None
        },
        None => None,
    };
    amount_limit_exec(RiskCheckId::DailyTradedNotional, "Daily traded notional", traded, limit)
}

fn daily_loss_exec(pol: Option<&RiskPolicy>) -> (r: RiskCheckResult)
    ensures
        check_is(r, daily_loss_check(deref_policy(pol))),
{
    let configured = match pol {
        Some(x) => x.max_daily_realized_loss.is_some(),
        None => false,
    };
    if configured {
        check(RiskCheckId::DailyRealizedLoss, RiskCheckOutcome::Unavailable,
            RiskDecisionReasonCode::CounterUnavailable,
            "Complete daily realized-loss counters are unavailable.")
    } else {
        check(RiskCheckId::DailyRealizedLoss, RiskCheckOutcome::Pass,
            RiskDecisionReasonCode::LimitNotConfigured, "Daily realized-loss limit is not configured.")
    }
}

fn open_orders_exec(pol: Option<&RiskPolicy>, f: Option<&PortfolioSnapshot>) -> (r: RiskCheckResult)
    ensures
        check_is(r, open_order_check(deref_policy(pol), f)),
{
    let (outcome, code) = match pol {
        Some(p) => match p.max_open_orders {
            None => (RiskCheckOutcome::Pass, RiskDecisionReasonCode::LimitNotConfigured),
            Some(max) => {
                let complete = match f {
                    Some(x) => portfolio_complete_exec(x),
                    None => false,
                };
                if !complete {
                    (RiskCheckOutcome::Unavailable, RiskDecisionReasonCode::CounterUnavailable)
                } else {
                    let x = f.unwrap();
                    proof {
                        lemma_open_count_bound(x.open_orders@);
                    }
                    match open_count_exec(&x.open_orders) {
                        None => (RiskCheckOutcome::Unavailable, RiskDecisionReasonCode::CounterUnavailable),
                        Some(c) => if c >= max {
                            (RiskCheckOutcome::Reject, RiskDecisionReasonCode::LimitExceeded)
                        } else {
                            (RiskCheckOutcome::Pass, RiskDecisionReasonCode::WithinLimit)
                        },
                    }
                }
            },
        },
        None => (RiskCheckOutcome::Pass, RiskDecisionReasonCode::LimitNotConfigured),
    };
    let reason = if code == RiskDecisionReasonCode::LimitNotConfigured {
        "Open-order limit is not configured."
    } else if code == RiskDecisionReasonCode::LimitExceeded {
        "Existing workspace open orders plus this proposal exceed the configured limit."
    } else if outcome == RiskCheckOutcome::Unavailable {
        "Complete workspace open-order observations are unavailable."
    } else {
        "Workspace open-order count is within the configured limit."
    };
    check(RiskCheckId::OpenOrderCount, outcome, code, reason)
}

fn reserved_exec(pol: Option<&RiskPolicy>) -> (r: RiskCheckResult)
    ensures
        check_is(r, reserved_check(deref_policy(pol))),
{
    let configured = match pol {
        Some(x) => x.max_reserved_capital.is_some(),
        None => false,
    };
    if configured {
        check(RiskCheckId::ReservedCapital, RiskCheckOutcome::Unavailable,
            RiskDecisionReasonCode::ReservationUnavailable,
            "No complete workspace reservation ledger is available.")
    } else {
        check(RiskCheckId::ReservedCapital, RiskCheckOutcome::Pass,
            RiskDecisionReasonCode::LimitNotConfigured, "Reserved-capital limit is not configured.")
    }
}

fn market_order_exec(p: &OrderProposal, pol: Option<&RiskPolicy>) -> (r: RiskCheckResult)
    ensures
        check_is(r, market_order_check(*p, deref_policy(pol))),
{
    let enabled = match pol {
        Some(x) => x.market_orders_enabled,
        None => false,
    };
    if p.fields.order_type != OrderType::Market {
        check(RiskCheckId::MarketOrder, RiskCheckOutcome::Pass, RiskDecisionReasonCode::NotApplicable,
            "The proposal is a limit order; market-order policy is not applicable.")
    } else if enabled {
        check(RiskCheckId::MarketOrder, RiskCheckOutcome::Pass, RiskDecisionReasonCode::WithinLimit,
            "Market orders are enabled by policy.")
    } else {
        check(RiskCheckId::MarketOrder, RiskCheckOutcome::Reject, RiskDecisionReasonCode::MarketOrderDisabled,
            "Market orders are disabled by policy.")
    }
}

fn slippage_exec(p: &OrderProposal, pol: Option<&RiskPolicy>) -> (r: RiskCheckResult)
    ensures
        check_is(r, slippage_check(*p, deref_policy(pol))),
{
    let local = p.fields.environment == ExecutionContext::LocalPaper;
    let market = p.fields.order_type == OrderType::Market;
    let (configured, enabled) = match pol {
        Some(x) => (x.max_market_order_slippage_percent.is_some(), x.market_orders_enabled),
        None => (false, false),
    };
    let (outcome, code) = if local || !market || !configured {
        (RiskCheckOutcome::Pass, RiskDecisionReasonCode::NotApplicable)
    } else if !enabled {
        (RiskCheckOutcome::Reject, RiskDecisionReasonCode::MarketOrderDisabled)
    } else {
        (RiskCheckOutcome::Unavailable, RiskDecisionReasonCode::ExecutionQuoteUnavailable)
    };
    let reason = if code == RiskDecisionReasonCode::ExecutionQuoteUnavailable {
        "A size-aware executable quote is unavailable for slippage evaluation."
    } else if code == RiskDecisionReasonCode::MarketOrderDisabled {
        "Market orders are disabled by policy."
    } else if local && market {
        "The local simulator validates its quote and slippage at submission."
    } else {
        "Market-order slippage is not applicable to this proposal."
    };
    check(RiskCheckId::MarketOrderSlippage, outcome, code, reason)
}

fn quote_exec(local: bool, pol: Option<&RiskPolicy>, m: Option<&MarketDetail>, t: &TimeStatus) -> (r: RiskCheckResult)
    ensures
        check_is(r, quote_check(local, deref_policy(pol), m, *t)),
{
    let (outcome, code) = if local {
        (RiskCheckOutcome::Pass, RiskDecisionReasonCode::NotApplicable)
    } else {
        let threshold = match pol {
            Some(x) => x.stale_quote_threshold_seconds,
            None => DEFAULT_STALE_QUOTE_THRESHOLD_SECONDS,
        };
        freshness_exec(m, t, threshold)
    };
    check(RiskCheckId::QuoteFreshness, outcome, code, quote_reason_exec(code))
}

fn session_exec(local: bool, m: Option<&MarketDetail>) -> (r: RiskCheckResult)
    ensures
        check_is(r, session_check(local, m)),
{
    let (outcome, code) = session_code_exec(local, m);
    check(RiskCheckId::MarketSession, outcome, code, session_reason_exec(code))
}

fn deviation_exec(p: &OrderProposal, pol: Option<&RiskPolicy>, m: Option<&MarketDetail>) -> (r: RiskCheckResult)
    ensures
        check_is(r, deviation_check(*p, deref_policy(pol), m)),
{
    let limit: Option<&str> = match pol {
        Some(x) => match &x.max_price_deviation_percent {
            Some(v) => Some(v.as_str()),
            None => None,
        },
        None => None,
    };
    if limit.is_none() {
        return check(RiskCheckId::PriceDeviation, RiskCheckOutcome::Pass,
            RiskDecisionReasonCode::LimitNotConfigured, "Maximum price deviation is not configured.");
    }
    if p.fields.order_type == OrderType::Market {
        return check(RiskCheckId::PriceDeviation, RiskCheckOutcome::Unavailable,
            RiskDecisionReasonCode::ExecutionQuoteUnavailable,
            "A market order has no proposal limit price for price-deviation evaluation.");
    }
    let parts = match (&p.fields.limit_price, m) {
        (Some(lp), Some(md)) => match &md.snapshot {
            Some(snap) => match &snap.last_price {
                Some(last) => deviation_parts_exec(lp.as_str(), last.as_str()),
                None => None,
            },
            None => None,
        },
        _ => None,
    };
    ratio_limit_exec(RiskCheckId::PriceDeviation, "Price deviation percent", parts, limit)
}

fn rules_exec(local: bool) -> (r: RiskCheckResult)
    ensures
        check_is(r, rules_check(local)),
{
    if local {
        check(RiskCheckId::InstrumentRules, RiskCheckOutcome::Pass, RiskDecisionReasonCode::NotApplicable,
            "The local simulator validates its built-in order rules at submission.")
    } else {
        check(RiskCheckId::InstrumentRules, RiskCheckOutcome::Unavailable,
            RiskDecisionReasonCode::InstrumentRulesUnavailable,
            "No authoritative provider instrument-rule snapshot is available.")
    }
}

/// The risk decision of a proposal: the checks of `expected_checks` in
/// order, the status they imply, and the proposal's identity, with a fresh
/// random decision identifier.
pub fn evaluate(
    proposal: &OrderProposal,
    policy_state: Option<&RiskPolicyState>,
    account: Option<&AccountConnection>,
    portfolio: Option<&PortfolioSnapshot>,
    market: Option<&MarketDetail>,
    time_status: &TimeStatus,
    inputs: Vec<RiskDecisionInputReference>,
    evaluated_at: String,
) -> (d: RiskDecision)
    ensures
        checks_match(
            d.checks@,
            expected_checks(*proposal, policy_state, account, portfolio, market, *time_status),
        ),
        d.status == status_of(d.checks@),
        d.decision_id@.len() == 50,
        d.decision_id@.subrange(0, 14) == "risk-decision:"@,
        uuid_hyphenated(d.decision_id@.subrange(14, 50)),
        d.workspace_id@ == proposal.workspace_id@,
        d.proposal_id@ == proposal.proposal_id@,
        d.proposal_hash@ == proposal.proposal_hash@,
        d.account_id == proposal.fields.account_id,
        d.environment == proposal.fields.environment,
        d.policy_version == match policy_state {
            Some(st) => Some(st.policy_version),
            None => None,
        },
        d.policy_state_version == match policy_state {
            Some(st) => Some(st.state_version),
            None => None,
        },
        d.evaluated_at == evaluated_at,
        d.state_version@.len() == 0,
        d.inputs == inputs,
{
    let pol: Option<&RiskPolicy> = match policy_state {
        Some(st) => Some(&st.policy),
        None => None,
    };
    assert(deref_policy(pol) == policy_of(policy_state));
    let local = proposal.fields.environment == ExecutionContext::LocalPaper;
    let mut checks: Vec<RiskCheckResult> = Vec::new();
    let ghost mut exp: Seq<Expected> = Seq::empty();
    let c = proposal_identity_exec(proposal, time_status);
    proof {
        assert(expected_checks(*proposal, policy_state, account, portfolio, market, *time_status)[0] == proposal_identity(*proposal, *time_status));
        lemma_match_push(checks@, exp, c, expected_checks(*proposal, policy_state, account, portfolio, market, *time_status)[0]);
        exp = exp.push(expected_checks(*proposal, policy_state, account, portfolio, market, *time_status)[0]);
    }
    checks.push(c);
    let c = policy_configured_exec(policy_state);
    proof {
        assert(expected_checks(*proposal, policy_state, account, portfolio, market, *time_status)[1] == policy_configured(policy_state));
        lemma_match_push(checks@, exp, c, expected_checks(*proposal, policy_state, account, portfolio, market, *time_status)[1]);
        exp = exp.push(expected_checks(*proposal, policy_state, account, portfolio, market, *time_status)[1]);
    }
    checks.push(c);
    let c = account_binding_exec(proposal, account);
    proof {
        assert(expected_checks(*proposal, policy_state, account, portfolio, market, *time_status)[2] == account_binding(*proposal, account));
        lemma_match_push(checks@, exp, c, expected_checks(*proposal, policy_state, account, portfolio, market, *time_status)[2]);
        exp = exp.push(expected_checks(*proposal, policy_state, account, portfolio, market, *time_status)[2]);
    }
    checks.push(c);
    let c = account_health_exec(account);
    proof {
        assert(expected_checks(*proposal, policy_state, account, portfolio, market, *time_status)[3] == account_health(account));
        lemma_match_push(checks@, exp, c, expected_checks(*proposal, policy_state, account, portfolio, market, *time_status)[3]);
        exp = exp.push(expected_checks(*proposal, policy_state, account, portfolio, market, *time_status)[3]);
    }
    checks.push(c);
    let c = allowed_account_exec(pol, &proposal.fields.account_id);
    proof {
        assert(expected_checks(*proposal, policy_state, account, portfolio, market, *time_status)[4] == allowed_account(policy_of(policy_state), proposal.fields.account_id));
        lemma_match_push(checks@, exp, c, expected_checks(*proposal, policy_state, account, portfolio, market, *time_status)[4]);
        exp = exp.push(expected_checks(*proposal, policy_state, account, portfolio, market, *time_status)[4]);
    }
    checks.push(c);
    let c = blocked_account_exec(pol, &proposal.fields.account_id);
    proof {
        assert(expected_checks(*proposal, policy_state, account, portfolio, market, *time_status)[5] == blocked_account(policy_of(policy_state), proposal.fields.account_id));
        lemma_match_push(checks@, exp, c, expected_checks(*proposal, policy_state, account, portfolio, market, *time_status)[5]);
        exp = exp.push(expected_checks(*proposal, policy_state, account, portfolio, market, *time_status)[5]);
    }
    checks.push(c);
    let c = allowed_environment_exec(pol, proposal.fields.environment);
    proof {
        assert(expected_checks(*proposal, policy_state, account, portfolio, market, *time_status)[6] == allowed_environment(policy_of(policy_state), proposal.fields.environment));
        lemma_match_push(checks@, exp, c, expected_checks(*proposal, policy_state, account, portfolio, market, *time_status)[6]);
        exp = exp.push(expected_checks(*proposal, policy_state, account, portfolio, market, *time_status)[6]);
    }
    checks.push(c);
    let c = allow_list_exec(
            RiskCheckId::AllowedVenue,
            match pol {
                Some(x) => Some(&x.allowed_venues),
                None => None,
            },
            proposal.fields.venue.as_str(),
            "The venue is outside the configured allow-list.",
            "The venue is allowed by policy or no venue allow-list is configured.",
        );
    proof {
        lemma_match_push(checks@, exp, c, expected_checks(*proposal, policy_state, account, portfolio, market, *time_status)[7]);
        exp = exp.push(expected_checks(*proposal, policy_state, account, portfolio, market, *time_status)[7]);
    }
    checks.push(c);
    let c = allow_list_exec(
            RiskCheckId::AllowedInstrument,
            match pol {
                Some(x) => Some(&x.allowed_instrument_ids),
                None => None,
            },
            proposal.fields.instrument_id.as_str(),
            "The instrument is outside the configured allow-list.",
            "The instrument is allowed by policy or no instrument allow-list is configured.",
        );
    proof {
        lemma_match_push(checks@, exp, c, expected_checks(*proposal, policy_state, account, portfolio, market, *time_status)[8]);
        exp = exp.push(expected_checks(*proposal, policy_state, account, portfolio, market, *time_status)[8]);
    }
    checks.push(c);
    let c = block_list_exec(
            RiskCheckId::BlockedVenue,
            match pol {
                Some(x) => Some(&x.blocked_venues),
                None => None,
            },
            proposal.fields.venue.as_str(),
            "The venue is in the configured block-list.",
            "The venue is not in the configured block-list.",
        );
    proof {
        lemma_match_push(checks@, exp, c, expected_checks(*proposal, policy_state, account, portfolio, market, *time_status)[9]);
        exp = exp.push(expected_checks(*proposal, policy_state, account, portfolio, market, *time_status)[9]);
    }
    checks.push(c);
    let c = block_list_exec(
            RiskCheckId::BlockedInstrument,
            match pol {
                Some(x) => Some(&x.blocked_instrument_ids),
                None => None,
            },
            proposal.fields.instrument_id.as_str(),
            "The instrument is in the configured block-list.",
            "The instrument is not in the configured block-list.",
        );
    proof {
        lemma_match_push(checks@, exp, c, expected_checks(*proposal, policy_state, account, portfolio, market, *time_status)[10]);
        exp = exp.push(expected_checks(*proposal, policy_state, account, portfolio, market, *time_status)[10]);
    }
    checks.push(c);
    let c = text_limit_exec(
            RiskCheckId::OrderNotional,
            "Order notional",
            match notional_exec(proposal, portfolio) {
                Some(n) => Some(n.as_str()),
                None => None,
            },
            match pol {
                Some(x) => match &x.max_order_notional {
                    Some(v) => Some(v.as_str()),
                    None => None,
                },
                None => None,
            },
        );
    proof {
        lemma_match_push(checks@, exp, c, expected_checks(*proposal, policy_state, account, portfolio, market, *time_status)[11]);
        exp = exp.push(expected_checks(*proposal, policy_state, account, portfolio, market, *time_status)[11]);
    }
    checks.push(c);
    let c = text_limit_exec(
            RiskCheckId::OrderQuantity,
            "Order quantity",
            Some(proposal.fields.quantity.value.as_str()),
            match pol {
                Some(x) => match &x.max_order_quantity {
                    Some(v) => Some(v.as_str()),
                    None => None,
                },
                None => None,
            },
        );
    proof {
        lemma_match_push(checks@, exp, c, expected_checks(*proposal, policy_state, account, portfolio, market, *time_status)[12]);
        exp = exp.push(expected_checks(*proposal, policy_state, account, portfolio, market, *time_status)[12]);
    }
    checks.push(c);
    let c = amount_limit_exec(
            RiskCheckId::PositionSize,
            "Position size",
            position_size_exec(proposal, portfolio),
            match pol {
                Some(x) => match &x.max_position_size {
                    Some(v) => Some(v.as_str()),
                    None => None,
                },
                None => None,
            },
        );
    proof {
        lemma_match_push(checks@, exp, c, expected_checks(*proposal, policy_state, account, portfolio, market, *time_status)[13]);
        exp = exp.push(expected_checks(*proposal, policy_state, account, portfolio, market, *time_status)[13]);
    }
    checks.push(c);
    let c = ratio_limit_exec(
            RiskCheckId::SingleInstrumentExposure,
            "Single-instrument exposure percent",
            instrument_exposure_exec(proposal, portfolio),
            match pol {
                Some(x) => match &x.max_single_instrument_exposure_percent {
                    Some(v) => Some(v.as_str()),
                    None => None,
                },
                None => None,
            },
        );
    proof {
        lemma_match_push(checks@, exp, c, expected_checks(*proposal, policy_state, account, portfolio, market, *time_status)[14]);
        exp = exp.push(expected_checks(*proposal, policy_state, account, portfolio, market, *time_status)[14]);
    }
    checks.push(c);
    let c = asset_class_exec(proposal, pol, portfolio, market);
    proof {
        assert(expected_checks(*proposal, policy_state, account, portfolio, market, *time_status)[15] == asset_class_check(*proposal, policy_of(policy_state), portfolio, market));
        lemma_match_push(checks@, exp, c, expected_checks(*proposal, policy_state, account, portfolio, market, *time_status)[15]);
        exp = exp.push(expected_checks(*proposal, policy_state, account, portfolio, market, *time_status)[15]);
    }
    checks.push(c);
    let c = daily_traded_exec(pol, portfolio, time_status);
    proof {
        assert(expected_checks(*proposal, policy_state, account, portfolio, market, *time_status)[16] == daily_traded_check(policy_of(policy_state), portfolio, *time_status));
        lemma_match_push(checks@, exp, c, expected_checks(*proposal, policy_state, account, portfolio, market, *time_status)[16]);
        exp = exp.push(expected_checks(*proposal, policy_state, account, portfolio, market, *time_status)[16]);
    }
    checks.push(c);
    let c = daily_loss_exec(pol);
    proof {
        assert(expected_checks(*proposal, policy_state, account, portfolio, market, *time_status)[17] == daily_loss_check(policy_of(policy_state)));
        lemma_match_push(checks@, exp, c, expected_checks(*proposal, policy_state, account, portfolio, market, *time_status)[17]);
        exp = exp.push(expected_checks(*proposal, policy_state, account, portfolio, market, *time_status)[17]);
    }
    checks.push(c);
    let c = open_orders_exec(pol, portfolio);
    proof {
        assert(expected_checks(*proposal, policy_state, account, portfolio, market, *time_status)[18] == open_order_check(policy_of(policy_state), portfolio));
        lemma_match_push(checks@, exp, c, expected_checks(*proposal, policy_state, account, portfolio, market, *time_status)[18]);
        exp = exp.push(expected_checks(*proposal, policy_state, account, portfolio, market, *time_status)[18]);
    }
    checks.push(c);
    let c = reserved_exec(pol);
    proof {
        assert(expected_checks(*proposal, policy_state, account, portfolio, market, *time_status)[19] == reserved_check(policy_of(policy_state)));
        lemma_match_push(checks@, exp, c, expected_checks(*proposal, policy_state, account, portfolio, market, *time_status)[19]);
        exp = exp.push(expected_checks(*proposal, policy_state, account, portfolio, market, *time_status)[19]);
    }
    checks.push(c);
    let c = market_order_exec(proposal, pol);
    proof {
        assert(expected_checks(*proposal, policy_state, account, portfolio, market, *time_status)[20] == market_order_check(*proposal, policy_of(policy_state)));
        lemma_match_push(checks@, exp, c, expected_checks(*proposal, policy_state, account, portfolio, market, *time_status)[20]);
        exp = exp.push(expected_checks(*proposal, policy_state, account, portfolio, market, *time_status)[20]);
    }
    checks.push(c);
    let c = slippage_exec(proposal, pol);
    proof {
        assert(expected_checks(*proposal, policy_state, account, portfolio, market, *time_status)[21] == slippage_check(*proposal, policy_of(policy_state)));
        lemma_match_push(checks@, exp, c, expected_checks(*proposal, policy_state, account, portfolio, market, *time_status)[21]);
        exp = exp.push(expected_checks(*proposal, policy_state, account, portfolio, market, *time_status)[21]);
    }
    checks.push(c);
    let c = quote_exec(local, pol, market, time_status);
    proof {
        assert(expected_checks(*proposal, policy_state, account, portfolio, market, *time_status)[22] == quote_check(local, policy_of(policy_state), market, *time_status));
        lemma_match_push(checks@, exp, c, expected_checks(*proposal, policy_state, account, portfolio, market, *time_status)[22]);
        exp = exp.push(expected_checks(*proposal, policy_state, account, portfolio, market, *time_status)[22]);
    }
    checks.push(c);
    let c = session_exec(local, market);
    proof {
        assert(expected_checks(*proposal, policy_state, account, portfolio, market, *time_status)[23] == session_check(local, market));
        lemma_match_push(checks@, exp, c, expected_checks(*proposal, policy_state, account, portfolio, market, *time_status)[23]);
        exp = exp.push(expected_checks(*proposal, policy_state, account, portfolio, market, *time_status)[23]);
    }
    checks.push(c);
    let c = deviation_exec(proposal, pol, market);
    proof {
        assert(expected_checks(*proposal, policy_state, account, portfolio, market, *time_status)[24] == deviation_check(*proposal, policy_of(policy_state), market));
        lemma_match_push(checks@, exp, c, expected_checks(*proposal, policy_state, account, portfolio, market, *time_status)[24]);
        exp = exp.push(expected_checks(*proposal, policy_state, account, portfolio, market, *time_status)[24]);
    }
    checks.push(c);
    let c = rules_exec(local);
    proof {
        assert(expected_checks(*proposal, policy_state, account, portfolio, market, *time_status)[25] == rules_check(local));
        lemma_match_push(checks@, exp, c, expected_checks(*proposal, policy_state, account, portfolio, market, *time_status)[25]);
        exp = exp.push(expected_checks(*proposal, policy_state, account, portfolio, market, *time_status)[25]);
    }
    checks.push(c);
    let c = check(
            RiskCheckId::LiveInactivity,
            RiskCheckOutcome::Pass,
            RiskDecisionReasonCode::NotApplicable,
            "Live inactivity timeout applies to a later Arm session, not this policy evaluation.",
        );
    proof {
        assert(expected_checks(*proposal, policy_state, account, portfolio, market, *time_status)[26] == inactivity_check());
        lemma_match_push(checks@, exp, c, expected_checks(*proposal, policy_state, account, portfolio, market, *time_status)[26]);
        exp = exp.push(expected_checks(*proposal, policy_state, account, portfolio, market, *time_status)[26]);
    }
    checks.push(c);
    proof {
        assert(exp =~= expected_checks(*proposal, policy_state, account, portfolio, market, *time_status));
    }
    let status = RiskDecisionStatus::from_checks(&checks);
    let mut decision_id = owned("risk-decision:");
    let fresh = new_uuid_text();
    push_chars(&mut decision_id, &chars(fresh.as_str()));
    proof {
        reveal_strlit("risk-decision:");
        assert(decision_id@.subrange(0, 14) =~= "risk-decision:"@);
        assert(decision_id@.subrange(14, 50) =~= fresh@);
    }
    RiskDecision {
        decision_id,
        workspace_id: owned(proposal.workspace_id.as_str()),
        proposal_id: owned(proposal.proposal_id.as_str()),
        proposal_hash: owned(proposal.proposal_hash.as_str()),
        account_id: match &proposal.fields.account_id {
            Some(a) => Some(a.clone()),
            None => None,
        },
        environment: proposal.fields.environment,
        policy_version: match policy_state {
            Some(st) => Some(st.policy_version),
            None => None,
        },
        policy_state_version: match policy_state {
            Some(st) => Some(st.state_version.clone()),
            None => None,
        },
        status,
        evaluated_at,
        state_version: String::new(),
        inputs,
        checks,
    }
}

/// A decision is allowed exactly when every one of its checks passes.
pub proof fn lemma_allowed_iff_all_pass(checks: Seq<RiskCheckResult>)
    ensures
        status_of(checks) == RiskDecisionStatus::Allowed <==> forall|i: int|
            0 <= i < checks.len() ==> (#[trigger] checks[i]).outcome == RiskCheckOutcome::Pass,
{
    if forall|i: int| 0 <= i < checks.len() ==> (#[trigger] checks[i]).outcome == RiskCheckOutcome::Pass {
        assert(!exists|i: int|
            0 <= i < checks.len() && (#[trigger] checks[i]).outcome == RiskCheckOutcome::Reject);
        assert(!exists|i: int|
            0 <= i < checks.len() && (#[trigger] checks[i]).outcome == RiskCheckOutcome::Unavailable);
    } else {
        let i = choose|i: int|
            0 <= i < checks.len() && !((#[trigger] checks[i]).outcome == RiskCheckOutcome::Pass);
        if checks[i].outcome == RiskCheckOutcome::Reject {
            assert(exists|j: int| 0 <= j < checks.len() && (#[trigger] checks[j]).outcome == RiskCheckOutcome::Reject);
        } else {
            assert(exists|j: int|
                0 <= j < checks.len() && (#[trigger] checks[j]).outcome == RiskCheckOutcome::Unavailable);
        }
    }
}

/// Without a configured policy no proposal is allowed.
pub proof fn lemma_unconfigured_policy_never_allows(
    checks: Seq<RiskCheckResult>,
    p: OrderProposal,
    s: Option<&RiskPolicyState>,
    a: Option<&AccountConnection>,
    f: Option<&PortfolioSnapshot>,
    m: Option<&MarketDetail>,
    t: TimeStatus,
)
    requires
        checks_match(checks, expected_checks(p, s, a, f, m, t)),
        !(s matches Some(st) && st.configured),
    ensures
        status_of(checks) != RiskDecisionStatus::Allowed,
{
    assert(check_is(checks[1], expected_checks(p, s, a, f, m, t)[1]));
    assert(checks[1].outcome == RiskCheckOutcome::Unavailable);
    lemma_allowed_iff_all_pass(checks);
}

/// A proposal that no longer awaits approval, or belongs to another
/// workspace, is always rejected.
pub proof fn lemma_stale_proposal_rejected(
    checks: Seq<RiskCheckResult>,
    p: OrderProposal,
    s: Option<&RiskPolicyState>,
    a: Option<&AccountConnection>,
    f: Option<&PortfolioSnapshot>,
    m: Option<&MarketDetail>,
    t: TimeStatus,
)
    requires
        checks_match(checks, expected_checks(p, s, a, f, m, t)),
        p.status != OrderProposalStatus::NeedsApproval || p.workspace_id@ != t.workspace_id@,
    ensures
        status_of(checks) == RiskDecisionStatus::Rejected,
{
    assert(check_is(checks[0], expected_checks(p, s, a, f, m, t)[0]));
    assert(checks[0].outcome == RiskCheckOutcome::Reject);
}

/// Only the local paper simulator can be allowed: every other context
/// lacks an authoritative instrument-rule snapshot.
pub proof fn lemma_only_local_paper_allowed(
    checks: Seq<RiskCheckResult>,
    p: OrderProposal,
    s: Option<&RiskPolicyState>,
    a: Option<&AccountConnection>,
    f: Option<&PortfolioSnapshot>,
    m: Option<&MarketDetail>,
    t: TimeStatus,
)
    requires
        checks_match(checks, expected_checks(p, s, a, f, m, t)),
        p.fields.environment != ExecutionContext::LocalPaper,
    ensures
        status_of(checks) != RiskDecisionStatus::Allowed,
{
    assert(check_is(checks[25], expected_checks(p, s, a, f, m, t)[25]));
    assert(checks[25].outcome == RiskCheckOutcome::Unavailable);
    lemma_allowed_iff_all_pass(checks);
}

} // verus!
