//! Risk policy: the persisted limits, their validation, and the risk decision
//! that every order proposal receives before it may reach a provider.
use vstd::prelude::*;
use crate::decimal::{
    fraction_of, lex_compare, lex_order, nat_text, push_chars, u64_text, whole_of, Comparison,
};
use crate::protocol::{AssetClass, ExecutionContext, TradeXError};
use crate::json::{member_from, JsonValue};
use crate::research::{hex_encode, hex_text, sha256_digest, sha256_of_text};
use crate::text::{
    all_digits, chars, concat, digits_only, is_alnum, is_graphic, owned, seq_eq,
    split_or_whole, string_of_all, trim_end, trim_end_char, trim_start, trim_start_char,
    trim_whitespace, trim_ws, utf8_len, utf8_length, slice, str_eq, lemma_trim_ws_idempotent, is_empty_text, push_char,
};

verus! {

/// A decimal limit that must be present in the payload and may be null.
pub struct RequiredNullableDecimal(pub Option<String>);

/// A count limit that must be present in the payload and may be null.
pub struct RequiredNullableU64(pub Option<u64>);

pub const DEFAULT_STALE_QUOTE_THRESHOLD_SECONDS: u64 = 3;

pub const DEFAULT_LIVE_INACTIVITY_TIMEOUT_MINUTES: u64 = 20;

#[derive(Clone, Copy, Debug, PartialEq, Eq, Structural)]
pub enum RiskPolicyEnvironment {
    LocalPaper,
    Paper,
    Demo,
    Testnet,
    Live,
}

#[derive(Clone, Debug, PartialEq, Eq)]
pub struct RiskAssetClassLimit {
    pub asset_class: AssetClass,
    pub max_exposure_percent: String,
}

#[derive(Clone, Debug, PartialEq, Eq)]
pub struct RiskPolicy {
    pub max_order_notional: Option<String>,
    pub max_order_quantity: Option<String>,
    pub max_position_size: Option<String>,
    pub max_single_instrument_exposure_percent: Option<String>,
    pub max_asset_class_exposure_percent: Vec<RiskAssetClassLimit>,
    pub max_daily_traded_notional: Option<String>,
    pub max_daily_realized_loss: Option<String>,
    pub max_open_orders: Option<u64>,
    pub max_reserved_capital: Option<String>,
    pub allowed_instrument_ids: Vec<String>,
    pub blocked_instrument_ids: Vec<String>,
    pub allowed_venues: Vec<String>,
    pub blocked_venues: Vec<String>,
    pub allowed_account_ids: Vec<String>,
    pub blocked_account_ids: Vec<String>,
    pub allowed_environments: Vec<RiskPolicyEnvironment>,
    pub stale_quote_threshold_seconds: u64,
    pub market_orders_enabled: bool,
    pub max_market_order_slippage_percent: Option<String>,
    pub max_price_deviation_percent: Option<String>,
    pub live_inactivity_timeout_minutes: u64,
}

pub struct RiskPolicyInput {
    pub max_order_notional: RequiredNullableDecimal,
    pub max_order_quantity: RequiredNullableDecimal,
    pub max_position_size: RequiredNullableDecimal,
    pub max_single_instrument_exposure_percent: RequiredNullableDecimal,
    pub max_asset_class_exposure_percent: Vec<RiskAssetClassLimit>,
    pub max_daily_traded_notional: RequiredNullableDecimal,
    pub max_daily_realized_loss: RequiredNullableDecimal,
    pub max_open_orders: RequiredNullableU64,
    pub max_reserved_capital: RequiredNullableDecimal,
    pub allowed_instrument_ids: Vec<String>,
    pub blocked_instrument_ids: Vec<String>,
    pub allowed_venues: Vec<String>,
    pub blocked_venues: Vec<String>,
    pub allowed_account_ids: Vec<String>,
    pub blocked_account_ids: Vec<String>,
    pub allowed_environments: Vec<RiskPolicyEnvironment>,
    pub stale_quote_threshold_seconds: u64,
    pub market_orders_enabled: bool,
    pub max_market_order_slippage_percent: RequiredNullableDecimal,
    pub max_price_deviation_percent: RequiredNullableDecimal,
    pub live_inactivity_timeout_minutes: u64,
}

#[derive(Clone, Debug, PartialEq, Eq)]
pub struct HardSafetyRule {
    pub id: String,
    pub description: String,
}

#[derive(Clone, Debug, PartialEq, Eq)]
pub struct RiskPolicyState {
    pub workspace_id: String,
    pub state_version: String,
    pub policy_version: u64,
    pub configured: bool,
    pub onboarding_step: u8,
    pub onboarding_completed: bool,
    pub policy: RiskPolicy,
    pub hard_rules: Vec<HardSafetyRule>,
    pub updated_at: String,
}

#[derive(Clone, Copy, Debug, PartialEq, Eq, Structural)]
pub enum RiskDecisionStatus {
    Allowed,
    Rejected,
    Unavailable,
}

#[derive(Clone, Copy, Debug, PartialEq, Eq, Structural)]
pub enum RiskCheckOutcome {
    Pass,
    Reject,
    Unavailable,
}

#[derive(Clone, Copy, Debug, PartialEq, Eq, Structural)]
pub enum RiskCheckId {
    ProposalIdentity,
    PolicyConfigured,
    AccountBinding,
    AccountHealth,
    AllowedAccount,
    AllowedEnvironment,
    AllowedVenue,
    AllowedInstrument,
    BlockedAccount,
    BlockedVenue,
    BlockedInstrument,
    OrderNotional,
    OrderQuantity,
    PositionSize,
    SingleInstrumentExposure,
    AssetClassExposure,
    DailyTradedNotional,
    DailyRealizedLoss,
    OpenOrderCount,
    ReservedCapital,
    MarketOrder,
    MarketOrderSlippage,
    PriceDeviation,
    QuoteFreshness,
    MarketSession,
    InstrumentRules,
    LiveInactivity,
}

#[derive(Clone, Copy, Debug, PartialEq, Eq, Structural)]
pub enum RiskDecisionReasonCode {
    WithinLimit,
    LimitNotConfigured,
    LimitExceeded,
    PolicyUnconfigured,
    ProposalInvalidated,
    EvidenceMissing,
    EvidenceStale,
    EvidenceUntrusted,
    AccountUnavailable,
    AccountMismatch,
    AccountUnhealthy,
    IdentifierNotAllowed,
    IdentifierBlocked,
    EnvironmentNotAllowed,
    MarketOrderDisabled,
    ExecutionQuoteUnavailable,
    MarketClosed,
    MarketHalted,
    InstrumentRulesUnavailable,
    CounterUnavailable,
    ReservationUnavailable,
    CalendarUnavailable,
    ClockUncertain,
    NotApplicable,
    UnsupportedContext,
    InvalidProposalValue,
}

#[derive(Clone, Copy, Debug, PartialEq, Eq, Structural)]
pub enum RiskDecisionInputKind {
    Policy,
    Account,
    Portfolio,
    Market,
    Time,
    Calendar,
    DailyCounters,
    Reservations,
    InstrumentRules,
}

#[derive(Clone, Debug, PartialEq, Eq)]
pub struct RiskCheckResult {
    pub check_id: RiskCheckId,
    pub outcome: RiskCheckOutcome,
    pub reason_code: RiskDecisionReasonCode,
    pub reason: String,
}

#[derive(Clone, Debug, PartialEq, Eq)]
pub struct RiskDecisionInputReference {
    pub kind: RiskDecisionInputKind,
    pub reference_id: String,
    pub digest: String,
    pub observed_at: Option<String>,
}

#[derive(Clone, Debug, PartialEq, Eq)]
pub struct RiskDecision {
    pub decision_id: String,
    pub workspace_id: String,
    pub proposal_id: String,
    pub proposal_hash: String,
    pub account_id: Option<String>,
    pub environment: ExecutionContext,
    pub policy_version: Option<u64>,
    pub policy_state_version: Option<String>,
    pub status: RiskDecisionStatus,
    pub evaluated_at: String,
    pub state_version: String,
    pub inputs: Vec<RiskDecisionInputReference>,
    pub checks: Vec<RiskCheckResult>,
}

#[derive(Clone, Debug, PartialEq, Eq)]
pub struct RiskDecisionHistory {
    pub workspace_id: String,
    pub proposal_id: String,
    pub decisions: Vec<RiskDecision>,
}

pub struct RiskDecisionEvaluate {
    pub workspace_id: String,
    pub proposal_id: String,
}

pub struct RiskDecisionQuery {
    pub workspace_id: String,
    pub proposal_id: String,
}

pub struct RiskQuery {
    pub workspace_id: String,
}

pub struct SaveRiskPolicy {
    pub workspace_id: String,
    pub expected_state_version: String,
    pub policy: RiskPolicyInput,
}

pub struct SetOnboardingStep {
    pub workspace_id: String,
    pub expected_state_version: String,
    pub step: u8,
}

pub struct CompleteOnboarding {
    pub workspace_id: String,
    pub expected_state_version: String,
}


/// The view of an optional text.
pub open spec fn opt_view(o: Option<String>) -> Option<Seq<char>> {
    match o {
        Some(s) => Some(s@),
        None => None,
    }
}

/// The views of a list of texts.
pub open spec fn views(v: Seq<String>) -> Seq<Seq<char>> {
    v.map_values(|s: String| s@)
}

/// A decimal policy limit, after trimming: whole digits (at least one, at
/// most `max_whole` bytes), an optional fraction of at most `max_fraction`
/// digits, and not zero.
pub open spec fn limit_text_ok(t: Seq<char>, max_whole: nat, max_fraction: nat) -> bool {
    let w = whole_of(t);
    let f = fraction_of(t);
    &&& w.len() > 0
    &&& utf8_len(w) <= max_whole
    &&& utf8_len(f) <= max_fraction
    &&& all_digits(w)
    &&& all_digits(f)
    &&& !(trim_start(w, '0').len() == 0 && trim_end(f, '0').len() == 0)
}

/// An optional limit that normalizes: absent, or present and valid once
/// trimmed.
pub open spec fn limit_ok(o: Option<String>, max_whole: nat, max_fraction: nat) -> bool {
    match o {
        Some(s) => limit_text_ok(trim_ws(s@), max_whole, max_fraction),
        None => true,
    }
}

/// The normalized view of an optional limit: its trimmed text.
pub open spec fn limit_view(o: Option<String>) -> Option<Seq<char>> {
    match o {
        Some(s) => Some(trim_ws(s@)),
        None => None,
    }
}

/// `value <= maximum` for unsigned decimal texts, by comparing whole parts
/// without leading zeros (shorter first, then lexicographically) and then
/// fractions without trailing zeros lexicographically.
pub open spec fn at_most(value: Seq<char>, maximum: Seq<char>) -> bool {
    let li = trim_start(whole_of(value), '0');
    let ri = trim_start(whole_of(maximum), '0');
    let lf = trim_end(fraction_of(value), '0');
    let rf = trim_end(fraction_of(maximum), '0');
    utf8_len(li) < utf8_len(ri) || (utf8_len(li) == utf8_len(ri) && (lex_order(li, ri)
        == Comparison::Less || (li == ri && lex_order(lf, rf) != Comparison::Greater)))
}

/// A venue or account identifier character.
pub open spec fn identifier_char(c: char) -> bool {
    is_alnum(c) || c == '_' || c == '-' || c == '.' || c == ':'
}

pub open spec fn identifier_ok(s: Seq<char>, max_len: nat) -> bool {
    &&& utf8_len(s) <= max_len
    &&& s.len() > 0
    &&& forall|i: int| 0 <= i < s.len() ==> identifier_char(#[trigger] s[i])
}

/// An instrument identifier: an asset-class prefix (`equity:` or
/// `crypto:`) followed by at least one printable ASCII character.
pub open spec fn instrument_id_ok(s: Seq<char>) -> bool {
    &&& utf8_len(s) <= 128
    &&& s.len() > 7
    &&& (s.subrange(0, 7) == "equity:"@ || s.subrange(0, 7) == "crypto:"@)
    &&& forall|i: int| 0 <= i < s.len() ==> is_graphic(#[trigger] s[i])
}

/// No text occurs twice.
pub open spec fn distinct_texts(v: Seq<String>) -> bool {
    forall|i: int, j: int| 0 <= i < j < v.len() ==> v[i]@ != v[j]@
}

pub open spec fn identifier_list_ok(v: Seq<String>, max_len: nat) -> bool {
    &&& v.len() <= 256
    &&& forall|i: int| 0 <= i < v.len() ==> identifier_ok(#[trigger] v[i]@, max_len)
    &&& distinct_texts(v)
}

pub open spec fn instrument_list_ok(v: Seq<String>) -> bool {
    &&& v.len() <= 256
    &&& forall|i: int| 0 <= i < v.len() ==> instrument_id_ok(#[trigger] v[i]@)
    &&& distinct_texts(v)
}

/// Two asset-class limits name the same class.
pub open spec fn duplicate_classes(v: Seq<RiskAssetClassLimit>) -> bool {
    exists|i: int, j: int| 0 <= i < j < v.len() && v[i].asset_class == v[j].asset_class
}

pub open spec fn duplicate_environments(v: Seq<RiskPolicyEnvironment>) -> bool {
    exists|i: int, j: int| 0 <= i < j < v.len() && v[i] == v[j]
}

/// Normalizes an optional decimal limit: absent stays absent; present is
/// trimmed and must have digits in both parts within the given widths and
/// must not be zero.
fn normalize_decimal(value: Option<String>, max_integer_digits: usize, max_fraction_digits: usize) -> (r:
    Result<Option<String>, TradeXError>)
    ensures
        match value {
            None => r matches Ok(None),
            Some(s) => if limit_text_ok(trim_ws(s@), max_integer_digits as nat, max_fraction_digits as nat) {
                r matches Ok(Some(t)) && t@ == trim_ws(s@)
            } else {
                r matches Err(e) && e.code@ == "RISK_POLICY_INVALID"@
            },
        },
{
    let value = match value {
        None => {
            return Ok(None);
        },
        Some(v) => v,
    };
    let t = trim_whitespace(&chars(value.as_str()));
    let (integer, fraction) = split_or_whole(&t, '.');
    if integer.len() == 0 || utf8_length(&integer) > max_integer_digits as u128 || utf8_length(
        &fraction,
    ) > max_fraction_digits as u128 || !digits_only(&integer) || !digits_only(&fraction) || (
    trim_start_char(&integer, '0').len() == 0 && trim_end_char(&fraction, '0').len() == 0) {
        return Err(TradeXError::new("RISK_POLICY_INVALID"));
    }
    Ok(Some(string_of_all(&t)))
}

/// `value <= maximum` for decimal texts (see `at_most`).
fn decimal_at_most(value: &str, maximum: &str) -> (r: bool)
    ensures
        r == at_most(value@, maximum@),
{
    let vc = chars(value);
    let mc = chars(maximum);
    let (lw, lf) = split_or_whole(&vc, '.');
    let (rw, rf) = split_or_whole(&mc, '.');
    assert(lw@ == whole_of(value@) && lf@ == fraction_of(value@));
    assert(rw@ == whole_of(maximum@) && rf@ == fraction_of(maximum@));
    let li = trim_start_char(&lw, '0');
    let ri = trim_start_char(&rw, '0');
    let ln = utf8_length(&li);
    let rn = utf8_length(&ri);
    if ln < rn {
        return true;
    }
    if ln != rn {
        return false;
    }
    proof {
        lemma_lex_equal(li@, ri@);
    }
    match lex_compare(&li, &ri) {
        Comparison::Less => true,
        Comparison::Greater => false,
        Comparison::Equal => {
            proof {
                lemma_lex_equal(li@, ri@);
            }
            let lt = trim_end_char(&lf, '0');
            let rt = trim_end_char(&rf, '0');
            match lex_compare(&lt, &rt) {
                Comparison::Greater => false,
                _ => true,
            }
        },
    }
}

/// Lexicographic equality is equality.
pub proof fn lemma_lex_equal(a: Seq<char>, b: Seq<char>)
    ensures
        lex_order(a, b) == Comparison::Equal <==> a == b,
    decreases a.len(),
{
    if a.len() > 0 && b.len() > 0 && a[0] == b[0] {
        lemma_lex_equal(a.drop_first(), b.drop_first());
        if a.drop_first() == b.drop_first() {
            assert(a =~= seq![a[0]] + a.drop_first());
            assert(b =~= seq![b[0]] + b.drop_first());
        }
    } else if a.len() == 0 && b.len() == 0 {
        assert(a =~= b);
    }
}

fn identifier_char_ok(c: char) -> (r: bool)
    ensures
        r == identifier_char(c),
{
    ('0' <= c && c <= '9') || ('A' <= c && c <= 'Z') || ('a' <= c && c <= 'z') || c == '_' || c
        == '-' || c == '.' || c == ':'
}

fn identifier_text_ok(s: &String, max_len: usize) -> (r: bool)
    ensures
        r == identifier_ok(s@, max_len as nat),
{
    let v = chars(s.as_str());
    if utf8_length(&v) > max_len as u128 || v.len() == 0 {
        return false;
    }
    let mut i: usize = 0;
    while i < v.len()
        invariant
            i <= v@.len(),
            v@ == s@,
            forall|k: int| 0 <= k < i ==> identifier_char(#[trigger] v@[k]),
        decreases v@.len() - i,
    {
        if !identifier_char_ok(v[i]) {
            assert(!identifier_char(s@[i as int]));
            return false;
        }
        i = i + 1;
    }
    true
}

fn instrument_text_ok(s: &String) -> (r: bool)
    ensures
        r == instrument_id_ok(s@),
{
    let v = chars(s.as_str());
    if utf8_length(&v) > 128 || v.len() <= 7 {
        return false;
    }
    let head = slice(&v, 0, 7);
    let equity = chars("equity:");
    let crypto = chars("crypto:");
    if !seq_eq(&head, &equity) && !seq_eq(&head, &crypto) {
        return false;
    }
    let mut i: usize = 0;
    while i < v.len()
        invariant
            i <= v@.len(),
            v@ == s@,
            forall|k: int| 0 <= k < i ==> is_graphic(#[trigger] v@[k]),
        decreases v@.len() - i,
    {
        if !('!' <= v[i] && v[i] <= '~') {
            assert(!is_graphic(s@[i as int]));
            return false;
        }
        i = i + 1;
    }
    true
}

/// Whether the text occurs among the first `n` of the list.
fn occurs_before(v: &Vec<String>, n: usize, s: &String) -> (r: bool)
    requires
        n <= v@.len(),
    ensures
        r == exists|j: int| 0 <= j < n && (#[trigger] v@[j])@ == s@,
{
    let mut j: usize = 0;
    while j < n
        invariant
            j <= n <= v@.len(),
            forall|k: int| 0 <= k < j ==> (#[trigger] v@[k])@ != s@,
        decreases n - j,
    {
        if str_eq(v[j].as_str(), s.as_str()) {
            return true;
        }
        j = j + 1;
    }
    false
}

/// At most 256 distinct venue or account identifiers, each within
/// `max_length` bytes.
fn valid_identifier_list(values: &Vec<String>, max_length: usize) -> (r: bool)
    ensures
        r == identifier_list_ok(values@, max_length as nat),
{
    if values.len() > 256 {
        return false;
    }
    let mut i: usize = 0;
    while i < values.len()
        invariant
            i <= values@.len() <= 256,
            forall|k: int| 0 <= k < i ==> identifier_ok(#[trigger] values@[k]@, max_length as nat),
            distinct_texts(values@.subrange(0, i as int)),
        decreases values@.len() - i,
    {
        if !identifier_text_ok(&values[i], max_length) || occurs_before(values, i, &values[i]) {
            proof {
                if identifier_ok(values@[i as int]@, max_length as nat) {
                    let j = choose|j: int| 0 <= j < i && (#[trigger] values@[j])@ == values@[i as int]@;
                    assert(values@[j]@ == values@[i as int]@);
                }
            }
            return false;
        }
        proof {
            assert forall|a: int, b: int| 0 <= a < b < i + 1 implies (#[trigger] values@.subrange(
                0,
                i + 1,
            )[a])@ != (#[trigger] values@.subrange(0, i + 1)[b])@ by {
                if b < i {
                    assert(values@.subrange(0, i as int)[a] == values@[a]);
                    assert(values@.subrange(0, i as int)[b] == values@[b]);
                }
            }
        }
        i = i + 1;
    }
    assert(values@.subrange(0, values@.len() as int) =~= values@);
    true
}

/// At most 256 distinct instrument identifiers.
fn valid_instrument_ids(values: &Vec<String>) -> (r: bool)
    ensures
        r == instrument_list_ok(values@),
{
    if values.len() > 256 {
        return false;
    }
    let mut i: usize = 0;
    while i < values.len()
        invariant
            i <= values@.len() <= 256,
            forall|k: int| 0 <= k < i ==> instrument_id_ok(#[trigger] values@[k]@),
            distinct_texts(values@.subrange(0, i as int)),
        decreases values@.len() - i,
    {
        if !instrument_text_ok(&values[i]) || occurs_before(values, i, &values[i]) {
            proof {
                if instrument_id_ok(values@[i as int]@) {
                    let j = choose|j: int| 0 <= j < i && (#[trigger] values@[j])@ == values@[i as int]@;
                    assert(values@[j]@ == values@[i as int]@);
                }
            }
            return false;
        }
        proof {
            assert forall|a: int, b: int| 0 <= a < b < i + 1 implies (#[trigger] values@.subrange(
                0,
                i + 1,
            )[a])@ != (#[trigger] values@.subrange(0, i + 1)[b])@ by {
                if b < i {
                    assert(values@.subrange(0, i as int)[a] == values@[a]);
                    assert(values@.subrange(0, i as int)[b] == values@[b]);
                }
            }
        }
        i = i + 1;
    }
    assert(values@.subrange(0, values@.len() as int) =~= values@);
    true
}

fn duplicate_asset_class_limits(values: &Vec<RiskAssetClassLimit>) -> (r: bool)
    ensures
        r == duplicate_classes(values@),
{
    let mut j: usize = 0;
    while j < values.len()
        invariant
            j <= values@.len(),
            forall|a: int, b: int|
                0 <= a < b < j ==> (#[trigger] values@[a]).asset_class != (#[trigger] values@[b]).asset_class,
        decreases values@.len() - j,
    {
        let mut i: usize = 0;
        while i < j
            invariant
                i <= j < values@.len(),
                forall|a: int| 0 <= a < i ==> (#[trigger] values@[a]).asset_class != values@[j as int].asset_class,
            decreases j - i,
        {
            if values[i].asset_class == values[j].asset_class {
                return true;
            }
            i = i + 1;
        }
        j = j + 1;
    }
    false
}

fn duplicate_values(values: &Vec<RiskPolicyEnvironment>) -> (r: bool)
    ensures
        r == duplicate_environments(values@),
{
    let mut j: usize = 0;
    while j < values.len()
        invariant
            j <= values@.len(),
            forall|a: int, b: int| 0 <= a < b < j ==> (#[trigger] values@[a]) != (#[trigger] values@[b]),
        decreases values@.len() - j,
    {
        let mut i: usize = 0;
        while i < j
            invariant
                i <= j < values@.len(),
                forall|a: int| 0 <= a < i ==> (#[trigger] values@[a]) != values@[j as int],
            decreases j - i,
        {
            if values[i] == values[j] {
                return true;
            }
            i = i + 1;
        }
        j = j + 1;
    }
    false
}


/// The four hard safety rules, in order.
pub open spec fn is_hard_rules(v: Seq<HardSafetyRule>) -> bool {
    &&& v.len() == 4
    &&& v[0].id@ == "LIVE_DISARMED_BY_DEFAULT"@
    &&& v[0].description@
        == "Live accounts remain DISARMED until the later financial authority gates exist."@
    &&& v[1].id@ == "APPROVAL_REQUIRED"@
    &&& v[1].description@
        == "Every future Live transaction requires a separate TradeX financial approval."@
    &&& v[2].id@ == "STALE_DATA_BLOCKS_LIVE"@
    &&& v[2].description@ == "Stale, missing or untrusted market data blocks Live authority."@
    &&& v[3].id@ == "AGENT_CANNOT_MODIFY_POLICY"@
    &&& v[3].description@ == "Agent turns cannot change this risk policy."@
}

fn hard_rule(id: &str, description: &str) -> (r: HardSafetyRule)
    ensures
        r.id@ == id@,
        r.description@ == description@,
{
    HardSafetyRule { id: owned(id), description: owned(description) }
}

fn hard_safety_rules() -> (r: Vec<HardSafetyRule>)
    ensures
        is_hard_rules(r@),
{
    let mut r: Vec<HardSafetyRule> = Vec::new();
    r.push(
        hard_rule(
            "LIVE_DISARMED_BY_DEFAULT",
            "Live accounts remain DISARMED until the later financial authority gates exist.",
        ),
    );
    r.push(
        hard_rule(
            "APPROVAL_REQUIRED",
            "Every future Live transaction requires a separate TradeX financial approval.",
        ),
    );
    r.push(
        hard_rule(
            "STALE_DATA_BLOCKS_LIVE",
            "Stale, missing or untrusted market data blocks Live authority.",
        ),
    );
    r.push(hard_rule("AGENT_CANNOT_MODIFY_POLICY", "Agent turns cannot change this risk policy."));
    r
}

/// The rules are exactly the hard safety rules.
fn are_hard_rules(v: &Vec<HardSafetyRule>) -> (r: bool)
    ensures
        r == is_hard_rules(v@),
{
    v.len() == 4 && str_eq(v[0].id.as_str(), "LIVE_DISARMED_BY_DEFAULT") && str_eq(
        v[0].description.as_str(),
        "Live accounts remain DISARMED until the later financial authority gates exist.",
    ) && str_eq(v[1].id.as_str(), "APPROVAL_REQUIRED") && str_eq(
        v[1].description.as_str(),
        "Every future Live transaction requires a separate TradeX financial approval.",
    ) && str_eq(v[2].id.as_str(), "STALE_DATA_BLOCKS_LIVE") && str_eq(
        v[2].description.as_str(),
        "Stale, missing or untrusted market data blocks Live authority.",
    ) && str_eq(v[3].id.as_str(), "AGENT_CANNOT_MODIFY_POLICY") && str_eq(
        v[3].description.as_str(),
        "Agent turns cannot change this risk policy.",
    )
}

/// The default policy: every money limit unset, every list empty, market
/// orders disabled, and the safe non-money defaults.
pub open spec fn is_default_policy(p: RiskPolicy) -> bool {
    &&& p.max_order_notional is None
    &&& p.max_order_quantity is None
    &&& p.max_position_size is None
    &&& p.max_single_instrument_exposure_percent is None
    &&& p.max_asset_class_exposure_percent@.len() == 0
    &&& p.max_daily_traded_notional is None
    &&& p.max_daily_realized_loss is None
    &&& p.max_open_orders is None
    &&& p.max_reserved_capital is None
    &&& p.allowed_instrument_ids@.len() == 0
    &&& p.blocked_instrument_ids@.len() == 0
    &&& p.allowed_venues@.len() == 0
    &&& p.blocked_venues@.len() == 0
    &&& p.allowed_account_ids@.len() == 0
    &&& p.blocked_account_ids@.len() == 0
    &&& p.allowed_environments@.len() == 0
    &&& p.stale_quote_threshold_seconds == DEFAULT_STALE_QUOTE_THRESHOLD_SECONDS
    &&& !p.market_orders_enabled
    &&& p.max_market_order_slippage_percent is None
    &&& p.max_price_deviation_percent is None
    &&& p.live_inactivity_timeout_minutes == DEFAULT_LIVE_INACTIVITY_TIMEOUT_MINUTES
}

impl Default for RiskPolicy {
    fn default() -> (p: Self)
        ensures
            is_default_policy(p),
    {
        RiskPolicy {
            max_order_notional: None,
            max_order_quantity: None,
            max_position_size: None,
            max_single_instrument_exposure_percent: None,
            max_asset_class_exposure_percent: Vec::new(),
            max_daily_traded_notional: None,
            max_daily_realized_loss: None,
            max_open_orders: None,
            max_reserved_capital: None,
            allowed_instrument_ids: Vec::new(),
            blocked_instrument_ids: Vec::new(),
            allowed_venues: Vec::new(),
            blocked_venues: Vec::new(),
            allowed_account_ids: Vec::new(),
            blocked_account_ids: Vec::new(),
            allowed_environments: Vec::new(),
            stale_quote_threshold_seconds: DEFAULT_STALE_QUOTE_THRESHOLD_SECONDS,
            market_orders_enabled: false,
            max_market_order_slippage_percent: None,
            max_price_deviation_percent: None,
            live_inactivity_timeout_minutes: DEFAULT_LIVE_INACTIVITY_TIMEOUT_MINUTES,
        }
    }
}

/// The checks a policy must pass: each limit normalizes within its width,
/// percentages are at most 100, the open-order limit is not zero, the
/// identifier lists are valid and duplicate-free, and the time settings are
/// in range.
pub open spec fn policy_valid(p: RiskPolicy) -> bool {
    let limits = p.max_asset_class_exposure_percent@;
    &&& limit_ok(p.max_order_notional, 15, 8)
    &&& limit_ok(p.max_order_quantity, 18, 8)
    &&& limit_ok(p.max_position_size, 15, 8)
    &&& limit_ok(p.max_single_instrument_exposure_percent, 3, 4)
    &&& forall|i: int|
        0 <= i < limits.len() ==> limit_text_ok(
            trim_ws((#[trigger] limits[i]).max_exposure_percent@),
            3,
            4,
        )
    &&& limit_ok(p.max_daily_traded_notional, 15, 8)
    &&& limit_ok(p.max_daily_realized_loss, 15, 8)
    &&& limit_ok(p.max_reserved_capital, 15, 8)
    &&& limit_ok(p.max_market_order_slippage_percent, 18, 8)
    &&& limit_ok(p.max_price_deviation_percent, 18, 8)
    &&& (p.max_single_instrument_exposure_percent matches Some(v) ==> at_most(
        trim_ws(v@),
        "100"@,
    ))
    &&& forall|i: int|
        0 <= i < limits.len() ==> at_most(
            trim_ws((#[trigger] limits[i]).max_exposure_percent@),
            "100"@,
        )
    &&& p.max_open_orders != Some(0u64)
    &&& instrument_list_ok(p.allowed_instrument_ids@)
    &&& instrument_list_ok(p.blocked_instrument_ids@)
    &&& identifier_list_ok(p.allowed_venues@, 32)
    &&& identifier_list_ok(p.blocked_venues@, 32)
    &&& identifier_list_ok(p.allowed_account_ids@, 128)
    &&& identifier_list_ok(p.blocked_account_ids@, 128)
    &&& !duplicate_classes(limits)
    &&& !duplicate_environments(p.allowed_environments@)
    &&& 1 <= p.stale_quote_threshold_seconds <= 86_400
    &&& 1 <= p.live_inactivity_timeout_minutes <= 1_440
}

/// `new` is `old` with every decimal limit trimmed and everything else kept.
pub open spec fn policy_normalized(old: RiskPolicy, new: RiskPolicy) -> bool {
    let ol = old.max_asset_class_exposure_percent@;
    let nl = new.max_asset_class_exposure_percent@;
    &&& opt_view(new.max_order_notional) == limit_view(old.max_order_notional)
    &&& opt_view(new.max_order_quantity) == limit_view(old.max_order_quantity)
    &&& opt_view(new.max_position_size) == limit_view(old.max_position_size)
    &&& opt_view(new.max_single_instrument_exposure_percent) == limit_view(
        old.max_single_instrument_exposure_percent,
    )
    &&& nl.len() == ol.len()
    &&& forall|i: int|
        0 <= i < nl.len() ==> (#[trigger] nl[i]).asset_class == ol[i].asset_class
            && nl[i].max_exposure_percent@ == trim_ws(ol[i].max_exposure_percent@)
    &&& opt_view(new.max_daily_traded_notional) == limit_view(old.max_daily_traded_notional)
    &&& opt_view(new.max_daily_realized_loss) == limit_view(old.max_daily_realized_loss)
    &&& new.max_open_orders == old.max_open_orders
    &&& opt_view(new.max_reserved_capital) == limit_view(old.max_reserved_capital)
    &&& views(new.allowed_instrument_ids@) == views(old.allowed_instrument_ids@)
    &&& views(new.blocked_instrument_ids@) == views(old.blocked_instrument_ids@)
    &&& views(new.allowed_venues@) == views(old.allowed_venues@)
    &&& views(new.blocked_venues@) == views(old.blocked_venues@)
    &&& views(new.allowed_account_ids@) == views(old.allowed_account_ids@)
    &&& views(new.blocked_account_ids@) == views(old.blocked_account_ids@)
    &&& new.allowed_environments@ == old.allowed_environments@
    &&& new.stale_quote_threshold_seconds == old.stale_quote_threshold_seconds
    &&& new.market_orders_enabled == old.market_orders_enabled
    &&& opt_view(new.max_market_order_slippage_percent) == limit_view(
        old.max_market_order_slippage_percent,
    )
    &&& opt_view(new.max_price_deviation_percent) == limit_view(old.max_price_deviation_percent)
    &&& new.live_inactivity_timeout_minutes == old.live_inactivity_timeout_minutes
}

fn copy_texts(v: &Vec<String>) -> (r: Vec<String>)
    ensures
        views(r@) == views(v@),
        r@.len() == v@.len(),
{
    let mut r: Vec<String> = Vec::new();
    let mut i: usize = 0;
    while i < v.len()
        invariant
            i <= v@.len(),
            r@.len() == i,
            forall|k: int| 0 <= k < i ==> (#[trigger] r@[k])@ == v@[k]@,
        decreases v@.len() - i,
    {
        r.push(owned(v[i].as_str()));
        i = i + 1;
    }
    assert(views(r@) =~= views(v@));
    r
}

fn copy_environments(v: &Vec<RiskPolicyEnvironment>) -> (r: Vec<RiskPolicyEnvironment>)
    ensures
        r@ == v@,
{
    let mut r: Vec<RiskPolicyEnvironment> = Vec::new();
    let mut i: usize = 0;
    while i < v.len()
        invariant
            i <= v@.len(),
            r@ == v@.subrange(0, i as int),
        decreases v@.len() - i,
    {
        r.push(v[i]);
        i = i + 1;
        assert(r@ =~= v@.subrange(0, i as int));
    }
    assert(v@.subrange(0, v@.len() as int) =~= v@);
    r
}

fn copy_limit(o: &Option<String>) -> (r: Option<String>)
    ensures
        opt_view(r) == opt_view(*o),
{
    match o {
        Some(s) => Some(owned(s.as_str())),
        None => None,
    }
}

fn invalid_policy() -> (e: TradeXError)
    ensures
        e.code@ == "RISK_POLICY_INVALID"@,
{
    TradeXError::new("RISK_POLICY_INVALID")
}

/// Normalizes the asset-class percentages (each required, each within three
/// whole and four fractional digits).
fn normalize_class_limits(v: &Vec<RiskAssetClassLimit>) -> (r: Result<Vec<RiskAssetClassLimit>, TradeXError>)
    ensures
        r is Ok <==> forall|i: int|
            0 <= i < v@.len() ==> limit_text_ok(
                trim_ws((#[trigger] v@[i]).max_exposure_percent@),
                3,
                4,
            ),
        r matches Ok(n) ==> n@.len() == v@.len() && forall|i: int|
            0 <= i < n@.len() ==> (#[trigger] n@[i]).asset_class == v@[i].asset_class
                && n@[i].max_exposure_percent@ == trim_ws(v@[i].max_exposure_percent@),
        r matches Err(e) ==> e.code@ == "RISK_POLICY_INVALID"@,
{
    let mut n: Vec<RiskAssetClassLimit> = Vec::new();
    let mut i: usize = 0;
    while i < v.len()
        invariant
            i <= v@.len(),
            n@.len() == i,
            forall|k: int|
                0 <= k < i ==> limit_text_ok(
                    trim_ws((#[trigger] v@[k]).max_exposure_percent@),
                    3,
                    4,
                ),
            forall|k: int|
                0 <= k < i ==> (#[trigger] n@[k]).asset_class == v@[k].asset_class
                    && n@[k].max_exposure_percent@ == trim_ws(v@[k].max_exposure_percent@),
        decreases v@.len() - i,
    {
        match normalize_decimal(Some(owned(v[i].max_exposure_percent.as_str())), 3, 4) {
            Ok(Some(t)) => {
                n.push(RiskAssetClassLimit { asset_class: v[i].asset_class, max_exposure_percent: t });
            },
            _ => {
                return Err(invalid_policy());
            },
        }
        i = i + 1;
    }
    Ok(n)
}

/// The policy with its limits normalized, when it passes every check.
fn normalized_policy(p: &RiskPolicy) -> (r: Result<RiskPolicy, TradeXError>)
    ensures
        r is Ok <==> policy_valid(*p),
        r matches Ok(n) ==> policy_normalized(*p, n),
        r matches Err(e) ==> e.code@ == "RISK_POLICY_INVALID"@,
{
    let max_order_notional = match normalize_decimal(copy_limit(&p.max_order_notional), 15, 8) {
        Ok(v) => v,
        Err(e) => {
            return Err(e);
        },
    };
    let max_order_quantity = match normalize_decimal(copy_limit(&p.max_order_quantity), 18, 8) {
        Ok(v) => v,
        Err(e) => {
            return Err(e);
        },
    };
    let max_position_size = match normalize_decimal(copy_limit(&p.max_position_size), 15, 8) {
        Ok(v) => v,
        Err(e) => {
            return Err(e);
        },
    };
    let single = match normalize_decimal(
        copy_limit(&p.max_single_instrument_exposure_percent),
        3,
        4,
    ) {
        Ok(v) => v,
        Err(e) => {
            return Err(e);
        },
    };
    let limits = match normalize_class_limits(&p.max_asset_class_exposure_percent) {
        Ok(v) => v,
        Err(e) => {
            return Err(e);
        },
    };
    let daily_traded = match normalize_decimal(copy_limit(&p.max_daily_traded_notional), 15, 8) {
        Ok(v) => v,
        Err(e) => {
            return Err(e);
        },
    };
    let daily_loss = match normalize_decimal(copy_limit(&p.max_daily_realized_loss), 15, 8) {
        Ok(v) => v,
        Err(e) => {
            return Err(e);
        },
    };
    let reserved = match normalize_decimal(copy_limit(&p.max_reserved_capital), 15, 8) {
        Ok(v) => v,
        Err(e) => {
            return Err(e);
        },
    };
    let slippage = match normalize_decimal(
        copy_limit(&p.max_market_order_slippage_percent),
        18,
        8,
    ) {
        Ok(v) => v,
        Err(e) => {
            return Err(e);
        },
    };
    let deviation = match normalize_decimal(copy_limit(&p.max_price_deviation_percent), 18, 8) {
        Ok(v) => v,
        Err(e) => {
            return Err(e);
        },
    };
    if let Some(value) = &single {
        if !decimal_at_most(value.as_str(), "100") {
            return Err(invalid_policy());
        }
    }
    let mut i: usize = 0;
    while i < limits.len()
        invariant
            i <= limits@.len(),
            limits@.len() == p.max_asset_class_exposure_percent@.len(),
            forall|k: int|
                0 <= k < limits@.len() ==> (#[trigger] limits@[k]).max_exposure_percent@ == trim_ws(
                    p.max_asset_class_exposure_percent@[k].max_exposure_percent@,
                ),
            forall|k: int|
                0 <= k < i ==> at_most((#[trigger] limits@[k]).max_exposure_percent@, "100"@),
        decreases limits@.len() - i,
    {
        if !decimal_at_most(limits[i].max_exposure_percent.as_str(), "100") {
            proof {
                assert(!at_most(limits@[i as int].max_exposure_percent@, "100"@));
                assert(!at_most(
                    trim_ws(p.max_asset_class_exposure_percent@[i as int].max_exposure_percent@),
                    "100"@,
                ));
            }
            return Err(invalid_policy());
        }
        i = i + 1;
    }
    assert forall|k: int| 0 <= k < p.max_asset_class_exposure_percent@.len() implies at_most(
        trim_ws((#[trigger] p.max_asset_class_exposure_percent@[k]).max_exposure_percent@),
        "100"@,
    ) by {
        assert(at_most(limits@[k].max_exposure_percent@, "100"@));
    }
    let zero_open = match p.max_open_orders {
        Some(n) => n == 0,
        None => false,
    };
    if zero_open || !valid_instrument_ids(&p.allowed_instrument_ids) || !valid_instrument_ids(
        &p.blocked_instrument_ids,
    ) || !valid_identifier_list(&p.allowed_venues, 32) || !valid_identifier_list(
        &p.blocked_venues,
        32,
    ) || !valid_identifier_list(&p.allowed_account_ids, 128) || !valid_identifier_list(
        &p.blocked_account_ids,
        128,
    ) || duplicate_asset_class_limits(&limits) || duplicate_values(&p.allowed_environments) {
        proof {
            if duplicate_classes(limits@) {
                let (a, b) = choose|a: int, b: int|
                    0 <= a < b < limits@.len() && limits@[a].asset_class == limits@[b].asset_class;
                assert(p.max_asset_class_exposure_percent@[a].asset_class == limits@[a].asset_class);
                assert(p.max_asset_class_exposure_percent@[b].asset_class == limits@[b].asset_class);
            }
        }
        return Err(invalid_policy());
    }
    proof {
        if duplicate_classes(p.max_asset_class_exposure_percent@) {
            let (a, b) = choose|a: int, b: int|
                0 <= a < b < p.max_asset_class_exposure_percent@.len()
                    && p.max_asset_class_exposure_percent@[a].asset_class
                    == p.max_asset_class_exposure_percent@[b].asset_class;
            assert(limits@[a].asset_class == limits@[b].asset_class);
        }
    }
    if !(1 <= p.stale_quote_threshold_seconds && p.stale_quote_threshold_seconds <= 86_400) || !(1
        <= p.live_inactivity_timeout_minutes && p.live_inactivity_timeout_minutes <= 1_440) {
        return Err(invalid_policy());
    }
    Ok(
        RiskPolicy {
            max_order_notional,
            max_order_quantity,
            max_position_size,
            max_single_instrument_exposure_percent: single,
            max_asset_class_exposure_percent: limits,
            max_daily_traded_notional: daily_traded,
            max_daily_realized_loss: daily_loss,
            max_open_orders: p.max_open_orders,
            max_reserved_capital: reserved,
            allowed_instrument_ids: copy_texts(&p.allowed_instrument_ids),
            blocked_instrument_ids: copy_texts(&p.blocked_instrument_ids),
            allowed_venues: copy_texts(&p.allowed_venues),
            blocked_venues: copy_texts(&p.blocked_venues),
            allowed_account_ids: copy_texts(&p.allowed_account_ids),
            blocked_account_ids: copy_texts(&p.blocked_account_ids),
            allowed_environments: copy_environments(&p.allowed_environments),
            stale_quote_threshold_seconds: p.stale_quote_threshold_seconds,
            market_orders_enabled: p.market_orders_enabled,
            max_market_order_slippage_percent: slippage,
            max_price_deviation_percent: deviation,
            live_inactivity_timeout_minutes: p.live_inactivity_timeout_minutes,
        },
    )
}


/// The position of the first asset-class limit, from the `i`-th on, whose
/// percentage is no valid limit; the number of limits when there is none.
pub open spec fn first_bad_class_limit(v: Seq<RiskAssetClassLimit>, i: nat) -> int
    decreases v.len() - i,
{
    if i >= v.len() {
        v.len() as int
    } else if !limit_text_ok(trim_ws(v[i as int].max_exposure_percent@), 3, 4) {
        i as int
    } else {
        first_bad_class_limit(v, i + 1)
    }
}

/// The first stage of normalizing a policy's decimal limits that fails, the
/// limits being normalized in declaration order and the asset-class limits
/// forming stage 4; 10 when every limit is well formed.
pub open spec fn first_bad_stage(p: RiskPolicy) -> int {
    if !limit_ok(p.max_order_notional, 15, 8) {
        0
    } else if !limit_ok(p.max_order_quantity, 18, 8) {
        1
    } else if !limit_ok(p.max_position_size, 15, 8) {
        2
    } else if !limit_ok(p.max_single_instrument_exposure_percent, 3, 4) {
        3
    } else if first_bad_class_limit(p.max_asset_class_exposure_percent@, 0) < p.max_asset_class_exposure_percent@.len() {
        4
    } else if !limit_ok(p.max_daily_traded_notional, 15, 8) {
        5
    } else if !limit_ok(p.max_daily_realized_loss, 15, 8) {
        6
    } else if !limit_ok(p.max_reserved_capital, 15, 8) {
        7
    } else if !limit_ok(p.max_market_order_slippage_percent, 18, 8) {
        8
    } else if !limit_ok(p.max_price_deviation_percent, 18, 8) {
        9
    } else {
        10
    }
}

/// The decimal limit normalized at `stage` after normalization stopped at
/// stage `k`: trimmed before it, cleared at it, as given after it.
pub open spec fn limit_after(n: Option<String>, o: Option<String>, stage: int, k: int) -> bool {
    if stage < k {
        opt_view(n) == limit_view(o)
    } else if stage == k {
        n is None
    } else {
        n == o
    }
}

/// The asset-class limits after normalization stopped at stage `k`: each
/// before the first malformed one trimmed, the malformed one emptied, the
/// rest as given.
pub open spec fn class_limits_after(n: Seq<RiskAssetClassLimit>, o: Seq<RiskAssetClassLimit>, k: int) -> bool {
    let b = first_bad_class_limit(o, 0);
    &&& n.len() == o.len()
    &&& forall|j: int|
        #![trigger n[j]]
        0 <= j < n.len() ==> if k < 4 || (k == 4 && j > b) {
            n[j] == o[j]
        } else if k == 4 && j == b {
            n[j].asset_class == o[j].asset_class && n[j].max_exposure_percent@ == Seq::<char>::empty()
        } else {
            n[j].asset_class == o[j].asset_class && n[j].max_exposure_percent@ == trim_ws(
                o[j].max_exposure_percent@,
            )
        }
}

/// The policy a failed validation leaves: normalization goes through the
/// decimal limits in order, trimming each, and stops at the first malformed
/// one, which it clears (an asset-class limit's percentage is emptied); the
/// limits after it and everything else stay as given.
pub open spec fn policy_after_failure(o: RiskPolicy, n: RiskPolicy) -> bool {
    let k = first_bad_stage(o);
    &&& n == (RiskPolicy {
        max_order_notional: n.max_order_notional,
        max_order_quantity: n.max_order_quantity,
        max_position_size: n.max_position_size,
        max_single_instrument_exposure_percent: n.max_single_instrument_exposure_percent,
        max_asset_class_exposure_percent: n.max_asset_class_exposure_percent,
        max_daily_traded_notional: n.max_daily_traded_notional,
        max_daily_realized_loss: n.max_daily_realized_loss,
        max_reserved_capital: n.max_reserved_capital,
        max_market_order_slippage_percent: n.max_market_order_slippage_percent,
        max_price_deviation_percent: n.max_price_deviation_percent,
        ..o
    })
    &&& limit_after(n.max_order_notional, o.max_order_notional, 0, k)
    &&& limit_after(n.max_order_quantity, o.max_order_quantity, 1, k)
    &&& limit_after(n.max_position_size, o.max_position_size, 2, k)
    &&& limit_after(n.max_single_instrument_exposure_percent, o.max_single_instrument_exposure_percent, 3, k)
    &&& class_limits_after(n.max_asset_class_exposure_percent@, o.max_asset_class_exposure_percent@, k)
    &&& limit_after(n.max_daily_traded_notional, o.max_daily_traded_notional, 5, k)
    &&& limit_after(n.max_daily_realized_loss, o.max_daily_realized_loss, 6, k)
    &&& limit_after(n.max_reserved_capital, o.max_reserved_capital, 7, k)
    &&& limit_after(n.max_market_order_slippage_percent, o.max_market_order_slippage_percent, 8, k)
    &&& limit_after(n.max_price_deviation_percent, o.max_price_deviation_percent, 9, k)
}

proof fn lemma_first_bad_class_limit(v: Seq<RiskAssetClassLimit>, i: nat)
    ensures
        i <= first_bad_class_limit(v, i) <= v.len() || (i > v.len() && first_bad_class_limit(v, i) == v.len()),
        first_bad_class_limit(v, i) < v.len() ==> !limit_text_ok(
            trim_ws(v[first_bad_class_limit(v, i)].max_exposure_percent@),
            3,
            4,
        ),
        forall|j: int|
            i <= j < first_bad_class_limit(v, i) ==> limit_text_ok(
                trim_ws((#[trigger] v[j]).max_exposure_percent@),
                3,
                4,
            ),
    decreases v.len() - i,
{
    if i < v.len() && limit_text_ok(trim_ws(v[i as int].max_exposure_percent@), 3, 4) {
        lemma_first_bad_class_limit(v, i + 1);
    }
}

/// Leaves the policy as a failed validation does (see
/// `policy_after_failure`).
fn leave_failed(p: &mut RiskPolicy)
    ensures
        policy_after_failure(*old(p), *final(p)),
{
    let ghost o = *p;
    proof {
        lemma_first_bad_class_limit(o.max_asset_class_exposure_percent@, 0);
    }
    match normalize_decimal(copy_limit(&p.max_order_notional), 15, 8) {
        Ok(v) => p.max_order_notional = v,
        Err(_) => {
            p.max_order_notional = None;
            return;
        },
    }
    match normalize_decimal(copy_limit(&p.max_order_quantity), 18, 8) {
        Ok(v) => p.max_order_quantity = v,
        Err(_) => {
            p.max_order_quantity = None;
            return;
        },
    }
    match normalize_decimal(copy_limit(&p.max_position_size), 15, 8) {
        Ok(v) => p.max_position_size = v,
        Err(_) => {
            p.max_position_size = None;
            return;
        },
    }
    match normalize_decimal(copy_limit(&p.max_single_instrument_exposure_percent), 3, 4) {
        Ok(v) => p.max_single_instrument_exposure_percent = v,
        Err(_) => {
            p.max_single_instrument_exposure_percent = None;
            return;
        },
    }
    let n = p.max_asset_class_exposure_percent.len();
    let mut j: usize = 0;
    while j < n
        invariant
            o == *old(p),
            j <= n,
            n == o.max_asset_class_exposure_percent@.len(),
            p.max_asset_class_exposure_percent@.len() == n,
            j <= first_bad_class_limit(o.max_asset_class_exposure_percent@, 0),
            forall|i: int|
                #![trigger p.max_asset_class_exposure_percent@[i]]
                0 <= i < j ==> p.max_asset_class_exposure_percent@[i].asset_class
                    == o.max_asset_class_exposure_percent@[i].asset_class
                    && p.max_asset_class_exposure_percent@[i].max_exposure_percent@ == trim_ws(
                    o.max_asset_class_exposure_percent@[i].max_exposure_percent@,
                ),
            forall|i: int|
                #![trigger p.max_asset_class_exposure_percent@[i]]
                j <= i < n ==> p.max_asset_class_exposure_percent@[i] == o.max_asset_class_exposure_percent@[i],
            *p == (RiskPolicy { max_asset_class_exposure_percent: p.max_asset_class_exposure_percent, ..*p }),
            opt_view(p.max_order_notional) == limit_view(o.max_order_notional),
            opt_view(p.max_order_quantity) == limit_view(o.max_order_quantity),
            opt_view(p.max_position_size) == limit_view(o.max_position_size),
            opt_view(p.max_single_instrument_exposure_percent) == limit_view(o.max_single_instrument_exposure_percent),
            first_bad_stage(o) >= 4,
            p.max_daily_traded_notional == o.max_daily_traded_notional,
            p.max_daily_realized_loss == o.max_daily_realized_loss,
            p.max_reserved_capital == o.max_reserved_capital,
            p.max_market_order_slippage_percent == o.max_market_order_slippage_percent,
            p.max_price_deviation_percent == o.max_price_deviation_percent,
            *p == (RiskPolicy {
                max_order_notional: p.max_order_notional,
                max_order_quantity: p.max_order_quantity,
                max_position_size: p.max_position_size,
                max_single_instrument_exposure_percent: p.max_single_instrument_exposure_percent,
                max_asset_class_exposure_percent: p.max_asset_class_exposure_percent,
                ..o
            }),
        decreases n - j,
    {
        proof {
            lemma_first_bad_class_limit(o.max_asset_class_exposure_percent@, 0);
        }
        let class = p.max_asset_class_exposure_percent[j].asset_class;
        match normalize_decimal(Some(owned(p.max_asset_class_exposure_percent[j].max_exposure_percent.as_str())), 3, 4) {
            Ok(Some(t)) => {
                p.max_asset_class_exposure_percent.set(j, RiskAssetClassLimit { asset_class: class, max_exposure_percent: t });
            },
            _ => {
                p.max_asset_class_exposure_percent.set(
                    j,
                    RiskAssetClassLimit { asset_class: class, max_exposure_percent: String::new() },
                );
                return;
            },
        }
        j = j + 1;
    }
    match normalize_decimal(copy_limit(&p.max_daily_traded_notional), 15, 8) {
        Ok(v) => p.max_daily_traded_notional = v,
        Err(_) => {
            p.max_daily_traded_notional = None;
            return;
        },
    }
    match normalize_decimal(copy_limit(&p.max_daily_realized_loss), 15, 8) {
        Ok(v) => p.max_daily_realized_loss = v,
        Err(_) => {
            p.max_daily_realized_loss = None;
            return;
        },
    }
    match normalize_decimal(copy_limit(&p.max_reserved_capital), 15, 8) {
        Ok(v) => p.max_reserved_capital = v,
        Err(_) => {
            p.max_reserved_capital = None;
            return;
        },
    }
    match normalize_decimal(copy_limit(&p.max_market_order_slippage_percent), 18, 8) {
        Ok(v) => p.max_market_order_slippage_percent = v,
        Err(_) => {
            p.max_market_order_slippage_percent = None;
            return;
        },
    }
    match normalize_decimal(copy_limit(&p.max_price_deviation_percent), 18, 8) {
        Ok(v) => p.max_price_deviation_percent = v,
        Err(_) => {
            p.max_price_deviation_percent = None;
            return;
        },
    }
}

/// Every decimal limit is already in trimmed form.
pub open spec fn policy_trimmed(p: RiskPolicy) -> bool {
    let limits = p.max_asset_class_exposure_percent@;
    &&& limit_view(p.max_order_notional) == opt_view(p.max_order_notional)
    &&& limit_view(p.max_order_quantity) == opt_view(p.max_order_quantity)
    &&& limit_view(p.max_position_size) == opt_view(p.max_position_size)
    &&& limit_view(p.max_single_instrument_exposure_percent) == opt_view(
        p.max_single_instrument_exposure_percent,
    )
    &&& forall|i: int|
        0 <= i < limits.len() ==> trim_ws((#[trigger] limits[i]).max_exposure_percent@)
            == limits[i].max_exposure_percent@
    &&& limit_view(p.max_daily_traded_notional) == opt_view(p.max_daily_traded_notional)
    &&& limit_view(p.max_daily_realized_loss) == opt_view(p.max_daily_realized_loss)
    &&& limit_view(p.max_reserved_capital) == opt_view(p.max_reserved_capital)
    &&& limit_view(p.max_market_order_slippage_percent) == opt_view(
        p.max_market_order_slippage_percent,
    )
    &&& limit_view(p.max_price_deviation_percent) == opt_view(p.max_price_deviation_percent)
}

/// The persisted-state checks other than the policy itself.
pub open spec fn state_header_ok(s: RiskPolicyState, workspace_id: Seq<char>) -> bool {
    &&& s.workspace_id@ == workspace_id
    &&& s.state_version@.len() > 0
    &&& s.updated_at@.len() > 0
    &&& s.policy_version != 0
    &&& 1 <= s.onboarding_step <= 5
    &&& !(s.onboarding_step == 5 && !s.configured)
    &&& !(s.onboarding_completed && s.onboarding_step != 5)
    &&& is_hard_rules(s.hard_rules@)
}

/// Both states agree on everything but the policy and the configured flag.
pub open spec fn same_state_header(a: RiskPolicyState, b: RiskPolicyState) -> bool {
    &&& a.workspace_id@ == b.workspace_id@
    &&& a.state_version@ == b.state_version@
    &&& a.policy_version == b.policy_version
    &&& a.onboarding_step == b.onboarding_step
    &&& a.onboarding_completed == b.onboarding_completed
    &&& a.hard_rules@ == b.hard_rules@
    &&& a.updated_at@ == b.updated_at@
}

/// What validating the policy leaves of state `o`: for a valid policy the
/// normalized policy, configured, the header kept; otherwise the policy as
/// normalization left it and everything else as it was.
pub open spec fn policy_validation_leaves(o: RiskPolicyState, n: RiskPolicyState) -> bool {
    &&& same_state_header(n, o)
    &&& if policy_valid(o.policy) {
        policy_normalized(o.policy, n.policy) && n.configured
    } else {
        policy_after_failure(o.policy, n.policy) && n == (RiskPolicyState { policy: n.policy, ..o })
    }
}

/// Two policies hold the same texts, lists and settings.
pub open spec fn policy_agrees(a: RiskPolicy, b: RiskPolicy) -> bool {
    let al = a.max_asset_class_exposure_percent@;
    let bl = b.max_asset_class_exposure_percent@;
    &&& opt_view(a.max_order_notional) == opt_view(b.max_order_notional)
    &&& opt_view(a.max_order_quantity) == opt_view(b.max_order_quantity)
    &&& opt_view(a.max_position_size) == opt_view(b.max_position_size)
    &&& opt_view(a.max_single_instrument_exposure_percent) == opt_view(b.max_single_instrument_exposure_percent)
    &&& al.len() == bl.len()
    &&& forall|i: int|
        0 <= i < al.len() ==> (#[trigger] al[i]).asset_class == bl[i].asset_class && al[i].max_exposure_percent@
            == bl[i].max_exposure_percent@
    &&& opt_view(a.max_daily_traded_notional) == opt_view(b.max_daily_traded_notional)
    &&& opt_view(a.max_daily_realized_loss) == opt_view(b.max_daily_realized_loss)
    &&& a.max_open_orders == b.max_open_orders
    &&& opt_view(a.max_reserved_capital) == opt_view(b.max_reserved_capital)
    &&& views(a.allowed_instrument_ids@) == views(b.allowed_instrument_ids@)
    &&& views(a.blocked_instrument_ids@) == views(b.blocked_instrument_ids@)
    &&& views(a.allowed_venues@) == views(b.allowed_venues@)
    &&& views(a.blocked_venues@) == views(b.blocked_venues@)
    &&& views(a.allowed_account_ids@) == views(b.allowed_account_ids@)
    &&& views(a.blocked_account_ids@) == views(b.blocked_account_ids@)
    &&& a.allowed_environments@ == b.allowed_environments@
    &&& a.stale_quote_threshold_seconds == b.stale_quote_threshold_seconds
    &&& a.market_orders_enabled == b.market_orders_enabled
    &&& opt_view(a.max_market_order_slippage_percent) == opt_view(b.max_market_order_slippage_percent)
    &&& opt_view(a.max_price_deviation_percent) == opt_view(b.max_price_deviation_percent)
    &&& a.live_inactivity_timeout_minutes == b.live_inactivity_timeout_minutes
}

/// Validation leaves one state: whatever plain validation and validation
/// for saving leave of the same state agree on the policy, on whether the
/// state is configured and on its header. (Saving refuses a policy that
/// enables market orders without a slippage limit only after validating
/// it, so even that refusal leaves the validated state.)
pub proof fn lemma_validation_leaves_one_state(o: RiskPolicyState, n1: RiskPolicyState, n2: RiskPolicyState)
    requires
        policy_validation_leaves(o, n1),
        policy_validation_leaves(o, n2),
    ensures
        policy_agrees(n1.policy, n2.policy),
        n1.configured == n2.configured,
        same_state_header(n1, n2),
{
    let l1 = n1.policy.max_asset_class_exposure_percent@;
    let l2 = n2.policy.max_asset_class_exposure_percent@;
    let lo = o.policy.max_asset_class_exposure_percent@;
    if policy_valid(o.policy) {
        assert forall|i: int| 0 <= i < l1.len() implies (#[trigger] l1[i]).asset_class == l2[i].asset_class
            && l1[i].max_exposure_percent@ == l2[i].max_exposure_percent@ by {
            assert(l1[i].asset_class == lo[i].asset_class);
            assert(l2[i].asset_class == lo[i].asset_class);
        }
    } else {
        assert forall|i: int| 0 <= i < l1.len() implies (#[trigger] l1[i]).asset_class == l2[i].asset_class
            && l1[i].max_exposure_percent@ == l2[i].max_exposure_percent@ by {
            assert(l1[i] == l1[i]);
            assert(l2[i] == l2[i]);
        }
        assert(n1.policy.allowed_instrument_ids == o.policy.allowed_instrument_ids);
        assert(n2.policy.allowed_instrument_ids == o.policy.allowed_instrument_ids);
    }
}


fn same_limit_text(a: &Option<String>, b: &Option<String>) -> (r: bool)
    ensures
        r == (opt_view(*a) == opt_view(*b)),
{
    match (a, b) {
        (Some(x), Some(y)) => str_eq(x.as_str(), y.as_str()),
        (None, None) => true,
        _ => false,
    }
}

/// The normalized policy equals the stored one exactly when the stored one is
/// already trimmed.
fn unchanged_by_normalization(stored: &RiskPolicy, normalized: &RiskPolicy) -> (r: bool)
    requires
        policy_normalized(*stored, *normalized),
    ensures
        r == policy_trimmed(*stored),
{
    let a = &stored.max_asset_class_exposure_percent;
    let b = &normalized.max_asset_class_exposure_percent;
    let mut i: usize = 0;
    while i < a.len()
        invariant
            i <= a@.len(),
            a@ == stored.max_asset_class_exposure_percent@,
            b@ == normalized.max_asset_class_exposure_percent@,
            a@.len() == b@.len(),
            forall|k: int|
                0 <= k < b@.len() ==> (#[trigger] b@[k]).max_exposure_percent@ == trim_ws(
                    a@[k].max_exposure_percent@,
                ),
            forall|k: int|
                0 <= k < i ==> trim_ws((#[trigger] a@[k]).max_exposure_percent@)
                    == a@[k].max_exposure_percent@,
        decreases a@.len() - i,
    {
        if !str_eq(a[i].max_exposure_percent.as_str(), b[i].max_exposure_percent.as_str()) {
            assert(trim_ws(a@[i as int].max_exposure_percent@) != a@[i as int].max_exposure_percent@);
            return false;
        }
        i = i + 1;
    }
    same_limit_text(&stored.max_order_notional, &normalized.max_order_notional) && same_limit_text(
        &stored.max_order_quantity,
        &normalized.max_order_quantity,
    ) && same_limit_text(&stored.max_position_size, &normalized.max_position_size)
        && same_limit_text(
        &stored.max_single_instrument_exposure_percent,
        &normalized.max_single_instrument_exposure_percent,
    ) && same_limit_text(&stored.max_daily_traded_notional, &normalized.max_daily_traded_notional)
        && same_limit_text(&stored.max_daily_realized_loss, &normalized.max_daily_realized_loss)
        && same_limit_text(&stored.max_reserved_capital, &normalized.max_reserved_capital)
        && same_limit_text(
        &stored.max_market_order_slippage_percent,
        &normalized.max_market_order_slippage_percent,
    ) && same_limit_text(
        &stored.max_price_deviation_percent,
        &normalized.max_price_deviation_percent,
    )
}

fn is_default(p: &RiskPolicy) -> (r: bool)
    ensures
        r == is_default_policy(*p),
{
    p.max_order_notional.is_none() && p.max_order_quantity.is_none()
        && p.max_position_size.is_none() && p.max_single_instrument_exposure_percent.is_none()
        && p.max_asset_class_exposure_percent.len() == 0 && p.max_daily_traded_notional.is_none()
        && p.max_daily_realized_loss.is_none() && p.max_open_orders.is_none()
        && p.max_reserved_capital.is_none() && p.allowed_instrument_ids.len() == 0
        && p.blocked_instrument_ids.len() == 0 && p.allowed_venues.len() == 0
        && p.blocked_venues.len() == 0 && p.allowed_account_ids.len() == 0
        && p.blocked_account_ids.len() == 0 && p.allowed_environments.len() == 0
        && p.stale_quote_threshold_seconds == DEFAULT_STALE_QUOTE_THRESHOLD_SECONDS
        && !p.market_orders_enabled && p.max_market_order_slippage_percent.is_none()
        && p.max_price_deviation_percent.is_none() && p.live_inactivity_timeout_minutes
        == DEFAULT_LIVE_INACTIVITY_TIMEOUT_MINUTES
}

impl RiskPolicyState {
    /// A fresh, unconfigured state for a workspace at the first onboarding
    /// step, with the default policy and the hard safety rules.
    pub fn new(workspace_id: String) -> (s: Self)
        ensures
            s.workspace_id == workspace_id,
            s.state_version@.len() == 0,
            s.policy_version == 1,
            !s.configured,
            s.onboarding_step == 1,
            !s.onboarding_completed,
            is_default_policy(s.policy),
            is_hard_rules(s.hard_rules@),
            s.updated_at@.len() == 0,
    {
        RiskPolicyState {
            workspace_id,
            state_version: String::new(),
            policy_version: 1,
            configured: false,
            onboarding_step: 1,
            onboarding_completed: false,
            policy: RiskPolicy::default(),
            hard_rules: hard_safety_rules(),
            updated_at: String::new(),
        }
    }

    /// Reopens onboarding for editing: not completed, at step four at most.
    pub fn mark_editing(&mut self)
        ensures
            !final(self).onboarding_completed,
            final(self).onboarding_step == if old(self).onboarding_step <= 4 {
                old(self).onboarding_step
            } else {
                4
            },
            final(self).configured == old(self).configured,
            final(self).policy == old(self).policy,
            final(self).workspace_id == old(self).workspace_id,
            final(self).state_version == old(self).state_version,
            final(self).policy_version == old(self).policy_version,
            final(self).hard_rules == old(self).hard_rules,
            final(self).updated_at == old(self).updated_at,
    {
        self.onboarding_completed = false;
        if self.onboarding_step > 4 {
            self.onboarding_step = 4;
        }
    }

    /// Normalizes and checks the policy. On success the policy holds its
    /// trimmed limits and the state is configured; on failure
    /// (`RISK_POLICY_INVALID`) the policy is left as normalization left it
    /// (see `policy_after_failure`) and the state is not configured anew.
    pub fn validate_policy(&mut self) -> (r: Result<(), TradeXError>)
        ensures
            r is Ok <==> policy_valid(old(self).policy),
            r is Ok ==> policy_normalized(old(self).policy, final(self).policy)
                && final(self).configured,
            r is Err ==> policy_after_failure(old(self).policy, final(self).policy) && *final(self)
                == (RiskPolicyState { policy: final(self).policy, ..*old(self) }),
            r matches Err(e) ==> e.code@ == "RISK_POLICY_INVALID"@,
            same_state_header(*final(self), *old(self)),
            policy_validation_leaves(*old(self), *final(self)),
    {
        match normalized_policy(&self.policy) {
            Ok(n) => {
                self.policy = n;
                self.configured = true;
                Ok(())
            },
            Err(e) => {
                leave_failed(&mut self.policy);
                Err(e)
            },
        }
    }

    /// `validate_policy`, and market orders need a slippage limit.
    pub fn validate_policy_for_save(&mut self) -> (r: Result<(), TradeXError>)
        ensures
            r is Ok <==> policy_valid(old(self).policy) && !(
            old(self).policy.market_orders_enabled
                && old(self).policy.max_market_order_slippage_percent is None),
            policy_valid(old(self).policy) ==> policy_normalized(
                old(self).policy,
                final(self).policy,
            ) && final(self).configured,
            !policy_valid(old(self).policy) ==> policy_after_failure(old(self).policy, final(self).policy)
                && *final(self) == (RiskPolicyState { policy: final(self).policy, ..*old(self) }),
            r matches Err(e) ==> e.code@ == "RISK_POLICY_INVALID"@,
            same_state_header(*final(self), *old(self)),
            policy_validation_leaves(*old(self), *final(self)),
    {
        match self.validate_policy() {
            Ok(()) => {},
            Err(e) => {
                return Err(e);
            },
        }
        if self.policy.market_orders_enabled && self.policy.max_market_order_slippage_percent.is_none() {
            return Err(invalid_policy());
        }
        Ok(())
    }

    /// Whether onboarding may complete: the policy is configured, the gateway
    /// runs and the model has a thread plan.
    pub fn ready_for_completion(&self, gateway_running: bool, thread_plan_ready: bool) -> (r: bool)
        ensures
            r == (self.configured && gateway_running && thread_plan_ready),
    {
        self.configured && gateway_running && thread_plan_ready
    }

    /// After a model reset a completed onboarding returns to step three.
    pub fn reopen_after_model_reset(&mut self)
        ensures
            old(self).onboarding_completed ==> !final(self).onboarding_completed
                && final(self).onboarding_step == 3,
            !old(self).onboarding_completed ==> *final(self) == *old(self),
            final(self).configured == old(self).configured,
            final(self).policy == old(self).policy,
            final(self).workspace_id == old(self).workspace_id,
            final(self).state_version == old(self).state_version,
            final(self).policy_version == old(self).policy_version,
            final(self).hard_rules == old(self).hard_rules,
            final(self).updated_at == old(self).updated_at,
    {
        if self.onboarding_completed {
            self.onboarding_completed = false;
            self.onboarding_step = 3;
        }
    }

    /// Checks a persisted state for `workspace_id`: its header, the hard
    /// rules, a valid and already-normalized policy, and the default policy
    /// while unconfigured; otherwise `WORKSPACE_INTEGRITY_FAILED`.
    pub fn validate_persisted(&self, workspace_id: &str) -> (r: Result<(), TradeXError>)
        ensures
            r is Ok <==> state_header_ok(*self, workspace_id@) && policy_valid(self.policy)
                && policy_trimmed(self.policy) && (self.configured || is_default_policy(
                self.policy,
            )),
            r matches Err(e) ==> e.code@ == "WORKSPACE_INTEGRITY_FAILED"@,
    {
        if !str_eq(self.workspace_id.as_str(), workspace_id) || is_empty_text(self.state_version.as_str())
            || is_empty_text(self.updated_at.as_str()) || self.policy_version == 0 || !(1 <= self.onboarding_step
            && self.onboarding_step <= 5) || (self.onboarding_step == 5 && !self.configured) || (
        self.onboarding_completed && self.onboarding_step != 5) || !are_hard_rules(
            &self.hard_rules,
        ) {
            return Err(TradeXError::new("WORKSPACE_INTEGRITY_FAILED"));
        }
        let normalized = match normalized_policy(&self.policy) {
            Ok(n) => n,
            Err(_) => {
                return Err(TradeXError::new("WORKSPACE_INTEGRITY_FAILED"));
            },
        };
        if !unchanged_by_normalization(&self.policy, &normalized) || (!self.configured
            && !is_default(&self.policy)) {
            return Err(TradeXError::new("WORKSPACE_INTEGRITY_FAILED"));
        }
        Ok(())
    }
}

/// Validation is idempotent: a validated policy passes validation again and
/// is left unchanged by it.
pub proof fn lemma_validation_idempotent(old: RiskPolicy, new: RiskPolicy)
    requires
        policy_valid(old),
        policy_normalized(old, new),
    ensures
        policy_valid(new),
        policy_trimmed(new),
        policy_normalized(new, new),
{
    let ol = old.max_asset_class_exposure_percent@;
    let nl = new.max_asset_class_exposure_percent@;
    assert forall|i: int| 0 <= i < nl.len() implies trim_ws((#[trigger] nl[i]).max_exposure_percent@)
        == nl[i].max_exposure_percent@ by {
        lemma_trim_ws_idempotent(ol[i].max_exposure_percent@);
    }
    assert forall|i: int| 0 <= i < nl.len() implies limit_text_ok(
        trim_ws((#[trigger] nl[i]).max_exposure_percent@),
        3,
        4,
    ) && at_most(trim_ws(nl[i].max_exposure_percent@), "100"@) by {
        lemma_trim_ws_idempotent(ol[i].max_exposure_percent@);
        assert(limit_text_ok(trim_ws(ol[i].max_exposure_percent@), 3, 4));
    }
    lemma_limit_idempotent(old.max_order_notional, new.max_order_notional);
    lemma_limit_idempotent(old.max_order_quantity, new.max_order_quantity);
    lemma_limit_idempotent(old.max_position_size, new.max_position_size);
    lemma_limit_idempotent(
        old.max_single_instrument_exposure_percent,
        new.max_single_instrument_exposure_percent,
    );
    lemma_limit_idempotent(old.max_daily_traded_notional, new.max_daily_traded_notional);
    lemma_limit_idempotent(old.max_daily_realized_loss, new.max_daily_realized_loss);
    lemma_limit_idempotent(old.max_reserved_capital, new.max_reserved_capital);
    lemma_limit_idempotent(
        old.max_market_order_slippage_percent,
        new.max_market_order_slippage_percent,
    );
    lemma_limit_idempotent(old.max_price_deviation_percent, new.max_price_deviation_percent);
    lemma_same_views_lists(old.allowed_instrument_ids@, new.allowed_instrument_ids@);
    lemma_same_views_lists(old.blocked_instrument_ids@, new.blocked_instrument_ids@);
    lemma_same_views_lists(old.allowed_venues@, new.allowed_venues@);
    lemma_same_views_lists(old.blocked_venues@, new.blocked_venues@);
    lemma_same_views_lists(old.allowed_account_ids@, new.allowed_account_ids@);
    lemma_same_views_lists(old.blocked_account_ids@, new.blocked_account_ids@);
    if duplicate_classes(nl) {
        let (a, b) = choose|a: int, b: int| 0 <= a < b < nl.len() && nl[a].asset_class == nl[b].asset_class;
        assert(ol[a].asset_class == ol[b].asset_class);
    }
}

proof fn lemma_limit_idempotent(old: Option<String>, new: Option<String>)
    requires
        opt_view(new) == limit_view(old),
    ensures
        limit_view(new) == opt_view(new),
        limit_ok(old, 15, 8) ==> limit_ok(new, 15, 8),
        limit_ok(old, 18, 8) ==> limit_ok(new, 18, 8),
        limit_ok(old, 3, 4) ==> limit_ok(new, 3, 4),
        (old matches Some(v) ==> at_most(trim_ws(v@), "100"@)) ==> (new matches Some(v)
            ==> at_most(trim_ws(v@), "100"@)),
{
    match old {
        Some(v) => {
            lemma_trim_ws_idempotent(v@);
        },
        None => {},
    }
}

proof fn lemma_same_views_lists(a: Seq<String>, b: Seq<String>)
    requires
        views(a) == views(b),
    ensures
        a.len() == b.len(),
        forall|i: int| 0 <= i < a.len() ==> (#[trigger] a[i])@ == b[i]@,
        identifier_list_ok(a, 32) ==> identifier_list_ok(b, 32),
        identifier_list_ok(a, 128) ==> identifier_list_ok(b, 128),
        instrument_list_ok(a) ==> instrument_list_ok(b),
{
    assert(views(a).len() == a.len());
    assert(views(b).len() == b.len());
    assert forall|i: int| 0 <= i < a.len() implies (#[trigger] a[i])@ == b[i]@ by {
        assert(views(a)[i] == a[i]@);
        assert(views(b)[i] == b[i]@);
    }
    assert forall|i: int| 0 <= i < b.len() implies (#[trigger] b[i])@ == a[i]@ by {
        assert(views(a)[i] == a[i]@);
        assert(views(b)[i] == b[i]@);
    }
    if identifier_list_ok(a, 32) {
        assert forall|i: int| 0 <= i < b.len() implies identifier_ok(#[trigger] b[i]@, 32) by {
            assert(identifier_ok(a[i]@, 32));
        }
    }
    if identifier_list_ok(a, 128) {
        assert forall|i: int| 0 <= i < b.len() implies identifier_ok(#[trigger] b[i]@, 128) by {
            assert(identifier_ok(a[i]@, 128));
        }
    }
    if instrument_list_ok(a) {
        assert forall|i: int| 0 <= i < b.len() implies instrument_id_ok(#[trigger] b[i]@) by {
            assert(instrument_id_ok(a[i]@));
        }
    }
    if distinct_texts(a) {
        assert forall|i: int, j: int| 0 <= i < j < b.len() implies b[i]@ != b[j]@ by {
            assert(a[i]@ != a[j]@);
        }
    }
}

/// The status a set of check results implies: any rejection rejects, else
/// any unavailable check makes the decision unavailable, else allowed.
pub open spec fn status_of(checks: Seq<RiskCheckResult>) -> RiskDecisionStatus {
    if exists|i: int| 0 <= i < checks.len() && (#[trigger] checks[i]).outcome == RiskCheckOutcome::Reject {
        RiskDecisionStatus::Rejected
    } else if exists|i: int|
        0 <= i < checks.len() && (#[trigger] checks[i]).outcome == RiskCheckOutcome::Unavailable {
        RiskDecisionStatus::Unavailable
    } else {
        RiskDecisionStatus::Allowed
    }
}

impl RiskDecisionStatus {
    pub fn from_checks(checks: &Vec<RiskCheckResult>) -> (r: Self)
        ensures
            r == status_of(checks@),
    {
        let mut i: usize = 0;
        while i < checks.len()
            invariant
                i <= checks@.len(),
                forall|k: int| 0 <= k < i ==> (#[trigger] checks@[k]).outcome != RiskCheckOutcome::Reject,
            decreases checks@.len() - i,
        {
            if checks[i].outcome == RiskCheckOutcome::Reject {
                return RiskDecisionStatus::Rejected;
            }
            i = i + 1;
        }
        let mut j: usize = 0;
        while j < checks.len()
            invariant
                j <= checks@.len(),
                forall|k: int| 0 <= k < checks@.len() ==> (#[trigger] checks@[k]).outcome != RiskCheckOutcome::Reject,
                forall|k: int| 0 <= k < j ==> (#[trigger] checks@[k]).outcome != RiskCheckOutcome::Unavailable,
            decreases checks@.len() - j,
        {
            if checks[j].outcome == RiskCheckOutcome::Unavailable {
                return RiskDecisionStatus::Unavailable;
            }
            j = j + 1;
        }
        RiskDecisionStatus::Allowed
    }
}


/// A lowercase hexadecimal digit.
pub open spec fn lower_hex(c: char) -> bool {
    ('0' <= c && c <= '9') || ('a' <= c && c <= 'f')
}

/// `sha256:` followed by 64 lowercase hexadecimal digits.
pub open spec fn sha256_ref(s: Seq<char>) -> bool {
    &&& utf8_len(s) == 71
    &&& s.len() >= 7
    &&& s.subrange(0, 7) == "sha256:"@
    &&& forall|i: int| 7 <= i < s.len() ==> lower_hex(#[trigger] s[i])
}

fn is_sha256_ref(s: &String) -> (r: bool)
    ensures
        r == sha256_ref(s@),
{
    let v = chars(s.as_str());
    if utf8_length(&v) != 71 || v.len() < 7 {
        return false;
    }
    let head = slice(&v, 0, 7);
    if !seq_eq(&head, &chars("sha256:")) {
        return false;
    }
    let mut i: usize = 7;
    while i < v.len()
        invariant
            7 <= i <= v@.len(),
            v@ == s@,
            forall|k: int| 7 <= k < i ==> lower_hex(#[trigger] v@[k]),
        decreases v@.len() - i,
    {
        let c = v[i];
        if !(('0' <= c && c <= '9') || ('a' <= c && c <= 'f')) {
            assert(!lower_hex(s@[i as int]));
            return false;
        }
        i = i + 1;
    }
    true
}

/// The state version of the `sequence`-th decision on a proposal.
pub open spec fn decision_state_version(proposal_id: Seq<char>, sequence: nat) -> Seq<char> {
    "risk-decision:"@ + proposal_id + seq![':'] + nat_text(sequence)
}

/// A stored decision is consistent with its proposal, its position in the
/// history and its own checks.
pub open spec fn decision_valid(
    d: RiskDecision,
    workspace_id: Seq<char>,
    proposal_id: Seq<char>,
    sequence: nat,
) -> bool {
    let checks = d.checks@;
    let inputs = d.inputs@;
    &&& d.workspace_id@ == workspace_id
    &&& d.proposal_id@ == proposal_id
    &&& sha256_ref(d.proposal_hash@)
    &&& d.decision_id@.len() >= 14 && d.decision_id@.subrange(0, 14) == "risk-decision:"@
    &&& d.evaluated_at@.len() > 0
    &&& d.policy_version != Some(0u64)
    &&& inputs.len() <= 32
    &&& 0 < checks.len() <= 64
    &&& forall|i: int|
        0 <= i < checks.len() ==> (#[trigger] checks[i]).reason@.len() > 0 && utf8_len(
            checks[i].reason@,
        ) <= 512
    &&& forall|i: int, j: int|
        0 <= i < j < checks.len() ==> (#[trigger] checks[i]).check_id != (#[trigger] checks[j]).check_id
    &&& forall|i: int|
        0 <= i < inputs.len() ==> (#[trigger] inputs[i]).reference_id@.len() > 0 && utf8_len(
            inputs[i].reference_id@,
        ) <= 128 && sha256_ref(inputs[i].digest@)
    &&& d.state_version@ == decision_state_version(proposal_id, sequence)
    &&& d.status == status_of(checks)
}

impl RiskDecision {
    /// Checks a stored decision for `proposal_id` at position `sequence`;
    /// any inconsistency is `WORKSPACE_INTEGRITY_FAILED`.
    pub fn validate(&self, workspace_id: &str, proposal_id: &str, sequence: u64) -> (r: Result<
        (),
        TradeXError,
    >)
        ensures
            r is Ok <==> decision_valid(*self, workspace_id@, proposal_id@, sequence as nat),
            r matches Err(e) ==> e.code@ == "WORKSPACE_INTEGRITY_FAILED"@,
    {
        let status = RiskDecisionStatus::from_checks(&self.checks);
        let did = chars(self.decision_id.as_str());
        let prefix_ok = did.len() >= 14 && seq_eq(&slice(&did, 0, 14), &chars("risk-decision:"));
        let mut expected = owned("risk-decision:");
        push_chars(&mut expected, &chars(proposal_id));
        push_char(&mut expected, ':');
        push_chars(&mut expected, &chars(u64_text(sequence).as_str()));
        proof {
            assert(expected@ =~= decision_state_version(proposal_id@, sequence as nat));
        }
        if !str_eq(self.workspace_id.as_str(), workspace_id) || !str_eq(
            self.proposal_id.as_str(),
            proposal_id,
        ) || !is_sha256_ref(&self.proposal_hash) || !prefix_ok || is_empty_text(
            self.evaluated_at.as_str(),
        ) || (match self.policy_version {
            Some(v) => v == 0,
            None => false,
        }) || self.inputs.len() > 32 || self.checks.len() == 0 || self.checks.len() > 64 {
            return Err(TradeXError::new("WORKSPACE_INTEGRITY_FAILED"));
        }
        let mut i: usize = 0;
        while i < self.checks.len()
            invariant
                i <= self.checks@.len(),
                forall|k: int|
                    0 <= k < i ==> (#[trigger] self.checks@[k]).reason@.len() > 0 && utf8_len(
                        self.checks@[k].reason@,
                    ) <= 512,
                forall|a: int, b: int|
                    0 <= a < b < i ==> (#[trigger] self.checks@[a]).check_id != (#[trigger] self.checks@[b]).check_id,
            decreases self.checks@.len() - i,
        {
            let reason = chars(self.checks[i].reason.as_str());
            if reason.len() == 0 || utf8_length(&reason) > 512 {
                return Err(TradeXError::new("WORKSPACE_INTEGRITY_FAILED"));
            }
            let mut j: usize = 0;
            while j < i
                invariant
                    j <= i < self.checks@.len(),
                    forall|a: int|
                        0 <= a < j ==> (#[trigger] self.checks@[a]).check_id != self.checks@[i as int].check_id,
                decreases i - j,
            {
                if self.checks[j].check_id == self.checks[i].check_id {
                    return Err(TradeXError::new("WORKSPACE_INTEGRITY_FAILED"));
                }
                j = j + 1;
            }
            i = i + 1;
        }
        let mut k: usize = 0;
        while k < self.inputs.len()
            invariant
                k <= self.inputs@.len(),
                forall|t: int|
                    0 <= t < k ==> (#[trigger] self.inputs@[t]).reference_id@.len() > 0 && utf8_len(
                        self.inputs@[t].reference_id@,
                    ) <= 128 && sha256_ref(self.inputs@[t].digest@),
            decreases self.inputs@.len() - k,
        {
            let id = chars(self.inputs[k].reference_id.as_str());
            if id.len() == 0 || utf8_length(&id) > 128 || !is_sha256_ref(&self.inputs[k].digest) {
                return Err(TradeXError::new("WORKSPACE_INTEGRITY_FAILED"));
            }
            k = k + 1;
        }
        if !str_eq(self.state_version.as_str(), expected.as_str()) || self.status != status {
            return Err(TradeXError::new("WORKSPACE_INTEGRITY_FAILED"));
        }
        Ok(())
    }
}

impl From<RiskPolicyInput> for RiskPolicy {
    fn from(input: RiskPolicyInput) -> (r: Self) {
        RiskPolicy {
            max_order_notional: input.max_order_notional.0,
            max_order_quantity: input.max_order_quantity.0,
            max_position_size: input.max_position_size.0,
            max_single_instrument_exposure_percent: input.max_single_instrument_exposure_percent.0,
            max_asset_class_exposure_percent: input.max_asset_class_exposure_percent,
            max_daily_traded_notional: input.max_daily_traded_notional.0,
            max_daily_realized_loss: input.max_daily_realized_loss.0,
            max_open_orders: input.max_open_orders.0,
            max_reserved_capital: input.max_reserved_capital.0,
            allowed_instrument_ids: input.allowed_instrument_ids,
            blocked_instrument_ids: input.blocked_instrument_ids,
            allowed_venues: input.allowed_venues,
            blocked_venues: input.blocked_venues,
            allowed_account_ids: input.allowed_account_ids,
            blocked_account_ids: input.blocked_account_ids,
            allowed_environments: input.allowed_environments,
            stale_quote_threshold_seconds: input.stale_quote_threshold_seconds,
            market_orders_enabled: input.market_orders_enabled,
            max_market_order_slippage_percent: input.max_market_order_slippage_percent.0,
            max_price_deviation_percent: input.max_price_deviation_percent.0,
            live_inactivity_timeout_minutes: input.live_inactivity_timeout_minutes,
        }
    }
}

/// A policy payload becomes the policy it carries, field for field, each
/// required-but-nullable limit unwrapped.
impl vstd::std_specs::convert::FromSpecImpl<RiskPolicyInput> for RiskPolicy {
    open spec fn obeys_from_spec() -> bool {
        true
    }

    open spec fn from_spec(input: RiskPolicyInput) -> RiskPolicy {
        RiskPolicy {
            max_order_notional: input.max_order_notional.0,
            max_order_quantity: input.max_order_quantity.0,
            max_position_size: input.max_position_size.0,
            max_single_instrument_exposure_percent: input.max_single_instrument_exposure_percent.0,
            max_asset_class_exposure_percent: input.max_asset_class_exposure_percent,
            max_daily_traded_notional: input.max_daily_traded_notional.0,
            max_daily_realized_loss: input.max_daily_realized_loss.0,
            max_open_orders: input.max_open_orders.0,
            max_reserved_capital: input.max_reserved_capital.0,
            allowed_instrument_ids: input.allowed_instrument_ids,
            blocked_instrument_ids: input.blocked_instrument_ids,
            allowed_venues: input.allowed_venues,
            blocked_venues: input.blocked_venues,
            allowed_account_ids: input.allowed_account_ids,
            blocked_account_ids: input.blocked_account_ids,
            allowed_environments: input.allowed_environments,
            stale_quote_threshold_seconds: input.stale_quote_threshold_seconds,
            market_orders_enabled: input.market_orders_enabled,
            max_market_order_slippage_percent: input.max_market_order_slippage_percent.0,
            max_price_deviation_percent: input.max_price_deviation_percent.0,
            live_inactivity_timeout_minutes: input.live_inactivity_timeout_minutes,
        }
    }
}

/// The digest reference of one evaluated input: `sha256:` and the
/// lowercase hex SHA-256 digest of the input's JSON encoding.
pub fn input_reference(
    kind: RiskDecisionInputKind,
    reference_id: String,
    observed_at: Option<String>,
    encoded: &str,
) -> (r: Result<RiskDecisionInputReference, TradeXError>)
    ensures
        r matches Ok(x) && x.kind == kind && x.reference_id == reference_id && x.observed_at
            == observed_at && x.digest@ == "sha256:"@ + hex_text(sha256_digest(encoded@)),
{
    let digest = sha256_of_text(encoded);
    let hex = hex_encode(digest.as_slice());
    Ok(RiskDecisionInputReference { kind, reference_id, digest: concat("sha256:", hex.as_str()), observed_at })
}

/// Policy members a persisted state must carry.
pub open spec fn required_policy_key(k: int) -> Seq<char> {
    if k == 0 {
        "maxOrderNotional"@
    } else if k == 1 {
        "maxSingleInstrumentExposurePercent"@
    } else if k == 2 {
        "maxDailyTradedNotional"@
    } else if k == 3 {
        "maxDailyRealizedLoss"@
    } else if k == 4 {
        "staleQuoteThresholdSeconds"@
    } else if k == 5 {
        "marketOrdersEnabled"@
    } else {
        "liveInactivityTimeoutMinutes"@
    }
}

fn required_policy_key_exec(k: usize) -> (r: &'static str)
    requires
        k < 7,
    ensures
        r@ == required_policy_key(k as int),
{
    match k {
        0 => "maxOrderNotional",
        1 => "maxSingleInstrumentExposurePercent",
        2 => "maxDailyTradedNotional",
        3 => "maxDailyRealizedLoss",
        4 => "staleQuoteThresholdSeconds",
        5 => "marketOrdersEnabled",
        _ => "liveInactivityTimeoutMinutes",
    }
}

/// Policy members added since the first persisted version, and whether
/// each defaults to an empty list (otherwise to null).
pub open spec fn later_policy_key(k: int) -> (Seq<char>, bool) {
    if k == 0 {
        ("maxOrderQuantity"@, false)
    } else if k == 1 {
        ("maxPositionSize"@, false)
    } else if k == 2 {
        ("maxAssetClassExposurePercent"@, true)
    } else if k == 3 {
        ("maxOpenOrders"@, false)
    } else if k == 4 {
        ("maxReservedCapital"@, false)
    } else if k == 5 {
        ("allowedInstrumentIds"@, true)
    } else if k == 6 {
        ("blockedInstrumentIds"@, true)
    } else if k == 7 {
        ("allowedVenues"@, true)
    } else if k == 8 {
        ("blockedVenues"@, true)
    } else if k == 9 {
        ("allowedAccountIds"@, true)
    } else if k == 10 {
        ("blockedAccountIds"@, true)
    } else if k == 11 {
        ("allowedEnvironments"@, true)
    } else if k == 12 {
        ("maxMarketOrderSlippagePercent"@, false)
    } else {
        ("maxPriceDeviationPercent"@, false)
    }
}

fn later_policy_key_exec(k: usize) -> (r: (&'static str, bool))
    requires
        k < 14,
    ensures
        (r.0@, r.1) == later_policy_key(k as int),
{
    match k {
        0 => ("maxOrderQuantity", false),
        1 => ("maxPositionSize", false),
        2 => ("maxAssetClassExposurePercent", true),
        3 => ("maxOpenOrders", false),
        4 => ("maxReservedCapital", false),
        5 => ("allowedInstrumentIds", true),
        6 => ("blockedInstrumentIds", true),
        7 => ("allowedVenues", true),
        8 => ("blockedVenues", true),
        9 => ("allowedAccountIds", true),
        10 => ("blockedAccountIds", true),
        11 => ("allowedEnvironments", true),
        12 => ("maxMarketOrderSlippagePercent", false),
        _ => ("maxPriceDeviationPercent", false),
    }
}

/// The object has a member with the key.
pub open spec fn has_key(ms: Seq<(String, JsonValue)>, key: Seq<char>) -> bool {
    exists|i: int| 0 <= i < ms.len() && (#[trigger] ms[i]).0@ == key
}

/// The default member for a later key: null, or an empty list.
pub open spec fn is_default_member(m: (String, JsonValue), key: (Seq<char>, bool)) -> bool {
    &&& m.0@ == key.0
    &&& if key.1 {
        m.1 matches JsonValue::Array(v) && v@.len() == 0
    } else {
        m.1 is Null
    }
}

/// The later keys (from the `k`-th on) an object lacks, in order.
pub open spec fn missing_later_keys(ms: Seq<(String, JsonValue)>, k: int) -> Seq<(Seq<char>, bool)>
    decreases 14 - k,
{
    if k < 0 || k >= 14 {
        Seq::empty()
    } else if has_key(ms, later_policy_key(k).0) {
        missing_later_keys(ms, k + 1)
    } else {
        seq![later_policy_key(k)] + missing_later_keys(ms, k + 1)
    }
}

/// A persisted policy object completed for the current version: the same
/// members, then a default member for each later key it lacks.
pub open spec fn completed_policy(old_ms: Seq<(String, JsonValue)>, new_ms: Seq<(String, JsonValue)>) -> bool {
    let missing = missing_later_keys(old_ms, 0);
    &&& new_ms.len() == old_ms.len() + missing.len()
    &&& new_ms.subrange(0, old_ms.len() as int) == old_ms
    &&& forall|j: int| 0 <= j < missing.len() ==> is_default_member(#[trigger] new_ms[old_ms.len() + j], missing[j])
}

fn find_member(ms: &Vec<(String, JsonValue)>, key: &str) -> (r: Option<usize>)
    ensures
        match r {
            Some(i) => i < ms@.len() && ms@[i as int].0@ == key@ && forall|j: int|
                0 <= j < i ==> (#[trigger] ms@[j]).0@ != key@,
            None => !has_key(ms@, key@),
        },
{
    let mut i: usize = 0;
    while i < ms.len()
        invariant
            i <= ms@.len(),
            forall|j: int| 0 <= j < i ==> (#[trigger] ms@[j]).0@ != key@,
        decreases ms@.len() - i,
    {
        if str_eq(ms[i].0.as_str(), key) {
            return Some(i);
        }
        i = i + 1;
    }
    None
}

fn has_required_keys(pm: &Vec<(String, JsonValue)>) -> (r: bool)
    ensures
        r == forall|k: int| 0 <= k < 7 ==> has_key(pm@, #[trigger] required_policy_key(k)),
{
    let mut k: usize = 0;
    while k < 7
        invariant
            k <= 7,
            forall|j: int| 0 <= j < k ==> has_key(pm@, #[trigger] required_policy_key(j)),
        decreases 7 - k,
    {
        let rk = required_policy_key_exec(k);
        match find_member(pm, rk) {
            Some(_) => {},
            None => {
                assert(!has_key(pm@, required_policy_key(k as int)));
                return false;
            },
        }
        k = k + 1;
    }
    true
}

#[verifier::rlimit(40)]
fn add_later_defaults(pm: &mut Vec<(String, JsonValue)>)
    ensures
        completed_policy(old(pm)@, final(pm)@),
{
    let ghost pm0 = pm@;
    let mut d: usize = 0;
    let ghost added: Seq<(Seq<char>, bool)> = Seq::empty();
    assert(pm@.subrange(0, pm0.len() as int) =~= pm0);
    while d < 14
        invariant
            d <= 14,
            pm0 == old(pm)@,
            pm@.len() == pm0.len() + added.len(),
            pm@.subrange(0, pm0.len() as int) == pm0,
            forall|j: int| 0 <= j < added.len() ==> is_default_member(#[trigger] pm@[pm0.len() + j], added[j]),
            added + missing_later_keys(pm0, d as int) == missing_later_keys(pm0, 0),
            forall|j: int| d <= j < 14 ==> (has_key(pm@, #[trigger] later_policy_key(j).0) <==> has_key(pm0, later_policy_key(j).0)),
        decreases 14 - d,
    {
        let (dk, list) = later_policy_key_exec(d);
        let found = find_member(pm, dk);
        let ghost before = pm@;
        if found.is_none() {
            let default = if list {
                JsonValue::Array(Vec::new())
            } else {
                JsonValue::Null
            };
            pm.push((owned(dk), default));
            proof {
                assert(missing_later_keys(pm0, d as int) == seq![later_policy_key(d as int)] + missing_later_keys(pm0, d + 1));
                assert(added.push(later_policy_key(d as int)) + missing_later_keys(pm0, d + 1) =~= added + missing_later_keys(pm0, d as int));
                assert forall|j: int| d + 1 <= j < 14 implies (has_key(pm@, #[trigger] later_policy_key(j).0) <==> has_key(pm0, later_policy_key(j).0)) by {
                    lemma_later_keys_distinct(d as int, j);
                    if has_key(pm@, later_policy_key(j).0) {
                        let w = choose|w: int| 0 <= w < pm@.len() && (#[trigger] pm@[w]).0@ == later_policy_key(j).0;
                        if w < before.len() {
                            assert(before[w] == pm@[w]);
                        }
                    }
                    if has_key(before, later_policy_key(j).0) {
                        let w = choose|w: int| 0 <= w < before.len() && (#[trigger] before[w]).0@ == later_policy_key(j).0;
                        assert(pm@[w] == before[w]);
                    }
                }
                assert forall|j: int| 0 <= j < added.len() + 1 implies is_default_member(#[trigger] pm@[pm0.len() + j], added.push(later_policy_key(d as int))[j]) by {
                    if j < added.len() {
                        assert(pm@[pm0.len() + j] == before[pm0.len() + j]);
                    }
                }
                added = added.push(later_policy_key(d as int));
                assert(pm@.subrange(0, pm0.len() as int) =~= before.subrange(0, pm0.len() as int));
            }
        } else {
            proof {
                assert(has_key(pm0, later_policy_key(d as int).0));
                assert(missing_later_keys(pm0, d as int) == missing_later_keys(pm0, d + 1));
            }
        }
        d = d + 1;
    }
    assert(missing_later_keys(pm0, 14) =~= Seq::<(Seq<char>, bool)>::empty());
    assert(added =~= missing_later_keys(pm0, 0));
}

/// Completes the policy object of a persisted risk state for the current
/// version: the state must be an object whose `policy` member is an object
/// with every required key; each later key it lacks gets its default (see
/// `completed_policy`). Anything else is `WORKSPACE_INTEGRITY_FAILED`.
pub fn complete_persisted_policy(value: JsonValue) -> (r: Result<JsonValue, TradeXError>)
    ensures
        match value {
            JsonValue::Object(ms) => match member_from(ms@, "policy"@, 0) {
                Some(JsonValue::Object(pm)) => if forall|k: int| 0 <= k < 7 ==> has_key(pm@, #[trigger] required_policy_key(k)) {
                    r matches Ok(JsonValue::Object(out)) && (out@.len() == ms@.len() && (forall|i: int|
                        0 <= i < ms@.len() && ms@[i].0@ != "policy"@ ==> #[trigger] out@[i] == ms@[i])
                        && exists|i: int| 0 <= i < ms@.len() && ms@[i].0@ == "policy"@ && out@[i].0 == ms@[i].0
                        && (forall|j: int| 0 <= j < i ==> (#[trigger] ms@[j]).0@ != "policy"@)
                        && (out@[i].1 matches JsonValue::Object(npm) && completed_policy(pm@, npm@)))
                } else {
                    r matches Err(e) && e.code@ == "WORKSPACE_INTEGRITY_FAILED"@
                },
                _ => r matches Err(e) && e.code@ == "WORKSPACE_INTEGRITY_FAILED"@,
            },
            _ => r matches Err(e) && e.code@ == "WORKSPACE_INTEGRITY_FAILED"@,
        },
{
    let ghost v0 = value;
    let mut members = match value {
        JsonValue::Object(ms) => ms,
        _ => {
            return Err(TradeXError::new("WORKSPACE_INTEGRITY_FAILED"));
        },
    };
    assert(v0 == JsonValue::Object(members));
    let ghost ms0 = members@;
    let i = match find_member(&members, "policy") {
        Some(i) => i,
        None => {
            proof {
                lemma_member_absent(ms0, "policy"@, 0);
            }
            return Err(TradeXError::new("WORKSPACE_INTEGRITY_FAILED"));
        },
    };
    proof {
        lemma_first_member(ms0, "policy"@, i as int);
    }
    let (key, policy) = members.remove(i);
    assert(policy == ms0[i as int].1);
    let mut pm = match policy {
        JsonValue::Object(pm) => pm,
        _ => {
            return Err(TradeXError::new("WORKSPACE_INTEGRITY_FAILED"));
        },
    };
    let ghost pm0 = pm@;
    if !has_required_keys(&pm) {
        return Err(TradeXError::new("WORKSPACE_INTEGRITY_FAILED"));
    }
    add_later_defaults(&mut pm);
    let ghost npm = pm;
    members.insert(i, (key, JsonValue::Object(pm)));
    proof {
        assert(members@[i as int].1 == JsonValue::Object(npm));
        assert forall|k: int| 0 <= k < ms0.len() && ms0[k].0@ != "policy"@ implies #[trigger] members@[k] == ms0[k] by {
            assert(k != i);
        }
    }
    Ok(JsonValue::Object(members))
}

proof fn lemma_later_keys_distinct(a: int, b: int)
    requires
        0 <= a < b < 14,
    ensures
        later_policy_key(a).0 != later_policy_key(b).0,
{
    reveal_strlit("maxOrderQuantity");
    reveal_strlit("maxPositionSize");
    reveal_strlit("maxAssetClassExposurePercent");
    reveal_strlit("maxOpenOrders");
    reveal_strlit("maxReservedCapital");
    reveal_strlit("allowedInstrumentIds");
    reveal_strlit("blockedInstrumentIds");
    reveal_strlit("allowedVenues");
    reveal_strlit("blockedVenues");
    reveal_strlit("allowedAccountIds");
    reveal_strlit("blockedAccountIds");
    reveal_strlit("allowedEnvironments");
    reveal_strlit("maxMarketOrderSlippagePercent");
    reveal_strlit("maxPriceDeviationPercent");
    assert(later_policy_key(a).0.len() != later_policy_key(b).0.len() || later_policy_key(a).0[0]
        != later_policy_key(b).0[0] || later_policy_key(a).0[3] != later_policy_key(b).0[3]
        || later_policy_key(a).0[7] != later_policy_key(b).0[7]);
}

proof fn lemma_member_absent(ms: Seq<(String, JsonValue)>, key: Seq<char>, i: int)
    requires
        !has_key(ms, key),
        0 <= i,
    ensures
        member_from(ms, key, i) is None,
    decreases ms.len() - i,
{
    if i < ms.len() {
        assert(ms[i].0@ != key);
        lemma_member_absent(ms, key, i + 1);
    }
}

proof fn lemma_first_member(ms: Seq<(String, JsonValue)>, key: Seq<char>, i: int)
    requires
        0 <= i < ms.len(),
        ms[i].0@ == key,
        forall|j: int| 0 <= j < i ==> (#[trigger] ms[j]).0@ != key,
    ensures
        member_from(ms, key, 0) == Some(ms[i].1),
{
    lemma_member_from_skip(ms, key, 0, i);
}

proof fn lemma_member_from_skip(ms: Seq<(String, JsonValue)>, key: Seq<char>, k: int, i: int)
    requires
        0 <= k <= i < ms.len(),
        ms[i].0@ == key,
        forall|j: int| 0 <= j < i ==> (#[trigger] ms[j]).0@ != key,
    ensures
        member_from(ms, key, k) == Some(ms[i].1),
    decreases i - k,
{
    if k < i {
        lemma_member_from_skip(ms, key, k + 1, i);
    }
}

} // verus!
