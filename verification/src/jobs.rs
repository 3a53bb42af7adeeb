//! The decisions of the broker jobs. A job talks to a broker in several
//! requests; after each reply it decides whether to go on, what the reply
//! means for the order attempt or order book at hand, and what to send
//! next. The caller performs the requests and hands each reply here.
use vstd::prelude::*;
use crate::decimal::{decimal_order, Comparison};
use crate::json::{as_text, field_of, get, str_of, JsonValue};
use crate::protocol::{
    AlpacaPaperCancelState, AlpacaPaperFill, AlpacaPaperFillSource, AlpacaPaperOrder, AlpacaPaperOrderAttempt,
    AlpacaPaperOrderAttemptState, AlpacaPaperOrderBook, AlpacaPaperOrderBookStatus, OrderProposal,
    TradeXError, Trading212DemoOrderAttempt, Trading212DemoOrderAttemptState, Trading212DemoOrderBook,
    Trading212DemoOrderBookStatus,
};
use crate::provider_io::{
    alpaca_read_code, alpaca_read_error, asset_check, currency_code_ok, currency_valid, decimal,
    decimal_cmp, decimal_value, flag_field, flag_of, id_field, sell_position_check, text_field,
    text_of, uuid_of, validate_alpaca_asset, validate_alpaca_sell_position, acknowledges,
    alpaca_acknowledgement, alpaca_order_rejection, copy_attempt, opt_text, rejection_code,
    unknown_attempt, alpaca_order_request, copy_order, merge_fill_pages, merge_order_pages,
    merged_fills, merged_orders, order_index_from, preserve_local_order_state, preserved, replace_order,
    replaced, same_identity, same_order_identity, sort_desc_fills, sort_desc_orders, same_review,
    same_order_review, is_cancelable, JobKind, ProviderEndpoint, contains_secret, holds_secret,
    fill_inserted, order_parsed, parse_alpaca_order, fill_parsed, parse_alpaca_fill, insert_fill,
    order_accepted, provider_order_id_ok, valid_provider_order_id, Observation, cancelable_status, is_terminal, is_terminal_order_status, order_request_error, request_members, text_members,
    order_key_eq, order_keys_eq, fill_key_eq, fill_keys_eq, lemma_replaced_keys, lemma_fill_inserted_keys,
    lemma_parsed_order_key, lemma_parsed_fill_key, fill_accepted, t212_order_id_ok, valid_t212_order_id,
    t212_history_path_ok, valid_t212_history_path, t212_history_cursor, query_cursor,
};
use crate::providers::AccountConnection;
use crate::text::split_once;
use crate::text::{chars, concat, owned, str_eq};

verus! {

/// What a broker answered to one request.
pub enum ProviderReply {
    /// The request failed before any status came back, with this error.
    Failed(TradeXError),
    /// The broker answered with an HTTP status; the body read as JSON, or
    /// `None` when it is not JSON.
    Answered(u16, Option<JsonValue>),
}

/// Why the paper-broker account does not allow an order to be sent: a
/// malformed identity, status, flag, currency or buying power
/// (`PROVIDER_RESPONSE_INVALID`); another account than the attempt's, an
/// account that is not active, or one blocked or suspended for trading
/// (`PROVIDER_REVIEW_REQUIRED`, checked in that order as each field is
/// read); a notional order on an account not held in US dollars
/// (`ORDER_CAPABILITY_UNSUPPORTED`) or above its buying power
/// (`ORDER_BUYING_POWER_INSUFFICIENT`).
pub open spec fn submit_account_error(a: JsonValue, remote_account_id: Seq<char>, notional: Option<Seq<char>>) -> Option<Seq<char>> {
    let invalid = "PROVIDER_RESPONSE_INVALID"@;
    let review = "PROVIDER_REVIEW_REQUIRED"@;
    match uuid_of(a, "id"@) {
        None => Some(invalid),
        Some(id) => if id != remote_account_id {
            Some(review)
        } else {
            match text_of(a, "status"@, 32) {
                None => Some(invalid),
                Some(s) => if s != "ACTIVE"@ {
                    Some(review)
                } else {
                    match (flag_of(a, "account_blocked"@), flag_of(a, "trading_blocked"@), flag_of(
                        a,
                        "trade_suspended_by_user"@,
                    )) {
                        (None, _, _) => Some(invalid),
                        (Some(true), _, _) => Some(review),
                        (Some(false), None, _) => Some(invalid),
                        (Some(false), Some(true), _) => Some(review),
                        (Some(false), Some(false), None) => Some(invalid),
                        (Some(false), Some(false), Some(true)) => Some(review),
                        (Some(false), Some(false), Some(false)) => funds_error(a, notional),
                    }
                }
            }
        }
    }
}

/// The currency and buying-power part of `submit_account_error`.
pub open spec fn funds_error(a: JsonValue, notional: Option<Seq<char>>) -> Option<Seq<char>> {
    match text_of(a, "currency"@, 3) {
        None => Some("PROVIDER_RESPONSE_INVALID"@),
        Some(c) => if !currency_code_ok(c) {
            Some("PROVIDER_RESPONSE_INVALID"@)
        } else {
            match notional {
                None => None,
                Some(n) => if c != "USD"@ {
                    Some("ORDER_CAPABILITY_UNSUPPORTED"@)
                } else {
                    match decimal_value(field_of(a, "buying_power"@)) {
                        None => Some("PROVIDER_RESPONSE_INVALID"@),
                        Some(bp) => match decimal_order(n, bp) {
                            None => Some("PROVIDER_RESPONSE_INVALID"@),
                            Some(Comparison::Greater) => Some("ORDER_BUYING_POWER_INSUFFICIENT"@),
                            Some(_) => None,
                        },
                    }
                }
            }
        }
    }
}

fn review(v: bool) -> (r: Result<(), TradeXError>)
    ensures
        v ==> (r matches Err(e) && e.code@ == "PROVIDER_REVIEW_REQUIRED"@),
        !v ==> r is Ok,
{
    if v {
        Err(TradeXError::new("PROVIDER_REVIEW_REQUIRED"))
    } else {
        Ok(())
    }
}

/// Reviews the paper-broker account read just before an order is sent:
/// `body` is the order body (its `notional` member, if any, is checked
/// against the buying power). See `submit_account_error`.
pub fn review_submit_account(account: &JsonValue, remote_account_id: &str, body: &JsonValue) -> (r: Result<(), TradeXError>)
    ensures
        match submit_account_error(*account, remote_account_id@, str_of(field_of(*body, "notional"@))) {
            Some(code) => r matches Err(e) && e.code@ == code,
            None => r is Ok,
        },
{
    let id = id_field(account, "id")?;
    review(!str_eq(id.as_str(), remote_account_id))?;
    let status = text_field(account, "status", 32)?;
    review(!str_eq(status.as_str(), "ACTIVE"))?;
    review(flag_field(account, "account_blocked")?)?;
    review(flag_field(account, "trading_blocked")?)?;
    review(flag_field(account, "trade_suspended_by_user")?)?;
    let currency = text_field(account, "currency", 3)?;
    if !currency_valid(currency.as_str()) {
        return Err(TradeXError::new("PROVIDER_RESPONSE_INVALID"));
    }
    match as_text(get(body, "notional")) {
        None => Ok(()),
        Some(notional) => {
            if !str_eq(currency.as_str(), "USD") {
                return Err(TradeXError::new("ORDER_CAPABILITY_UNSUPPORTED"));
            }
            let buying_power = match get(account, "buying_power") {
                Some(v) => decimal(v)?,
                None => return Err(TradeXError::new("PROVIDER_RESPONSE_INVALID")),
            };
            match decimal_cmp(notional.as_str(), buying_power.as_str())? {
                Comparison::Greater => Err(TradeXError::new("ORDER_BUYING_POWER_INSUFFICIENT")),
                _ => Ok(()),
            }
        },
    }
}

/// The error a non-success reply to a read carries: the request's own
/// failure, `missing` for 404 when the read has a meaning for it, the
/// broker read error for another status, `PROVIDER_RESPONSE_INVALID` for a
/// body that is not JSON; `None` for a 200 reply with a JSON body.
pub open spec fn read_reply_error(reply: ProviderReply, missing: Option<Seq<char>>) -> Option<Seq<char>> {
    match reply {
        ProviderReply::Failed(e) => Some(e.code@),
        ProviderReply::Answered(s, body) => if s == 404 && missing is Some {
            missing
        } else if s != 200 {
            Some(alpaca_read_code(s))
        } else if body is None {
            Some("PROVIDER_RESPONSE_INVALID"@)
        } else {
            None
        },
    }
}

/// The JSON body of a successful read reply, or the error it carries (see
/// `read_reply_error`).
pub fn read_reply(reply: ProviderReply, missing: Option<&str>) -> (r: Result<JsonValue, TradeXError>)
    ensures
        match read_reply_error(reply, match missing {
            Some(m) => Some(m@),
            None => None,
        }) {
            Some(code) => r matches Err(e) && e.code@ == code,
            None => r matches Ok(v) && reply == ProviderReply::Answered(200, Some(v)),
        },
{
    match reply {
        ProviderReply::Failed(e) => Err(e),
        ProviderReply::Answered(s, body) => {
            if s == 404 {
                if let Some(m) = missing {
                    return Err(TradeXError::new(m));
                }
            }
            if s != 200 {
                return Err(alpaca_read_error(s));
            }
            match body {
                Some(v) => Ok(v),
                None => Err(TradeXError::new("PROVIDER_RESPONSE_INVALID")),
            }
        },
    }
}

/// The account read before an order is sent: the read must succeed and the
/// account allow the order (see `submit_account_error`).
pub fn submit_account_reply(reply: ProviderReply, remote_account_id: &str, body: &JsonValue) -> (r: Result<(), TradeXError>)
    ensures
        match read_reply_error(reply, None) {
            Some(code) => r matches Err(e) && e.code@ == code,
            None => match reply {
                ProviderReply::Answered(_, Some(a)) => match submit_account_error(
                    a,
                    remote_account_id@,
                    str_of(field_of(*body, "notional"@)),
                ) {
                    Some(code) => r matches Err(e) && e.code@ == code,
                    None => r is Ok,
                },
                _ => false,
            },
        },
{
    let account = read_reply(reply, None)?;
    review_submit_account(&account, remote_account_id, body)
}

/// The asset read before an order is sent: a missing asset is
/// `ORDER_ASSET_UNAVAILABLE`; otherwise the asset must be the tradable,
/// active equity for the symbol (see `asset_check`). Returns its identifier.
pub fn submit_asset_reply(reply: ProviderReply, symbol: &str, needs_fractional: bool) -> (r: Result<String, TradeXError>)
    ensures
        match read_reply_error(reply, Some("ORDER_ASSET_UNAVAILABLE"@)) {
            Some(code) => r matches Err(e) && e.code@ == code,
            None => match reply {
                ProviderReply::Answered(_, Some(a)) => match asset_check(a, symbol@, needs_fractional) {
                    Ok(id) => r matches Ok(t) && t@ == id,
                    Err(code) => r matches Err(e) && e.code@ == code,
                },
                _ => false,
            },
        },
{
    let asset = read_reply(reply, Some("ORDER_ASSET_UNAVAILABLE"))?;
    validate_alpaca_asset(&asset, symbol, needs_fractional)
}

/// The quantity a sell order body sells: `None` for another side; a sell
/// without a quantity (a notional sell) is `ORDER_CAPABILITY_UNSUPPORTED`.
pub fn sell_quantity(body: &JsonValue) -> (r: Result<Option<String>, TradeXError>)
    ensures
        str_of(field_of(*body, "side"@)) != Some("sell"@) ==> r matches Ok(None),
        str_of(field_of(*body, "side"@)) == Some("sell"@) ==> match str_of(field_of(*body, "qty"@)) {
            Some(q) => r matches Ok(Some(t)) && t@ == q,
            None => r matches Err(e) && e.code@ == "ORDER_CAPABILITY_UNSUPPORTED"@,
        },
{
    let is_sell = match as_text(get(body, "side")) {
        Some(s) => str_eq(s.as_str(), "sell"),
        None => false,
    };
    if !is_sell {
        return Ok(None);
    }
    match as_text(get(body, "qty")) {
        Some(q) => Ok(Some(q.clone())),
        None => Err(TradeXError::new("ORDER_CAPABILITY_UNSUPPORTED")),
    }
}

/// The position read before a sell is sent: a missing position is
/// `ORDER_INSUFFICIENT_POSITION`; otherwise it must hold the asset and at
/// least the quantity (see `sell_position_check`).
pub fn submit_position_reply(reply: ProviderReply, symbol: &str, asset_id: &str, quantity: &str) -> (r: Result<(), TradeXError>)
    ensures
        match read_reply_error(reply, Some("ORDER_INSUFFICIENT_POSITION"@)) {
            Some(code) => r matches Err(e) && e.code@ == code,
            None => match reply {
                ProviderReply::Answered(_, Some(p)) => match sell_position_check(p, symbol@, asset_id@, quantity@) {
                    Ok(()) => r is Ok,
                    Err(code) => r matches Err(e) && e.code@ == code,
                },
                _ => false,
            },
        },
{
    let position = read_reply(reply, Some("ORDER_INSUFFICIENT_POSITION"))?;
    validate_alpaca_sell_position(&position, symbol, asset_id, quantity)
}

/// `r` is `prior` marked as awaiting reconciliation, with this error code
/// and reason (see `unknown_attempt`).
pub open spec fn unknown_as(r: AlpacaPaperOrderAttempt, prior: AlpacaPaperOrderAttempt, code: Seq<char>, reason: Seq<char>) -> bool {
    &&& r == (AlpacaPaperOrderAttempt {
        state: AlpacaPaperOrderAttemptState::UnknownReconciling,
        provider_order_id: None,
        provider_status: None,
        error_code: r.error_code,
        reason: r.reason,
        ..prior
    })
    &&& r.error_code matches Some(c) && c@ == code
    &&& r.reason@ == reason
}

/// `r` is `prior` acknowledged by the broker's order record `order`.
pub open spec fn acknowledged_as(r: AlpacaPaperOrderAttempt, prior: AlpacaPaperOrderAttempt, order: JsonValue) -> bool {
    &&& r == (AlpacaPaperOrderAttempt {
        state: AlpacaPaperOrderAttemptState::Acknowledged,
        provider_order_id: r.provider_order_id,
        provider_status: r.provider_status,
        error_code: None,
        reason: r.reason,
        ..prior
    })
    &&& opt_text(r.provider_order_id) == uuid_of(order, "id"@)
    &&& opt_text(r.provider_status) == text_of(order, "status"@, 64)
    &&& r.reason@ == "Alpaca Paper acknowledged the order. This acknowledgement is not fill evidence."@
}

fn unknown(prior: &AlpacaPaperOrderAttempt, code: &str, reason: &str) -> (r: AlpacaPaperOrderAttempt)
    ensures
        unknown_as(r, *prior, code@, reason@),
{
    unknown_attempt(copy_attempt(prior), code, reason)
}

/// What an order submission's reply settles.
pub enum SubmitOutcome {
    /// The attempt is acknowledged, or the order was refused with this error.
    Settled(Result<AlpacaPaperOrderAttempt, TradeXError>),
    /// The broker may or may not hold the order: reconcile, never resend.
    Reconcile,
}

/// The `message` member of a reply body, when it is a string.
pub open spec fn message_of(body: Option<JsonValue>) -> Option<Seq<char>> {
    match body {
        Some(b) => str_of(field_of(b, "message"@)),
        None => None,
    }
}

/// The side an order body names, empty when it names none.
pub open spec fn side_of(request: JsonValue) -> Seq<char> {
    match str_of(field_of(request, "side"@)) {
        Some(s) => s,
        None => Seq::empty(),
    }
}

/// What the reply to an order submission settles: a 200 or 201 reply
/// whose body is the matching order record acknowledges the attempt; a
/// 400, 401, 403, 422 or 429 reply refuses the order (see
/// `rejection_code`); anything else (another status, an unmatched record,
/// a failed request) leaves the outcome unknown.
pub fn order_submission(
    reply: ProviderReply,
    request: &JsonValue,
    symbol: &str,
    asset_id: &str,
    attempt: &AlpacaPaperOrderAttempt,
) -> (r: SubmitOutcome)
    ensures
        match reply {
            ProviderReply::Answered(s, body) => if s == 200 || s == 201 {
                match body {
                    Some(order) => if acknowledges(order, *request, symbol@, Some(asset_id@), *attempt) {
                        r matches SubmitOutcome::Settled(Ok(a)) && acknowledged_as(a, *attempt, order)
                    } else {
                        r is Reconcile
                    },
                    None => r is Reconcile,
                }
            } else if s == 400 || s == 401 || s == 403 || s == 422 || s == 429 {
                r matches SubmitOutcome::Settled(Err(e)) && e.code@ == rejection_code(
                    s,
                    message_of(body),
                    side_of(*request),
                )
            } else {
                r is Reconcile
            },
            ProviderReply::Failed(_) => r is Reconcile,
        },
{
    match reply {
        ProviderReply::Answered(s, body) => {
            if s == 200 || s == 201 {
                match body {
                    Some(order) => match alpaca_acknowledgement(&order, request, symbol, Some(asset_id), attempt) {
                        Ok(a) => SubmitOutcome::Settled(Ok(a)),
                        Err(_) => SubmitOutcome::Reconcile,
                    },
                    None => SubmitOutcome::Reconcile,
                }
            } else if s == 400 || s == 401 || s == 403 || s == 422 || s == 429 {
                let message = match &body {
                    Some(b) => as_text(get(b, "message")),
                    None => None,
                };
                let side = match as_text(get(request, "side")) {
                    Some(t) => t.as_str(),
                    None => "",
                };
                proof {
                    reveal_strlit("");
                }
                let m = match message {
                    Some(t) => Some(t.as_str()),
                    None => None,
                };
                assert(side@ == side_of(*request));
                assert(match m { Some(t) => Some(t@), None => None } == message_of(body));
                SubmitOutcome::Settled(Err(alpaca_order_rejection(s, m, side)))
            } else {
                SubmitOutcome::Reconcile
            }
        },
        ProviderReply::Failed(_) => SubmitOutcome::Reconcile,
    }
}

/// The attempt after a submission or reconciliation: its updated form, or,
/// when the job failed, the attempt marked rejected with the error's code
/// and message.
pub fn settle_alpaca_attempt(
    attempt: AlpacaPaperOrderAttempt,
    outcome: Result<AlpacaPaperOrderAttempt, TradeXError>,
) -> (r: AlpacaPaperOrderAttempt)
    ensures
        match outcome {
            Ok(u) => r == u,
            Err(e) => r == (AlpacaPaperOrderAttempt {
                state: AlpacaPaperOrderAttemptState::Rejected,
                error_code: r.error_code,
                reason: r.reason,
                ..attempt
            }) && (r.error_code matches Some(c) && c@ == e.code@) && r.reason@ == e.message@,
        },
{
    match outcome {
        Ok(u) => u,
        Err(e) => {
            let mut a = attempt;
            a.state = AlpacaPaperOrderAttemptState::Rejected;
            a.error_code = Some(e.code);
            a.reason = e.message;
            a
        },
    }
}

/// The reason of an attempt whose account identity could not be read.
pub open spec fn identity_unverified() -> Seq<char> {
    "The saved Alpaca Paper account identity could not be verified. Order status remains unknown; do not resubmit."@
}

/// The reason of an attempt whose account identity was malformed.
pub open spec fn identity_invalid() -> Seq<char> {
    "Alpaca returned an invalid account identity. Order status remains unknown; do not resubmit."@
}

/// The reason of an attempt whose credentials now reach another account.
pub open spec fn identity_changed() -> Seq<char> {
    "The current Alpaca Paper credentials resolve to a different account. Restore the saved account identity before reconciling; do not resubmit."@
}

/// The reason of an attempt whose order body cannot be rebuilt.
pub open spec fn status_unverified() -> Seq<char> {
    "Alpaca Paper order status could not be verified; no retry was sent."@
}

/// The reason of an attempt whose looked-up order did not match.
pub open spec fn record_mismatch() -> Seq<char> {
    "Alpaca returned an order that did not match the saved client order identity; reconcile before any further action."@
}

/// The reason of an attempt whose client order id was not found.
pub open spec fn record_not_found() -> Seq<char> {
    "Alpaca Paper has not returned this client order ID yet. A single empty lookup does not prove the order was not accepted."@
}

/// The reason of an attempt whose order lookup failed.
pub open spec fn lookup_failed() -> Seq<char> {
    "Alpaca Paper order status remains unknown. Retry reconciliation; do not resubmit."@
}

/// The lookup path of an attempt's order by its client order id.
pub open spec fn lookup_path(a: AlpacaPaperOrderAttempt) -> Seq<char> {
    "/v2/orders:by_client_order_id?client_order_id="@ + a.client_order_id@
}

/// The first step of reconciling an attempt whose outcome is unknown: the
/// account read must succeed and name the attempt's account, and the
/// order body must still be buildable from the proposal. Returns the
/// symbol, the order body and the lookup path of the attempt's order; or
/// the attempt, still unknown, with the reason why reconciliation stopped.
pub fn reconcile_identity(
    attempt: &AlpacaPaperOrderAttempt,
    account_reply: ProviderReply,
    proposal: &OrderProposal,
    symbol: Option<&str>,
) -> (r: Result<(String, JsonValue, String), AlpacaPaperOrderAttempt>)
    ensures
        match account_reply {
            ProviderReply::Failed(e) => r matches Err(u) && unknown_as(u, *attempt, e.code@, identity_unverified()),
            ProviderReply::Answered(s, body) => if s != 200 {
                r matches Err(u) && unknown_as(u, *attempt, alpaca_read_code(s), identity_unverified())
            } else {
                match body {
                    None => r matches Err(u) && unknown_as(
                        u,
                        *attempt,
                        "PROVIDER_RESPONSE_INVALID"@,
                        identity_invalid(),
                    ),
                    Some(a) => match uuid_of(a, "id"@) {
                        None => r matches Err(u) && unknown_as(
                            u,
                            *attempt,
                            "PROVIDER_RESPONSE_INVALID"@,
                            identity_invalid(),
                        ),
                        Some(id) => if id != attempt.remote_account_id@ {
                            r matches Err(u) && unknown_as(
                                u,
                                *attempt,
                                "PROVIDER_IDENTITY_CHANGED"@,
                                identity_changed(),
                            )
                        } else {
                            match order_request_error(*proposal, *attempt, match symbol {
                                Some(t) => Some(t@),
                                None => None,
                            }) {
                                Some(_) => r matches Err(u) && unknown_as(
                                    u,
                                    *attempt,
                                    "ORDER_STATUS_UNKNOWN"@,
                                    status_unverified(),
                                ),
                                None => r matches Ok(plan) && plan.0@ == symbol->0@ && text_members(plan.1)
                                    == Some(request_members(*proposal, *attempt, symbol->0@))
                                    && plan.2@ == lookup_path(*attempt),
                            }
                        }
                    },
                }
            },
        },
{
    let account = match account_reply {
        ProviderReply::Failed(e) => {
            return Err(unknown(attempt, e.code.as_str(),
                "The saved Alpaca Paper account identity could not be verified. Order status remains unknown; do not resubmit."));
        },
        ProviderReply::Answered(s, body) => {
            if s != 200 {
                let e = alpaca_read_error(s);
                return Err(unknown(attempt, e.code.as_str(),
                    "The saved Alpaca Paper account identity could not be verified. Order status remains unknown; do not resubmit."));
            }
            match body {
                Some(a) => a,
                None => {
                    return Err(unknown(attempt, "PROVIDER_RESPONSE_INVALID",
                        "Alpaca returned an invalid account identity. Order status remains unknown; do not resubmit."));
                },
            }
        },
    };
    let remote = match id_field(&account, "id") {
        Ok(id) => id,
        Err(e) => {
            return Err(unknown(attempt, e.code.as_str(),
                "Alpaca returned an invalid account identity. Order status remains unknown; do not resubmit."));
        },
    };
    if !str_eq(remote.as_str(), attempt.remote_account_id.as_str()) {
        return Err(unknown(attempt, "PROVIDER_IDENTITY_CHANGED",
            "The current Alpaca Paper credentials resolve to a different account. Restore the saved account identity before reconciling; do not resubmit."));
    }
    match alpaca_order_request(proposal, attempt, symbol) {
        Ok((sym, request, _)) => {
            let path = concat("/v2/orders:by_client_order_id?client_order_id=", attempt.client_order_id.as_str());
            Ok((sym, request, path))
        },
        Err(_) => Err(unknown(attempt, "ORDER_STATUS_UNKNOWN",
            "Alpaca Paper order status could not be verified; no retry was sent.")),
    }
}

/// The last step of reconciling: the lookup of the attempt's order by its
/// client order id. A 200 reply with the matching record acknowledges the
/// attempt; any other reply leaves it unknown, with the reason why.
pub fn reconcile_lookup(
    attempt: &AlpacaPaperOrderAttempt,
    reply: ProviderReply,
    request: &JsonValue,
    symbol: &str,
) -> (r: AlpacaPaperOrderAttempt)
    ensures
        match reply {
            ProviderReply::Failed(e) => unknown_as(r, *attempt, e.code@, lookup_failed()),
            ProviderReply::Answered(s, body) => if s == 200 {
                match body {
                    Some(order) => if acknowledges(order, *request, symbol@, None, *attempt) {
                        acknowledged_as(r, *attempt, order)
                    } else {
                        unknown_as(r, *attempt, "PROVIDER_RESPONSE_INVALID"@, record_mismatch())
                    },
                    None => unknown_as(r, *attempt, "PROVIDER_RESPONSE_INVALID"@, record_mismatch()),
                }
            } else if s == 404 {
                unknown_as(r, *attempt, "ORDER_STATUS_UNKNOWN"@, record_not_found())
            } else {
                unknown_as(r, *attempt, alpaca_read_code(s), lookup_failed())
            },
        },
{
    match reply {
        ProviderReply::Failed(e) => unknown(attempt, e.code.as_str(),
            "Alpaca Paper order status remains unknown. Retry reconciliation; do not resubmit."),
        ProviderReply::Answered(s, body) => {
            if s == 200 {
                let ack = match &body {
                    Some(order) => alpaca_acknowledgement(order, request, symbol, None, attempt),
                    None => Err(TradeXError::new("PROVIDER_RESPONSE_INVALID")),
                };
                match ack {
                    Ok(a) => a,
                    Err(_) => unknown(attempt, "PROVIDER_RESPONSE_INVALID",
                        "Alpaca returned an order that did not match the saved client order identity; reconcile before any further action."),
                }
            } else if s == 404 {
                unknown(attempt, "ORDER_STATUS_UNKNOWN",
                    "Alpaca Paper has not returned this client order ID yet. A single empty lookup does not prove the order was not accepted.")
            } else {
                let e = alpaca_read_error(s);
                unknown(attempt, e.code.as_str(),
                    "Alpaca Paper order status remains unknown. Retry reconciliation; do not resubmit.")
            }
        },
    }
}

/// Two books hold the same orders and the same everything else.
pub open spec fn same_book(a: AlpacaPaperOrderBook, b: AlpacaPaperOrderBook) -> bool {
    a == (AlpacaPaperOrderBook { orders: a.orders, ..b }) && a.orders@ == b.orders@
}

/// `t` is a present text equal to `s`.
pub open spec fn text_is(t: Option<String>, s: Seq<char>) -> bool {
    t matches Some(x) && x@ == s
}

/// The book after a full refresh: the merged orders and fills, current as
/// of `now`.
pub fn refresh_order_book(
    book: &mut AlpacaPaperOrderBook,
    orders: Vec<AlpacaPaperOrder>,
    fills: Vec<AlpacaPaperFill>,
    now: String,
) -> (r: Result<(), TradeXError>)
    ensures
        match (merged_orders(old(book).orders@, orders@), merged_fills(old(book).fills@, fills@)) {
            (Err(c), _) => (r matches Err(e) && e.code@ == c) && *final(book) == *old(book),
            (Ok(_), Err(c)) => (r matches Err(e) && e.code@ == c) && *final(book) == *old(book),
            (Ok(mo), Ok(mf)) => r is Ok && *final(book) == (AlpacaPaperOrderBook {
                orders: final(book).orders,
                fills: final(book).fills,
                status: AlpacaPaperOrderBookStatus::Current,
                reason: None,
                observed_at: now,
                last_successful_sync_at: Some(now),
                ..*old(book)
            }) && final(book).orders@ == sort_desc_orders(mo) && final(book).fills@ == sort_desc_fills(mf),
        },
{
    let merged_o = merge_order_pages(&book.orders, orders)?;
    let merged_f = merge_fill_pages(&book.fills, fills)?;
    book.orders = merged_o;
    book.fills = merged_f;
    book.status = AlpacaPaperOrderBookStatus::Current;
    book.reason = None;
    book.last_successful_sync_at = Some(now.clone());
    book.observed_at = now;
    Ok(())
}

proof fn lemma_order_index_found(orders: Seq<AlpacaPaperOrder>, id: Seq<char>, k: int)
    requires
        0 <= k,
    ensures
        order_index_from(orders, id, k) matches Some(i) ==> k <= i < orders.len() && orders[i].provider_order_id@ == id,
    decreases orders.len() - k,
{
    if k < orders.len() && orders[k].provider_order_id@ != id {
        lemma_order_index_found(orders, id, k + 1);
    }
}

fn order_index(orders: &Vec<AlpacaPaperOrder>, order_id: &str) -> (r: Option<usize>)
    ensures
        match r {
            Some(k) => order_index_from(orders@, order_id@, 0) == Some(k as int) && k < orders@.len(),
            None => order_index_from(orders@, order_id@, 0) is None,
        },
{
    proof {
        lemma_order_index_found(orders@, order_id@, 0);
    }
    let mut i: usize = 0;
    while i < orders.len()
        invariant
            i <= orders@.len(),
            order_index_from(orders@, order_id@, 0) == order_index_from(orders@, order_id@, i as int),
        decreases orders@.len() - i,
    {
        if str_eq(orders[i].provider_order_id.as_str(), order_id) {
            return Some(i);
        }
        i = i + 1;
    }
    None
}

/// The book after one order was read again for review: the order must be
/// in the book (`ORDER_STATUS_UNKNOWN`) and still be the same order
/// (`PROVIDER_REVIEW_REQUIRED`); its fresh copy replaces it with the local
/// state kept (see `replaced`), and the book is stale until a full refresh.
/// A refused review leaves the book as it was.
pub fn review_order(book: &mut AlpacaPaperOrderBook, order_id: &str, fresh: AlpacaPaperOrder, now: String) -> (r: Result<(), TradeXError>)
    ensures
        match order_index_from(old(book).orders@, order_id@, 0) {
            None => (r matches Err(e) && e.code@ == "ORDER_STATUS_UNKNOWN"@) && *final(book) == *old(book),
            Some(i) => if !same_identity(old(book).orders@[i], fresh) {
                (r matches Err(e) && e.code@ == "PROVIDER_REVIEW_REQUIRED"@) && *final(book) == *old(book)
            } else {
                match replaced(old(book).orders@, preserved(fresh, old(book).orders@[i])) {
                    Err(c) => (r matches Err(e) && e.code@ == c) && same_book(*final(book), *old(book)),
                    Ok(v) => r is Ok && *final(book) == (AlpacaPaperOrderBook {
                        orders: final(book).orders,
                        status: AlpacaPaperOrderBookStatus::Stale,
                        reason: final(book).reason,
                        observed_at: now,
                        ..*old(book)
                    }) && final(book).orders@ == v && text_is(final(book).reason, "FULL_ORDER_BOOK_REFRESH_REQUIRED"@),
                }
            },
        },
{
    let i = match order_index(&book.orders, order_id) {
        Some(i) => i,
        None => return Err(TradeXError::new("ORDER_STATUS_UNKNOWN")),
    };
    if !same_order_identity(&book.orders[i], &fresh) {
        return Err(TradeXError::new("PROVIDER_REVIEW_REQUIRED"));
    }
    let kept = preserve_local_order_state(fresh, &book.orders[i]);
    replace_order(&mut book.orders, kept)?;
    book.observed_at = now;
    book.status = AlpacaPaperOrderBookStatus::Stale;
    book.reason = Some(owned("FULL_ORDER_BOOK_REFRESH_REQUIRED"));
    Ok(())
}

/// The order whose cancel request is settled by a failed cancel job: when
/// the request may have reached the broker it stays pending with an
/// unknown status (never resent); otherwise it is withdrawn with the error.
pub open spec fn cancel_unwound(r: AlpacaPaperOrder, o: AlpacaPaperOrder, code: Seq<char>, may_have_been_sent: bool) -> bool {
    if may_have_been_sent {
        r == (AlpacaPaperOrder {
            cancel_state: AlpacaPaperCancelState::Pending,
            cancel_error: r.cancel_error,
            ..o
        }) && text_is(r.cancel_error, "ORDER_CANCEL_STATUS_UNKNOWN"@)
    } else {
        r == (AlpacaPaperOrder {
            cancel_state: AlpacaPaperCancelState::NotRequested,
            cancel_idempotency_key: None,
            cancel_error: r.cancel_error,
            ..o
        }) && text_is(r.cancel_error, code)
    }
}

/// The book after a failed job: degraded with the error's code, observed
/// at `now` when the time could be read. For a failed cancel job on
/// `cancel_order`, that order, while its cancel is being submitted, is
/// settled as `cancel_unwound` says; every other order is kept.
pub fn degrade_order_book(
    book: &mut AlpacaPaperOrderBook,
    code: &str,
    now: Option<String>,
    cancel_order: Option<&str>,
    cancel_may_have_been_sent: bool,
)
    ensures
        *final(book) == (AlpacaPaperOrderBook {
            orders: final(book).orders,
            status: AlpacaPaperOrderBookStatus::Degraded,
            reason: final(book).reason,
            observed_at: match now {
                Some(t) => t,
                None => old(book).observed_at,
            },
            ..*old(book)
        }),
        text_is(final(book).reason, code@),
        match cancel_order {
            Some(id) => match order_index_from(old(book).orders@, id@, 0) {
                Some(i) => if old(book).orders@[i].cancel_state == AlpacaPaperCancelState::Submitting {
                    final(book).orders@ == old(book).orders@.update(i, final(book).orders@[i]) && cancel_unwound(
                        final(book).orders@[i],
                        old(book).orders@[i],
                        code@,
                        cancel_may_have_been_sent,
                    )
                } else {
                    final(book).orders@ == old(book).orders@
                },
                None => final(book).orders@ == old(book).orders@,
            },
            None => final(book).orders@ == old(book).orders@,
        },
{
    book.status = AlpacaPaperOrderBookStatus::Degraded;
    book.reason = Some(owned(code));
    if let Some(t) = now {
        book.observed_at = t;
    }
    if let Some(id) = cancel_order {
        if let Some(i) = order_index(&book.orders, id) {
            if book.orders[i].cancel_state == AlpacaPaperCancelState::Submitting {
                let mut o = copy_order(&book.orders[i]);
                if cancel_may_have_been_sent {
                    o.cancel_state = AlpacaPaperCancelState::Pending;
                    o.cancel_error = Some(owned("ORDER_CANCEL_STATUS_UNKNOWN"));
                } else {
                    o.cancel_state = AlpacaPaperCancelState::NotRequested;
                    o.cancel_idempotency_key = None;
                    o.cancel_error = Some(owned(code));
                }
                book.orders.set(i, o);
            }
        }
    }
}

/// The position in the book of the order a cancel job is for: the job
/// must carry the order as it was reviewed, and the book must hold it
/// (`ORDER_STATUS_UNKNOWN` otherwise).
pub fn cancel_target(book: &AlpacaPaperOrderBook, order_id: &str, reviewed: Option<&AlpacaPaperOrder>) -> (r: Result<usize, TradeXError>)
    ensures
        reviewed is None ==> (r matches Err(e) && e.code@ == "ORDER_STATUS_UNKNOWN"@),
        reviewed is Some ==> match order_index_from(book.orders@, order_id@, 0) {
            Some(i) => r == Ok::<usize, TradeXError>(i as usize) && i < book.orders@.len(),
            None => r matches Err(e) && e.code@ == "ORDER_STATUS_UNKNOWN"@,
        },
{
    if reviewed.is_none() {
        return Err(TradeXError::new("ORDER_STATUS_UNKNOWN"));
    }
    match order_index(&book.orders, order_id) {
        Some(i) => Ok(i),
        None => Err(TradeXError::new("ORDER_STATUS_UNKNOWN")),
    }
}

/// `r` is `o` with its cancel request withdrawn because of `error`.
pub open spec fn cancel_dropped(r: AlpacaPaperOrder, o: AlpacaPaperOrder, error: Seq<char>) -> bool {
    r == (AlpacaPaperOrder {
        cancel_state: AlpacaPaperCancelState::NotRequested,
        cancel_idempotency_key: None,
        cancel_error: r.cancel_error,
        ..o
    }) && text_is(r.cancel_error, error)
}

/// The book with only its `i`-th order changed, and observed at `now` for
/// `reason`.
pub open spec fn order_noted(
    after: AlpacaPaperOrderBook,
    before: AlpacaPaperOrderBook,
    i: int,
    now: String,
    reason: Seq<char>,
) -> bool {
    &&& after == (AlpacaPaperOrderBook { orders: after.orders, observed_at: now, reason: after.reason, ..before })
    &&& after.orders@ == before.orders@.update(i, after.orders@[i])
    &&& text_is(after.reason, reason)
}

/// Decides whether a cancel request may be sent for the `index`-th order,
/// read again just before (`fresh`): an order that changed since it was
/// reviewed must be reviewed again, and an order the broker no longer
/// lets cancel cannot be; either way the fresh order (local state kept)
/// replaces it with the cancel withdrawn, and nothing is sent. Returns
/// whether to send the cancel request; when it does, the book is kept.
pub fn cancel_review(
    book: &mut AlpacaPaperOrderBook,
    index: usize,
    reviewed: &AlpacaPaperOrder,
    fresh: AlpacaPaperOrder,
    now: String,
) -> (send: bool)
    requires
        index < old(book).orders@.len(),
    ensures
        !same_review(*reviewed, fresh) ==> !send && order_noted(
            *final(book),
            *old(book),
            index as int,
            now,
            "ORDER_CHANGED_REVIEW_AGAIN"@,
        ) && cancel_dropped(final(book).orders@[index as int], preserved(fresh, *reviewed), "ORDER_CHANGED_REVIEW_AGAIN"@),
        same_review(*reviewed, fresh) && !is_cancelable(preserved(fresh, *reviewed).provider_status@) ==> !send
            && order_noted(*final(book), *old(book), index as int, now, "ORDER_NOT_CANCELABLE"@) && cancel_dropped(
            final(book).orders@[index as int],
            preserved(fresh, *reviewed),
            "ORDER_NOT_CANCELABLE"@,
        ),
        same_review(*reviewed, fresh) && is_cancelable(preserved(fresh, *reviewed).provider_status@) ==> send
            && *final(book) == *old(book),
{
    let changed = !same_order_review(reviewed, &fresh);
    let mut kept = preserve_local_order_state(fresh, reviewed);
    let error = if changed {
        "ORDER_CHANGED_REVIEW_AGAIN"
    } else if !cancelable_status(kept.provider_status.as_str()) {
        "ORDER_NOT_CANCELABLE"
    } else {
        return true;
    };
    kept.cancel_state = AlpacaPaperCancelState::NotRequested;
    kept.cancel_idempotency_key = None;
    kept.cancel_error = Some(owned(error));
    book.orders.set(index, kept);
    book.observed_at = now;
    book.reason = Some(owned(error));
    false
}

/// A cancel reply that settles whether the broker took the request.
pub open spec fn definitive_cancel(s: u16) -> bool {
    s == 204 || s == 422 || s == 400 || s == 401 || s == 403 || s == 404 || s == 429
}

/// The error a refused cancel request leaves on its order.
pub open spec fn cancel_refusal(s: u16) -> Seq<char> {
    if s == 422 {
        "PROVIDER_CANCEL_REJECTED"@
    } else {
        alpaca_read_code(s)
    }
}

/// The `index`-th order after the reply to its cancel request (`status`,
/// or `None` when the request failed): a 204 reply leaves the cancel
/// pending without error; another definitive reply withdraws it with the
/// refusal; any other outcome may have reached the broker, so the cancel
/// stays pending with an unknown status and the book notes it. Returns the
/// definitive status, or `None` when the job stops there.
pub fn cancel_sent(book: &mut AlpacaPaperOrderBook, index: usize, status: Option<u16>, now: String) -> (r: Option<u16>)
    requires
        index < old(book).orders@.len(),
    ensures
        match status {
            Some(s) => if definitive_cancel(s) {
                r == Some(s) && *final(book) == (AlpacaPaperOrderBook { orders: final(book).orders, ..*old(book) })
                    && final(book).orders@ == old(book).orders@.update(index as int, final(book).orders@[index as int])
                    && if s == 204 {
                    final(book).orders@[index as int] == (AlpacaPaperOrder {
                        cancel_state: AlpacaPaperCancelState::Pending,
                        cancel_error: None,
                        ..old(book).orders@[index as int]
                    })
                } else {
                    cancel_dropped(final(book).orders@[index as int], old(book).orders@[index as int], cancel_refusal(s))
                }
            } else {
                r is None && cancel_left_unknown(*final(book), *old(book), index as int, now)
            },
            None => r is None && cancel_left_unknown(*final(book), *old(book), index as int, now),
        },
{
    let definitive = match status {
        Some(s) => s == 204 || s == 422 || s == 400 || s == 401 || s == 403 || s == 404 || s == 429,
        None => false,
    };
    let mut o = copy_order(&book.orders[index]);
    if !definitive {
        o.cancel_state = AlpacaPaperCancelState::Pending;
        o.cancel_error = Some(owned("ORDER_CANCEL_STATUS_UNKNOWN"));
        book.orders.set(index, o);
        book.observed_at = now;
        book.reason = Some(owned("ORDER_CANCEL_STATUS_UNKNOWN"));
        return None;
    }
    let s = match status {
        Some(s) => s,
        None => 0,
    };
    if s == 204 {
        o.cancel_state = AlpacaPaperCancelState::Pending;
        o.cancel_error = None;
    } else {
        o.cancel_state = AlpacaPaperCancelState::NotRequested;
        o.cancel_idempotency_key = None;
        o.cancel_error = Some(if s == 422 {
            owned("PROVIDER_CANCEL_REJECTED")
        } else {
            alpaca_read_error(s).code
        });
    }
    book.orders.set(index, o);
    Some(s)
}

/// The book after a cancel request whose outcome is unknown.
pub open spec fn cancel_left_unknown(after: AlpacaPaperOrderBook, before: AlpacaPaperOrderBook, i: int, now: String) -> bool {
    &&& order_noted(after, before, i, now, "ORDER_CANCEL_STATUS_UNKNOWN"@)
    &&& after.orders@[i] == (AlpacaPaperOrder {
        cancel_state: AlpacaPaperCancelState::Pending,
        cancel_error: after.orders@[i].cancel_error,
        ..before.orders@[i]
    })
    &&& text_is(after.orders@[i].cancel_error, "ORDER_CANCEL_STATUS_UNKNOWN"@)
}

/// `r` is the order read again after its cancel reply (`status`), with
/// the local state of `previous` kept: a terminal order has no cancel
/// left, with `PROVIDER_CANCEL_REJECTED` noted unless the cancel was
/// accepted (204); an open order whose cancel was accepted keeps it
/// pending.
pub open spec fn after_cancel(r: AlpacaPaperOrder, refreshed: AlpacaPaperOrder, previous: AlpacaPaperOrder, status: u16) -> bool {
    let p = preserved(refreshed, previous);
    if is_terminal(p.provider_status@) {
        &&& r == (AlpacaPaperOrder {
            cancel_state: AlpacaPaperCancelState::NotRequested,
            cancel_idempotency_key: None,
            cancel_error: r.cancel_error,
            ..p
        })
        &&& if status != 204 {
            text_is(r.cancel_error, "PROVIDER_CANCEL_REJECTED"@)
        } else {
            r.cancel_error is None
        }
    } else if status == 204 {
        r == (AlpacaPaperOrder { cancel_state: AlpacaPaperCancelState::Pending, ..p })
    } else {
        r == p
    }
}

/// The book after the order is read again following a definitive cancel
/// reply: the read order must still be the same order
/// (`PROVIDER_REVIEW_REQUIRED`, book kept) and replaces it (see
/// `after_cancel`, the refusal being `PROVIDER_CANCEL_REJECTED`); a failed
/// read degrades the book, with an unknown cancel status when the cancel
/// was accepted.
pub fn cancel_refreshed(
    book: &mut AlpacaPaperOrderBook,
    index: usize,
    status: u16,
    refreshed: Result<AlpacaPaperOrder, TradeXError>,
) -> (r: Result<(), TradeXError>)
    requires
        index < old(book).orders@.len(),
    ensures
        match refreshed {
            Ok(o) => if !same_identity(old(book).orders@[index as int], o) {
                (r matches Err(e) && e.code@ == "PROVIDER_REVIEW_REQUIRED"@) && *final(book) == *old(book)
            } else {
                r is Ok && *final(book) == (AlpacaPaperOrderBook { orders: final(book).orders, ..*old(book) })
                    && final(book).orders@ == old(book).orders@.update(index as int, final(book).orders@[index as int])
                    && after_cancel(final(book).orders@[index as int], o, old(book).orders@[index as int], status)
            },
            Err(e) => r is Ok && *final(book) == (AlpacaPaperOrderBook {
                status: AlpacaPaperOrderBookStatus::Degraded,
                reason: final(book).reason,
                ..*old(book)
            }) && text_is(final(book).reason, if status == 204 {
                "ORDER_CANCEL_STATUS_UNKNOWN"@
            } else {
                e.code@
            }),
        },
{
    match refreshed {
        Ok(o) => {
            if !same_order_identity(&book.orders[index], &o) {
                return Err(TradeXError::new("PROVIDER_REVIEW_REQUIRED"));
            }
            let mut p = preserve_local_order_state(o, &book.orders[index]);
            if is_terminal_order_status(p.provider_status.as_str()) {
                p.cancel_state = AlpacaPaperCancelState::NotRequested;
                p.cancel_idempotency_key = None;
                p.cancel_error = if status != 204 {
                    Some(owned("PROVIDER_CANCEL_REJECTED"))
                } else {
                    None
                };
            } else if status == 204 {
                p.cancel_state = AlpacaPaperCancelState::Pending;
            }
            book.orders.set(index, p);
            Ok(())
        },
        Err(e) => {
            book.status = AlpacaPaperOrderBookStatus::Degraded;
            book.reason = Some(if status == 204 {
                owned("ORDER_CANCEL_STATUS_UNKNOWN")
            } else {
                e.code
            });
            Ok(())
        },
    }
}

/// The book at the end of a cancel job: the fresh fills merged in,
/// observed at `now`, and stale until a full refresh unless it is already
/// degraded. A failed merge leaves the book as it was.
pub fn cancel_finish(book: &mut AlpacaPaperOrderBook, fills: Vec<AlpacaPaperFill>, now: String) -> (r: Result<(), TradeXError>)
    ensures
        match merged_fills(old(book).fills@, fills@) {
            Err(c) => (r matches Err(e) && e.code@ == c) && *final(book) == *old(book),
            Ok(m) => r is Ok && final(book).fills@ == sort_desc_fills(m) && if old(book).status
                == AlpacaPaperOrderBookStatus::Degraded {
                *final(book) == (AlpacaPaperOrderBook { fills: final(book).fills, observed_at: now, ..*old(book) })
            } else {
                *final(book) == (AlpacaPaperOrderBook {
                    fills: final(book).fills,
                    observed_at: now,
                    status: AlpacaPaperOrderBookStatus::Stale,
                    reason: final(book).reason,
                    ..*old(book)
                }) && text_is(final(book).reason, "FULL_ORDER_BOOK_REFRESH_REQUIRED"@)
            },
        },
{
    let merged = merge_fill_pages(&book.fills, fills)?;
    book.fills = merged;
    book.observed_at = now;
    if book.status != AlpacaPaperOrderBookStatus::Degraded {
        book.status = AlpacaPaperOrderBookStatus::Stale;
        book.reason = Some(owned("FULL_ORDER_BOOK_REFRESH_REQUIRED"));
    }
    Ok(())
}

/// Which part of the job runner carries out a job.
#[derive(Clone, Copy, Debug, PartialEq, Eq, Structural)]
pub enum JobRoute {
    /// Delete the stored credential.
    Disconnect,
    /// Submit or reconcile a paper-broker order.
    AlpacaOrder,
    /// Submit a demo-broker order.
    Trading212Order,
    /// Read the demo-broker order book.
    Trading212OrderBook,
    /// Refresh, review or cancel in the paper-broker order book.
    AlpacaOrderBook,
    /// Connect or probe: read the account.
    Observe,
}

pub open spec fn job_route(k: JobKind) -> JobRoute {
    match k {
        JobKind::Disconnect => JobRoute::Disconnect,
        JobKind::AlpacaPaperSubmit | JobKind::AlpacaPaperReconcile => JobRoute::AlpacaOrder,
        JobKind::Trading212DemoSubmit => JobRoute::Trading212Order,
        JobKind::Trading212DemoOrderBookPending | JobKind::Trading212DemoOrderBookHistory
        | JobKind::Trading212DemoOrderBookDetail => JobRoute::Trading212OrderBook,
        JobKind::AlpacaPaperOrderBookRefresh | JobKind::AlpacaPaperOrderReview
        | JobKind::AlpacaPaperOrderCancel => JobRoute::AlpacaOrderBook,
        JobKind::Connect | JobKind::Probe => JobRoute::Observe,
    }
}

/// Where a job of this kind is carried out.
pub fn route_job(kind: JobKind) -> (r: JobRoute)
    ensures
        r == job_route(kind),
{
    match kind {
        JobKind::Disconnect => JobRoute::Disconnect,
        JobKind::AlpacaPaperSubmit | JobKind::AlpacaPaperReconcile => JobRoute::AlpacaOrder,
        JobKind::Trading212DemoSubmit => JobRoute::Trading212Order,
        JobKind::Trading212DemoOrderBookPending | JobKind::Trading212DemoOrderBookHistory
        | JobKind::Trading212DemoOrderBookDetail => JobRoute::Trading212OrderBook,
        JobKind::AlpacaPaperOrderBookRefresh | JobKind::AlpacaPaperOrderReview
        | JobKind::AlpacaPaperOrderCancel => JobRoute::AlpacaOrderBook,
        JobKind::Connect | JobKind::Probe => JobRoute::Observe,
    }
}

/// The broker endpoint of a provider and environment, if the workspace
/// supports it.
pub open spec fn endpoint_of(provider_id: Seq<char>, environment: Seq<char>) -> Option<ProviderEndpoint> {
    if provider_id == "alpaca"@ && environment == "PAPER"@ {
        Some(ProviderEndpoint::AlpacaPaper)
    } else if provider_id == "trading212"@ && environment == "DEMO"@ {
        Some(ProviderEndpoint::Trading212Demo)
    } else if provider_id == "trading212"@ && environment == "LIVE"@ {
        Some(ProviderEndpoint::Trading212Live)
    } else if provider_id == "binance"@ && environment == "TESTNET"@ {
        Some(ProviderEndpoint::BinanceTestnet)
    } else if provider_id == "binance"@ && environment == "LIVE"@ {
        Some(ProviderEndpoint::BinanceLive)
    } else if provider_id == "bitget"@ && environment == "DEMO"@ {
        Some(ProviderEndpoint::BitgetDemo)
    } else if provider_id == "bitget"@ && environment == "LIVE"@ {
        Some(ProviderEndpoint::BitgetLive)
    } else {
        None
    }
}

/// The broker endpoint of a provider and environment;
/// `PROVIDER_UNSUPPORTED` for any other pair.
pub fn endpoint_for(provider_id: &str, environment: &str) -> (r: Result<ProviderEndpoint, TradeXError>)
    ensures
        match endpoint_of(provider_id@, environment@) {
            Some(e) => r == Ok::<ProviderEndpoint, TradeXError>(e),
            None => r matches Err(x) && x.code@ == "PROVIDER_UNSUPPORTED"@,
        },
{
    if str_eq(provider_id, "alpaca") && str_eq(environment, "PAPER") {
        Ok(ProviderEndpoint::AlpacaPaper)
    } else if str_eq(provider_id, "trading212") && str_eq(environment, "DEMO") {
        Ok(ProviderEndpoint::Trading212Demo)
    } else if str_eq(provider_id, "trading212") && str_eq(environment, "LIVE") {
        Ok(ProviderEndpoint::Trading212Live)
    } else if str_eq(provider_id, "binance") && str_eq(environment, "TESTNET") {
        Ok(ProviderEndpoint::BinanceTestnet)
    } else if str_eq(provider_id, "binance") && str_eq(environment, "LIVE") {
        Ok(ProviderEndpoint::BinanceLive)
    } else if str_eq(provider_id, "bitget") && str_eq(environment, "DEMO") {
        Ok(ProviderEndpoint::BitgetDemo)
    } else if str_eq(provider_id, "bitget") && str_eq(environment, "LIVE") {
        Ok(ProviderEndpoint::BitgetLive)
    } else {
        Err(TradeXError::new("PROVIDER_UNSUPPORTED"))
    }
}

/// The credential state a read of the account leaves: `INVALID` when the
/// broker refused the credentials; for a connect the workspace no longer
/// wants (`withdrawn`, with whether its credential was removed), `MISSING`
/// or `DELETE_PENDING`; otherwise `CONFIGURED` once the credential was
/// read, `MISSING` before.
pub open spec fn credential_state_of(configured: bool, withdrawn: Option<bool>, error_code: Option<Seq<char>>) -> Seq<char> {
    if error_code == Some("PROVIDER_AUTH_FAILED"@) {
        "INVALID"@
    } else {
        match withdrawn {
            Some(removed) => if removed {
                "MISSING"@
            } else {
                "DELETE_PENDING"@
            },
            None => if configured {
                "CONFIGURED"@
            } else {
                "MISSING"@
            },
        }
    }
}

/// The credential state after a connect or probe (see
/// `credential_state_of`).
pub fn observed_credential_state(configured: bool, withdrawn: Option<bool>, error_code: Option<&str>) -> (r: &'static str)
    ensures
        r@ == credential_state_of(configured, withdrawn, match error_code {
            Some(c) => Some(c@),
            None => None,
        }),
{
    let refused = match error_code {
        Some(c) => str_eq(c, "PROVIDER_AUTH_FAILED"),
        None => false,
    };
    if refused {
        return "INVALID";
    }
    match withdrawn {
        Some(true) => "MISSING",
        Some(false) => "DELETE_PENDING",
        None => if configured {
            "CONFIGURED"
        } else {
            "MISSING"
        },
    }
}

/// A read's JSON body, when it reflects none of the credentials
/// (`PROVIDER_RESPONSE_INVALID` otherwise, or when it is not JSON).
pub fn checked_body(body: Option<JsonValue>, secrets: &Vec<String>) -> (r: Result<JsonValue, TradeXError>)
    ensures
        match body {
            Some(v) => if holds_secret(v, secrets@) {
                r matches Err(e) && e.code@ == "PROVIDER_RESPONSE_INVALID"@
            } else {
                r == Ok::<JsonValue, TradeXError>(v)
            },
            None => r matches Err(e) && e.code@ == "PROVIDER_RESPONSE_INVALID"@,
        },
{
    match body {
        Some(v) => if contains_secret(&v, secrets) {
            Err(TradeXError::new("PROVIDER_RESPONSE_INVALID"))
        } else {
            Ok(v)
        },
        None => Err(TradeXError::new("PROVIDER_RESPONSE_INVALID")),
    }
}

/// The account a read observes: its identifier must be a UUID
/// (`PROVIDER_RESPONSE_INVALID`) and, when the connection already knew its
/// account, the same one (`PROVIDER_IDENTITY_CHANGED`). Returns the
/// identifier.
pub fn observed_account_id(account: &JsonValue, known: Option<&str>) -> (r: Result<String, TradeXError>)
    ensures
        match uuid_of(*account, "id"@) {
            None => r matches Err(e) && e.code@ == "PROVIDER_RESPONSE_INVALID"@,
            Some(id) => match known {
                Some(k) => if k@ != id {
                    r matches Err(e) && e.code@ == "PROVIDER_IDENTITY_CHANGED"@
                } else {
                    r matches Ok(t) && t@ == id
                },
                None => r matches Ok(t) && t@ == id,
            },
        },
{
    let id = id_field(account, "id")?;
    if let Some(k) = known {
        if !str_eq(k, id.as_str()) {
            return Err(TradeXError::new("PROVIDER_IDENTITY_CHANGED"));
        }
    }
    Ok(id)
}

/// The most open orders one account read collects.
pub const OPEN_ORDER_LIMIT: usize = 10000;

/// Why a page of open orders (read after orders with identifiers `seen`)
/// is refused: a row without a UUID identifier
/// (`PROVIDER_RESPONSE_INVALID`) or repeating one already seen
/// (`PROVIDER_DATA_INCOMPLETE`), the first such row deciding.
pub open spec fn page_rows_error(seen: Seq<Seq<char>>, rows: Seq<JsonValue>) -> Option<Seq<char>>
    decreases rows.len(),
{
    if rows.len() == 0 {
        None
    } else {
        match uuid_of(rows[0], "id"@) {
            None => Some("PROVIDER_RESPONSE_INVALID"@),
            Some(id) => if seen.contains(id) {
                Some("PROVIDER_DATA_INCOMPLETE"@)
            } else {
                page_rows_error(seen.push(id), rows.drop_first())
            },
        }
    }
}

/// The identifiers of the rows of a page, in order (for rows that have
/// one).
pub open spec fn page_ids(rows: Seq<JsonValue>) -> Seq<Seq<char>> {
    rows.map_values(|r: JsonValue| uuid_of(r, "id"@)->0)
}

proof fn lemma_page_step(seen: Seq<Seq<char>>, rows: Seq<JsonValue>, k: int)
    requires
        0 <= k < rows.len(),
        page_rows_error(seen + page_ids(rows.take(k)), rows.skip(k)) == page_rows_error(seen, rows),
        uuid_of(rows[k], "id"@) is Some,
        !(seen + page_ids(rows.take(k))).contains(uuid_of(rows[k], "id"@)->0),
    ensures
        page_rows_error(seen + page_ids(rows.take(k + 1)), rows.skip(k + 1)) == page_rows_error(seen, rows),
        page_ids(rows.take(k + 1)) == page_ids(rows.take(k)).push(uuid_of(rows[k], "id"@)->0),
{
    assert(rows.skip(k).drop_first() == rows.skip(k + 1));
    assert(rows.skip(k)[0] == rows[k]);
    assert(page_ids(rows.take(k + 1)) == page_ids(rows.take(k)).push(uuid_of(rows[k], "id"@)->0));
    assert((seen + page_ids(rows.take(k))).push(uuid_of(rows[k], "id"@)->0) == seen + page_ids(rows.take(k + 1)));
}

/// Takes one page of the open-order read: the body must be an array of at
/// most 500 rows (`PROVIDER_RESPONSE_INVALID`) whose rows pass
/// `page_rows_error`. The rows are collected and their identifiers noted.
/// Returns `None` after a short page (the last), else the identifier to
/// read after; a full page that brings the collection to the limit is
/// `PROVIDER_DATA_INCOMPLETE`.
#[verifier::loop_isolation(false)]
pub fn open_orders_page(
    collected: &mut Vec<JsonValue>,
    seen: &mut Vec<String>,
    page: JsonValue,
) -> (r: Result<Option<String>, TradeXError>)
    ensures
        match page {
            JsonValue::Array(rows) => if rows@.len() > 500 {
                r matches Err(e) && e.code@ == "PROVIDER_RESPONSE_INVALID"@
            } else {
                match page_rows_error(old(seen)@.map_values(|t: String| t@), rows@) {
                    Some(c) => r matches Err(e) && e.code@ == c,
                    None => {
                        &&& final(collected)@ == old(collected)@ + rows@
                        &&& final(seen)@.map_values(|t: String| t@) == old(seen)@.map_values(|t: String| t@)
                            + page_ids(rows@)
                        &&& if rows@.len() < 500 {
                            r matches Ok(None)
                        } else if final(collected)@.len() >= OPEN_ORDER_LIMIT {
                            r matches Err(e) && e.code@ == "PROVIDER_DATA_INCOMPLETE"@
                        } else {
                            r matches Ok(Some(c)) && c@ == page_ids(rows@).last()
                        }
                    },
                }
            },
            _ => r matches Err(e) && e.code@ == "PROVIDER_RESPONSE_INVALID"@,
        },
{
    let mut rows = match page {
        JsonValue::Array(rows) => rows,
        _ => return Err(TradeXError::new("PROVIDER_RESPONSE_INVALID")),
    };
    let n = rows.len();
    if n > 500 {
        return Err(TradeXError::new("PROVIDER_RESPONSE_INVALID"));
    }
    let ghost all = rows@;
    let ghost seen0 = seen@.map_values(|t: String| t@);
    let ghost collected0 = collected@;
    let mut cursor: Option<String> = None;
    let mut k: usize = 0;
    proof {
        assert(all.take(0) =~= Seq::<JsonValue>::empty());
        assert(page_ids(all.take(0)) =~= Seq::<Seq<char>>::empty());
        assert(seen0 + page_ids(all.take(0)) =~= seen0);
        assert(all.skip(0) =~= all);
    }
    while k < n
        invariant
            n == all.len(),
            k <= n,
            rows@ == all.skip(k as int),
            collected@ == collected0 + all.take(k as int),
            seen@.map_values(|t: String| t@) == seen0 + page_ids(all.take(k as int)),
            page_rows_error(seen0 + page_ids(all.take(k as int)), all.skip(k as int)) == page_rows_error(seen0, all),
            k > 0 ==> (cursor matches Some(c) && c@ == page_ids(all.take(k as int)).last()),
        decreases n - k,
    {
        let row = rows.remove(0);
        assert(row == all[k as int]);
        assert(rows@ == all.skip(k + 1));
        let id = match id_field(&row, "id") {
            Ok(id) => id,
            Err(e) => {
                assert(all.skip(k as int)[0] == all[k as int]);
                return Err(e);
            },
        };
        let mut j: usize = 0;
        while j < seen.len()
            invariant
                j <= seen@.len(),
                forall|i: int| 0 <= i < j ==> (#[trigger] seen@[i])@ != id@,
            decreases seen@.len() - j,
        {
            if str_eq(seen[j].as_str(), id.as_str()) {
                proof {
                    let sv = seen@.map_values(|t: String| t@);
                    assert(sv[j as int] == id@);
                    assert(sv.contains(id@));
                    assert(all.skip(k as int)[0] == all[k as int]);
                }
                return Err(TradeXError::new("PROVIDER_DATA_INCOMPLETE"));
            }
            j = j + 1;
        }
        proof {
            let sv = seen@.map_values(|t: String| t@);
            assert(!sv.contains(id@)) by {
                if sv.contains(id@) {
                    let i = choose|i: int| 0 <= i < sv.len() && sv[i] == id@;
                    assert(seen@[i]@ == id@);
                }
            }
            lemma_page_step(seen0, all, k as int);
            assert(all.take(k + 1) == all.take(k as int).push(all[k as int]));
        }
        let ghost before = seen@;
        seen.push(id.clone());
        proof {
            assert(seen@.map_values(|t: String| t@) =~= before.map_values(|t: String| t@).push(id@));
        }
        cursor = Some(id);
        collected.push(row);
        k = k + 1;
    }
    assert(all.take(n as int) == all);
    if n < 500 {
        return Ok(None);
    }
    if collected.len() >= OPEN_ORDER_LIMIT {
        return Err(TradeXError::new("PROVIDER_DATA_INCOMPLETE"));
    }
    Ok(cursor)
}

/// The instrument a broker symbol stands for in `table`, pairs of broker
/// symbol and instrument identifier (from the `i`-th pair on; the first
/// pair for the symbol counts).
pub open spec fn instrument_in(table: Seq<(String, String)>, symbol: Option<Seq<char>>, i: int) -> Option<String>
    decreases table.len() - i,
{
    if i < 0 || i >= table.len() {
        None
    } else if symbol == Some(table[i].0@) {
        Some(table[i].1)
    } else {
        instrument_in(table, symbol, i + 1)
    }
}

/// The instrument of a row's `symbol` member in `table`.
pub open spec fn row_instrument(table: Seq<(String, String)>, row: JsonValue) -> Option<String> {
    instrument_in(table, str_of(field_of(row, "symbol"@)), 0)
}

fn instrument_for(table: &Vec<(String, String)>, row: &JsonValue) -> (r: Option<String>)
    ensures
        r == row_instrument(table@, *row),
{
    let symbol = as_text(get(row, "symbol"));
    let mut i: usize = 0;
    while i < table.len()
        invariant
            i <= table@.len(),
            instrument_in(table@, str_of(field_of(*row, "symbol"@)), 0) == instrument_in(
                table@,
                str_of(field_of(*row, "symbol"@)),
                i as int,
            ),
            match symbol {
                Some(t) => str_of(field_of(*row, "symbol"@)) == Some(t@),
                None => str_of(field_of(*row, "symbol"@)) is None,
            },
        decreases table@.len() - i,
    {
        if let Some(t) = symbol {
            if str_eq(table[i].0.as_str(), t.as_str()) {
                return Some(table[i].1.clone());
            }
        }
        i = i + 1;
    }
    None
}

/// Rows per page of the paper-broker order and fill reads.
pub const PAGE_SIZE: usize = 100;

/// The most orders one order-history read keeps.
pub const ORDER_HISTORY_LIMIT: usize = 500;

/// The most pages one order-history read takes.
pub const ORDER_HISTORY_PAGES: usize = 6;

/// The most fills one fill read keeps.
pub const FILL_LIMIT: usize = 1000;

/// The most pages one fill read takes.
pub const FILL_PAGES: usize = 11;

/// Replacing the parsed orders one after the other (see `replaced`).
pub open spec fn replaced_all(acc: Seq<AlpacaPaperOrder>, parsed: Seq<AlpacaPaperOrder>) -> Result<Seq<AlpacaPaperOrder>, Seq<char>>
    decreases parsed.len(),
{
    if parsed.len() == 0 {
        Ok(acc)
    } else {
        match replaced_all(acc, parsed.drop_last()) {
            Ok(v) => replaced(v, parsed.last()),
            Err(c) => Err(c),
        }
    }
}

/// After each replacement the book holds at most `limit` orders.
pub open spec fn orders_within(acc: Seq<AlpacaPaperOrder>, parsed: Seq<AlpacaPaperOrder>, limit: int) -> bool
    decreases parsed.len(),
{
    parsed.len() == 0 || (orders_within(acc, parsed.drop_last(), limit) && (replaced_all(acc, parsed) matches Ok(
        v,
    ) ==> v.len() <= limit))
}

/// Inserting the parsed fills one after the other (see `fill_inserted`).
pub open spec fn inserted_all(acc: Seq<AlpacaPaperFill>, parsed: Seq<AlpacaPaperFill>) -> Result<Seq<AlpacaPaperFill>, Seq<char>>
    decreases parsed.len(),
{
    if parsed.len() == 0 {
        Ok(acc)
    } else {
        match inserted_all(acc, parsed.drop_last()) {
            Ok(v) => fill_inserted(v, parsed.last()),
            Err(c) => Err(c),
        }
    }
}

/// After each insertion the list holds at most `limit` fills.
pub open spec fn fills_within(acc: Seq<AlpacaPaperFill>, parsed: Seq<AlpacaPaperFill>, limit: int) -> bool
    decreases parsed.len(),
{
    parsed.len() == 0 || (fills_within(acc, parsed.drop_last(), limit) && (inserted_all(acc, parsed) matches Ok(
        v,
    ) ==> v.len() <= limit))
}

/// What the page of a paged read leaves to do.
pub open spec fn page_next(
    rows: Seq<JsonValue>,
    next: Seq<char>,
    old_cursors: Seq<String>,
    new_cursors: Seq<String>,
    before: Option<Seq<char>>,
    page: usize,
    pages: usize,
    r: Option<String>,
) -> bool {
    if rows.len() < PAGE_SIZE {
        r is None && new_cursors == old_cursors
    } else {
        &&& r matches Some(c) && c@ == next
        &&& forall|i: int| 0 <= i < old_cursors.len() ==> (#[trigger] old_cursors[i])@ != next
        &&& before != Some(next)
        &&& page + 1 < pages
        &&& new_cursors == old_cursors.push(r->0)
    }
}

fn known_cursor(cursors: &Vec<String>, c: &str) -> (r: bool)
    ensures
        r == exists|i: int| 0 <= i < cursors@.len() && (#[trigger] cursors@[i])@ == c@,
{
    let mut i: usize = 0;
    while i < cursors.len()
        invariant
            i <= cursors@.len(),
            forall|j: int| 0 <= j < i ==> (#[trigger] cursors@[j])@ != c@,
        decreases cursors@.len() - i,
    {
        if str_eq(cursors[i].as_str(), c) {
            return true;
        }
        i = i + 1;
    }
    false
}

/// The order a row is read as (any order read from it; all agree on what
/// the book merge reads, see `lemma_parsed_order_key`).
pub open spec fn order_of_row(row: JsonValue, observed_at: Seq<char>, table: Seq<(String, String)>) -> AlpacaPaperOrder {
    choose|o: AlpacaPaperOrder| order_parsed(o, row, observed_at, row_instrument(table, row))
}

/// Reading a page's rows into a book, one after the other: each row must be
/// an order (`PROVIDER_RESPONSE_INVALID`), must merge (see `replaced`), and
/// the book may never hold more than `limit` orders
/// (`PROVIDER_RESPONSE_INCOMPLETE`).
pub open spec fn history_fold(
    acc: Seq<AlpacaPaperOrder>,
    rows: Seq<JsonValue>,
    observed_at: Seq<char>,
    table: Seq<(String, String)>,
    limit: int,
) -> Result<Seq<AlpacaPaperOrder>, Seq<char>>
    decreases rows.len(),
{
    if rows.len() == 0 {
        Ok(acc)
    } else if !order_accepted(rows[0]) {
        Err("PROVIDER_RESPONSE_INVALID"@)
    } else {
        match replaced(acc, order_of_row(rows[0], observed_at, table)) {
            Err(c) => Err(c),
            Ok(v) => if v.len() > limit {
                Err("PROVIDER_RESPONSE_INCOMPLETE"@)
            } else {
                history_fold(v, rows.drop_first(), observed_at, table, limit)
            },
        }
    }
}

/// Two outcomes of a book merge agree: both fail with one code, or both
/// succeed with lists that agree on what the merge reads.
pub open spec fn orders_agree(x: Result<Seq<AlpacaPaperOrder>, Seq<char>>, y: Result<Seq<AlpacaPaperOrder>, Seq<char>>) -> bool {
    match (x, y) {
        (Ok(a), Ok(b)) => order_keys_eq(a, b),
        (Err(c), Err(d)) => c == d,
        _ => false,
    }
}

proof fn lemma_order_keys_refl(a: Seq<AlpacaPaperOrder>)
    ensures
        order_keys_eq(a, a),
{
}

proof fn lemma_orders_agree_trans(
    x: Result<Seq<AlpacaPaperOrder>, Seq<char>>,
    y: Result<Seq<AlpacaPaperOrder>, Seq<char>>,
    z: Result<Seq<AlpacaPaperOrder>, Seq<char>>,
)
    requires
        orders_agree(x, y),
        orders_agree(z, y),
    ensures
        orders_agree(x, z),
{
    if x is Ok {
        let a = x->Ok_0;
        let b = y->Ok_0;
        let c = z->Ok_0;
        assert forall|i: int| 0 <= i < a.len() implies order_key_eq(#[trigger] a[i], c[i]) by {
            assert(order_key_eq(a[i], b[i]));
            assert(order_key_eq(c[i], b[i]));
        }
    }
}

proof fn lemma_history_fold_keys(
    a1: Seq<AlpacaPaperOrder>,
    a2: Seq<AlpacaPaperOrder>,
    rows: Seq<JsonValue>,
    observed_at: Seq<char>,
    table: Seq<(String, String)>,
    limit: int,
)
    requires
        order_keys_eq(a1, a2),
    ensures
        orders_agree(history_fold(a1, rows, observed_at, table, limit), history_fold(a2, rows, observed_at, table, limit)),
    decreases rows.len(),
{
    if rows.len() > 0 && order_accepted(rows[0]) {
        let p = order_of_row(rows[0], observed_at, table);
        lemma_replaced_keys(a1, a2, p, p);
        match (replaced(a1, p), replaced(a2, p)) {
            (Ok(v1), Ok(v2)) => {
                lemma_history_fold_keys(v1, v2, rows.drop_first(), observed_at, table, limit);
            },
            _ => {},
        }
    }
}

/// Whether a page of a paged read leaves a next page to read: a short page
/// ends the read; after a full one the next cursor must be new among the
/// cursors seen, differ from the one the page was read after, and a page
/// must be left within `pages`.
pub open spec fn page_continues(
    rows: Seq<JsonValue>,
    next: Seq<char>,
    cursors: Seq<String>,
    before: Option<Seq<char>>,
    page: usize,
    pages: usize,
) -> bool {
    rows.len() < PAGE_SIZE || ((forall|i: int| 0 <= i < cursors.len() ==> (#[trigger] cursors[i])@ != next) && before
        != Some(next) && page + 1 < pages)
}

/// Takes one page of the order-history read (its body already checked):
/// an array of at most 100 rows (`PROVIDER_RESPONSE_INVALID` for another
/// value, `PROVIDER_RESPONSE_INCOMPLETE` for more rows). Each row is read
/// as an order (its instrument looked up in `instruments` by symbol) and
/// replaces its copy in `orders`, which may never hold more than 500. A
/// short page ends the read; after a full one the last order's identifier
/// is the next cursor, which must be new and leave a page to read
/// (`PROVIDER_RESPONSE_INCOMPLETE`). Any failure is one of those two codes.
#[verifier::loop_isolation(false)]
pub fn order_history_page(
    orders: &mut Vec<AlpacaPaperOrder>,
    cursors: &mut Vec<String>,
    before: Option<&str>,
    page: usize,
    body: JsonValue,
    observed_at: &str,
    instruments: &Vec<(String, String)>,
) -> (r: Result<Option<String>, TradeXError>)
    ensures
        r matches Err(e) ==> e.code@ == "PROVIDER_RESPONSE_INVALID"@ || e.code@ == "PROVIDER_RESPONSE_INCOMPLETE"@,
        !(body is Array) ==> (r matches Err(e) && e.code@ == "PROVIDER_RESPONSE_INVALID"@),
        body matches JsonValue::Array(rows) ==> if rows@.len() > PAGE_SIZE {
            r matches Err(e) && e.code@ == "PROVIDER_RESPONSE_INCOMPLETE"@
        } else {
            match history_fold(old(orders)@, rows@, observed_at@, instruments@, ORDER_HISTORY_LIMIT as int) {
                Err(c) => r matches Err(e) && e.code@ == c,
                Ok(v) => {
                    &&& (r is Ok <==> page_continues(
                        rows@,
                        uuid_of(rows@.last(), "id"@)->0,
                        old(cursors)@,
                        match before {
                            Some(b) => Some(b@),
                            None => None,
                        },
                        page,
                        ORDER_HISTORY_PAGES,
                    ))
                    &&& (r is Ok ==> order_keys_eq(final(orders)@, v))
                },
            }
        },
        body matches JsonValue::Array(rows) ==> (r matches Ok(next) ==> exists|
            parsed: Seq<AlpacaPaperOrder>,
        |
            {
                &&& parsed.len() == rows@.len()
                &&& forall|k: int|
                    0 <= k < rows@.len() ==> order_parsed(
                        #[trigger] parsed[k],
                        rows@[k],
                        observed_at@,
                        row_instrument(instruments@, rows@[k]),
                    )
                &&& replaced_all(old(orders)@, parsed) == Ok::<Seq<AlpacaPaperOrder>, Seq<char>>(final(orders)@)
                &&& orders_within(old(orders)@, parsed, ORDER_HISTORY_LIMIT as int)
                &&& page_next(
                    rows@,
                    uuid_of(rows@.last(), "id"@)->0,
                    old(cursors)@,
                    final(cursors)@,
                    match before {
                        Some(b) => Some(b@),
                        None => None,
                    },
                    page,
                    ORDER_HISTORY_PAGES,
                    next,
                )
            }),
{
    let rows = match body {
        JsonValue::Array(rows) => rows,
        _ => return Err(TradeXError::new("PROVIDER_RESPONSE_INVALID")),
    };
    if rows.len() > PAGE_SIZE {
        return Err(TradeXError::new("PROVIDER_RESPONSE_INCOMPLETE"));
    }
    let ghost start = orders@;
    let ghost total = history_fold(start, rows@, observed_at@, instruments@, ORDER_HISTORY_LIMIT as int);
    let ghost mut parsed: Seq<AlpacaPaperOrder> = Seq::empty();
    let mut cursor: Option<String> = None;
    let mut k: usize = 0;
    proof {
        assert(rows@.skip(0) =~= rows@);
        lemma_order_keys_refl(start);
        lemma_history_fold_keys(start, start, rows@, observed_at@, instruments@, ORDER_HISTORY_LIMIT as int);
    }
    while k < rows.len()
        invariant
            k <= rows@.len(),
            parsed.len() == k,
            forall|j: int|
                0 <= j < k ==> order_parsed(
                    #[trigger] parsed[j],
                    rows@[j],
                    observed_at@,
                    row_instrument(instruments@, rows@[j]),
                ),
            replaced_all(start, parsed) == Ok::<Seq<AlpacaPaperOrder>, Seq<char>>(orders@),
            orders_within(start, parsed, ORDER_HISTORY_LIMIT as int),
            k > 0 ==> (cursor matches Some(c) && c@ == uuid_of(rows@[k - 1], "id"@)->0),
            orders_agree(
                total,
                history_fold(orders@, rows@.skip(k as int), observed_at@, instruments@, ORDER_HISTORY_LIMIT as int),
            ),
        decreases rows@.len() - k,
    {
        let ghost before_orders = orders@;
        let ghost rest = rows@.skip(k as int);
        proof {
            assert(rest[0] == rows@[k as int]);
            assert(rest.drop_first() =~= rows@.skip(k + 1));
        }
        let instrument = instrument_for(instruments, &rows[k]);
        let order = match parse_alpaca_order(&rows[k], observed_at, instrument) {
            Ok(o) => o,
            Err(e) => {
                return Err(e);
            },
        };
        let id = order.provider_order_id.clone();
        let ghost o = order;
        let ghost p = order_of_row(rows@[k as int], observed_at@, instruments@);
        proof {
            assert(order_parsed(o, rows@[k as int], observed_at@, row_instrument(instruments@, rows@[k as int])));
            lemma_parsed_order_key(o, p, rows@[k as int], observed_at@, row_instrument(instruments@, rows@[k as int]));
            lemma_order_keys_refl(before_orders);
            lemma_replaced_keys(before_orders, before_orders, o, p);
        }
        match replace_order(orders, order) {
            Ok(()) => {},
            Err(e) => {
                return Err(e);
            },
        }
        proof {
            let p2 = parsed.push(o);
            assert(p2.drop_last() =~= parsed);
            parsed = p2;
        }
        cursor = Some(id);
        if orders.len() > ORDER_HISTORY_LIMIT {
            return Err(TradeXError::new("PROVIDER_RESPONSE_INCOMPLETE"));
        }
        proof {
            let v2 = replaced(before_orders, p)->Ok_0;
            lemma_history_fold_keys(
                orders@,
                v2,
                rows@.skip(k + 1),
                observed_at@,
                instruments@,
                ORDER_HISTORY_LIMIT as int,
            );
            lemma_orders_agree_trans(
                total,
                history_fold(v2, rows@.skip(k + 1), observed_at@, instruments@, ORDER_HISTORY_LIMIT as int),
                history_fold(orders@, rows@.skip(k + 1), observed_at@, instruments@, ORDER_HISTORY_LIMIT as int),
            );
        }
        k = k + 1;
    }
    proof {
        assert(rows@.skip(k as int) =~= Seq::<JsonValue>::empty());
    }
    if rows.len() < PAGE_SIZE {
        return Ok(None);
    }
    let next = match cursor {
        Some(c) => c,
        None => return Err(TradeXError::new("PROVIDER_RESPONSE_INCOMPLETE")),
    };
    let repeated = match before {
        Some(b) => str_eq(b, next.as_str()),
        None => false,
    };
    if known_cursor(cursors, next.as_str()) || repeated {
        return Err(TradeXError::new("PROVIDER_RESPONSE_INCOMPLETE"));
    }
    if page >= ORDER_HISTORY_PAGES - 1 {
        return Err(TradeXError::new("PROVIDER_RESPONSE_INCOMPLETE"));
    }
    cursors.push(next.clone());
    Ok(Some(next))
}

/// The fill a REST activity row is read as (see `fill_parsed`).
pub open spec fn row_fill(f: AlpacaPaperFill, row: JsonValue, observed_at: Seq<char>, instrument_id: Option<String>) -> bool {
    fill_parsed(
        f,
        field_of(row, "id"@),
        field_of(row, "order_id"@),
        field_of(row, "symbol"@),
        field_of(row, "side"@),
        field_of(row, "qty"@),
        field_of(row, "price"@),
        field_of(row, "transaction_time"@),
        observed_at,
        AlpacaPaperFillSource::RestActivity,
        instrument_id,
    )
}

/// The members of a REST activity row are accepted (see `fill_accepted`).
pub open spec fn row_fill_accepted(row: JsonValue) -> bool {
    fill_accepted(
        field_of(row, "id"@),
        field_of(row, "order_id"@),
        field_of(row, "symbol"@),
        field_of(row, "side"@),
        field_of(row, "qty"@),
        field_of(row, "price"@),
        field_of(row, "transaction_time"@),
        AlpacaPaperFillSource::RestActivity,
    )
}

/// The fill a REST activity row is read as (any fill read from it; all
/// agree on what the fill merge reads, see `lemma_parsed_fill_key`).
pub open spec fn fill_of_row(row: JsonValue, observed_at: Seq<char>, table: Seq<(String, String)>) -> AlpacaPaperFill {
    choose|f: AlpacaPaperFill| row_fill(f, row, observed_at, row_instrument(table, row))
}

/// Reading a page's rows into a fill list, one after the other: each row
/// must be a fill (`PROVIDER_RESPONSE_INVALID`), must merge (see
/// `fill_inserted`), and the list may never hold more than `limit` fills
/// (`PROVIDER_RESPONSE_INCOMPLETE`).
pub open spec fn fill_fold(
    acc: Seq<AlpacaPaperFill>,
    rows: Seq<JsonValue>,
    observed_at: Seq<char>,
    table: Seq<(String, String)>,
    limit: int,
) -> Result<Seq<AlpacaPaperFill>, Seq<char>>
    decreases rows.len(),
{
    if rows.len() == 0 {
        Ok(acc)
    } else if !row_fill_accepted(rows[0]) {
        Err("PROVIDER_RESPONSE_INVALID"@)
    } else {
        match fill_inserted(acc, fill_of_row(rows[0], observed_at, table)) {
            Err(c) => Err(c),
            Ok(v) => if v.len() > limit {
                Err("PROVIDER_RESPONSE_INCOMPLETE"@)
            } else {
                fill_fold(v, rows.drop_first(), observed_at, table, limit)
            },
        }
    }
}

/// Two outcomes of a fill merge agree: both fail with one code, or both
/// succeed with lists that agree on what the merge reads.
pub open spec fn fills_agree(x: Result<Seq<AlpacaPaperFill>, Seq<char>>, y: Result<Seq<AlpacaPaperFill>, Seq<char>>) -> bool {
    match (x, y) {
        (Ok(a), Ok(b)) => fill_keys_eq(a, b),
        (Err(c), Err(d)) => c == d,
        _ => false,
    }
}

proof fn lemma_fill_keys_refl(a: Seq<AlpacaPaperFill>)
    ensures
        fill_keys_eq(a, a),
{
}

proof fn lemma_fills_agree_trans(
    x: Result<Seq<AlpacaPaperFill>, Seq<char>>,
    y: Result<Seq<AlpacaPaperFill>, Seq<char>>,
    z: Result<Seq<AlpacaPaperFill>, Seq<char>>,
)
    requires
        fills_agree(x, y),
        fills_agree(z, y),
    ensures
        fills_agree(x, z),
{
    if x is Ok {
        let a = x->Ok_0;
        let b = y->Ok_0;
        let c = z->Ok_0;
        assert forall|i: int| 0 <= i < a.len() implies fill_key_eq(#[trigger] a[i], c[i]) by {
            assert(fill_key_eq(a[i], b[i]));
            assert(fill_key_eq(c[i], b[i]));
        }
    }
}

proof fn lemma_fill_fold_keys(
    a1: Seq<AlpacaPaperFill>,
    a2: Seq<AlpacaPaperFill>,
    rows: Seq<JsonValue>,
    observed_at: Seq<char>,
    table: Seq<(String, String)>,
    limit: int,
)
    requires
        fill_keys_eq(a1, a2),
    ensures
        fills_agree(fill_fold(a1, rows, observed_at, table, limit), fill_fold(a2, rows, observed_at, table, limit)),
    decreases rows.len(),
{
    if rows.len() > 0 && row_fill_accepted(rows[0]) {
        let p = fill_of_row(rows[0], observed_at, table);
        lemma_fill_inserted_keys(a1, a2, p, p);
        match (fill_inserted(a1, p), fill_inserted(a2, p)) {
            (Ok(v1), Ok(v2)) => {
                lemma_fill_fold_keys(v1, v2, rows.drop_first(), observed_at, table, limit);
            },
            _ => {},
        }
    }
}

/// Takes one page of the fill read (its body already checked): an array
/// of at most 100 rows (`PROVIDER_RESPONSE_INVALID` for another value,
/// `PROVIDER_RESPONSE_INCOMPLETE` for more rows). Each row is read as a
/// REST fill (its instrument looked up in `instruments` by symbol) and
/// inserted into `fills`, which may never hold more than 1000. A short
/// page ends the read; after a full one the last fill's activity
/// identifier is the next page token, which must be new and leave a page
/// to read (`PROVIDER_RESPONSE_INCOMPLETE`). Any failure is one of those
/// two codes.
#[verifier::loop_isolation(false)]
pub fn fill_page(
    fills: &mut Vec<AlpacaPaperFill>,
    cursors: &mut Vec<String>,
    before: Option<&str>,
    page: usize,
    body: JsonValue,
    observed_at: &str,
    instruments: &Vec<(String, String)>,
) -> (r: Result<Option<String>, TradeXError>)
    ensures
        r matches Err(e) ==> e.code@ == "PROVIDER_RESPONSE_INVALID"@ || e.code@ == "PROVIDER_RESPONSE_INCOMPLETE"@,
        !(body is Array) ==> (r matches Err(e) && e.code@ == "PROVIDER_RESPONSE_INVALID"@),
        body matches JsonValue::Array(rows) ==> if rows@.len() > PAGE_SIZE {
            r matches Err(e) && e.code@ == "PROVIDER_RESPONSE_INCOMPLETE"@
        } else {
            match fill_fold(old(fills)@, rows@, observed_at@, instruments@, FILL_LIMIT as int) {
                Err(c) => r matches Err(e) && e.code@ == c,
                Ok(v) => {
                    &&& (r is Ok <==> page_continues(
                        rows@,
                        text_of(rows@.last(), "id"@, 128)->0,
                        old(cursors)@,
                        match before {
                            Some(b) => Some(b@),
                            None => None,
                        },
                        page,
                        FILL_PAGES,
                    ))
                    &&& (r is Ok ==> fill_keys_eq(final(fills)@, v))
                },
            }
        },
        body matches JsonValue::Array(rows) ==> (r matches Ok(next) ==> exists|
            parsed: Seq<AlpacaPaperFill>,
        |
            {
                &&& parsed.len() == rows@.len()
                &&& forall|k: int|
                    0 <= k < rows@.len() ==> row_fill(
                        #[trigger] parsed[k],
                        rows@[k],
                        observed_at@,
                        row_instrument(instruments@, rows@[k]),
                    )
                &&& inserted_all(old(fills)@, parsed) == Ok::<Seq<AlpacaPaperFill>, Seq<char>>(final(fills)@)
                &&& fills_within(old(fills)@, parsed, FILL_LIMIT as int)
                &&& page_next(
                    rows@,
                    text_of(rows@.last(), "id"@, 128)->0,
                    old(cursors)@,
                    final(cursors)@,
                    match before {
                        Some(b) => Some(b@),
                        None => None,
                    },
                    page,
                    FILL_PAGES,
                    next,
                )
            }),
{
    let rows = match body {
        JsonValue::Array(rows) => rows,
        _ => return Err(TradeXError::new("PROVIDER_RESPONSE_INVALID")),
    };
    if rows.len() > PAGE_SIZE {
        return Err(TradeXError::new("PROVIDER_RESPONSE_INCOMPLETE"));
    }
    let ghost start = fills@;
    let ghost total = fill_fold(start, rows@, observed_at@, instruments@, FILL_LIMIT as int);
    let ghost mut parsed: Seq<AlpacaPaperFill> = Seq::empty();
    let mut cursor: Option<String> = None;
    let mut k: usize = 0;
    proof {
        assert(rows@.skip(0) =~= rows@);
        lemma_fill_keys_refl(start);
        lemma_fill_fold_keys(start, start, rows@, observed_at@, instruments@, FILL_LIMIT as int);
    }
    while k < rows.len()
        invariant
            k <= rows@.len(),
            parsed.len() == k,
            forall|j: int|
                0 <= j < k ==> row_fill(#[trigger] parsed[j], rows@[j], observed_at@, row_instrument(instruments@, rows@[j])),
            inserted_all(start, parsed) == Ok::<Seq<AlpacaPaperFill>, Seq<char>>(fills@),
            fills_within(start, parsed, FILL_LIMIT as int),
            k > 0 ==> (cursor matches Some(c) && c@ == text_of(rows@[k - 1], "id"@, 128)->0),
            fills_agree(total, fill_fold(fills@, rows@.skip(k as int), observed_at@, instruments@, FILL_LIMIT as int)),
        decreases rows@.len() - k,
    {
        let ghost before_fills = fills@;
        let ghost rest = rows@.skip(k as int);
        proof {
            assert(rest[0] == rows@[k as int]);
            assert(rest.drop_first() =~= rows@.skip(k + 1));
        }
        let instrument = instrument_for(instruments, &rows[k]);
        let fill = match parse_alpaca_fill(&rows[k], observed_at, AlpacaPaperFillSource::RestActivity, instrument) {
            Ok(f) => f,
            Err(e) => {
                return Err(e);
            },
        };
        let id = fill.activity_id.clone();
        let ghost f = fill;
        let ghost p = fill_of_row(rows@[k as int], observed_at@, instruments@);
        proof {
            let row = rows@[k as int];
            assert(row_fill(f, row, observed_at@, row_instrument(instruments@, row)));
            lemma_parsed_fill_key(
                f,
                p,
                field_of(row, "id"@),
                field_of(row, "order_id"@),
                field_of(row, "symbol"@),
                field_of(row, "side"@),
                field_of(row, "qty"@),
                field_of(row, "price"@),
                field_of(row, "transaction_time"@),
                observed_at@,
                AlpacaPaperFillSource::RestActivity,
                row_instrument(instruments@, row),
            );
            lemma_fill_keys_refl(before_fills);
            lemma_fill_inserted_keys(before_fills, before_fills, f, p);
        }
        match insert_fill(fills, fill) {
            Ok(()) => {},
            Err(e) => {
                return Err(e);
            },
        }
        proof {
            let p2 = parsed.push(f);
            assert(p2.drop_last() =~= parsed);
            parsed = p2;
        }
        cursor = Some(id);
        if fills.len() > FILL_LIMIT {
            return Err(TradeXError::new("PROVIDER_RESPONSE_INCOMPLETE"));
        }
        proof {
            let v2 = fill_inserted(before_fills, p)->Ok_0;
            lemma_fill_fold_keys(fills@, v2, rows@.skip(k + 1), observed_at@, instruments@, FILL_LIMIT as int);
            lemma_fills_agree_trans(
                total,
                fill_fold(v2, rows@.skip(k + 1), observed_at@, instruments@, FILL_LIMIT as int),
                fill_fold(fills@, rows@.skip(k + 1), observed_at@, instruments@, FILL_LIMIT as int),
            );
        }
        k = k + 1;
    }
    proof {
        assert(rows@.skip(k as int) =~= Seq::<JsonValue>::empty());
    }
    if rows.len() < PAGE_SIZE {
        return Ok(None);
    }
    let next = match cursor {
        Some(c) => c,
        None => return Err(TradeXError::new("PROVIDER_RESPONSE_INCOMPLETE")),
    };
    let repeated = match before {
        Some(b) => str_eq(b, next.as_str()),
        None => false,
    };
    if known_cursor(cursors, next.as_str()) || repeated {
        return Err(TradeXError::new("PROVIDER_RESPONSE_INCOMPLETE"));
    }
    if page >= FILL_PAGES - 1 {
        return Err(TradeXError::new("PROVIDER_RESPONSE_INCOMPLETE"));
    }
    cursors.push(next.clone());
    Ok(Some(next))
}

/// A demo order book after a failed job: degraded for `code`, observed at
/// `now` when the clock could be read; nothing else changes.
pub fn degrade_demo_book(book: &mut Trading212DemoOrderBook, code: &str, now: Option<String>)
    ensures
        *final(book) == (Trading212DemoOrderBook {
            status: Trading212DemoOrderBookStatus::Degraded,
            reason: final(book).reason,
            observed_at: match now {
                Some(t) => t,
                None => old(book).observed_at,
            },
            ..*old(book)
        }),
        final(book).reason matches Some(r) && r@ == code@,
{
    book.status = Trading212DemoOrderBookStatus::Degraded;
    book.reason = Some(owned(code));
    if let Some(t) = now {
        book.observed_at = t;
    }
}

/// A demo order-book job is bound to its book: the connection is the demo
/// broker's, the book is its demo book (same connection, workspace and
/// remote account as the connection knows), and the job reads pending
/// orders, history or one order's detail.
pub open spec fn demo_book_bound(account: AccountConnection, book: Trading212DemoOrderBook, kind: JobKind) -> bool {
    &&& account.provider_id@ == "trading212"@
    &&& account.environment@ == "DEMO"@
    &&& book.environment@ == "DEMO"@
    &&& book.connection_id@ == account.connection_id@
    &&& book.workspace_id@ == account.workspace_id@
    &&& account.data matches Some(d) && d.remote_account_id@ == book.remote_account_id@
    &&& (kind == JobKind::Trading212DemoOrderBookPending || kind == JobKind::Trading212DemoOrderBookHistory || kind
        == JobKind::Trading212DemoOrderBookDetail)
}

/// Checks that a demo order-book job is bound to its book (see
/// `demo_book_bound`); `PROVIDER_UNSUPPORTED` otherwise.
pub fn demo_book_binding(account: &AccountConnection, book: &Trading212DemoOrderBook, kind: JobKind) -> (r: Result<(), TradeXError>)
    ensures
        r is Ok <==> demo_book_bound(*account, *book, kind),
        r matches Err(e) ==> e.code@ == "PROVIDER_UNSUPPORTED"@,
{
    let remote_ok = match &account.data {
        Some(d) => str_eq(d.remote_account_id.as_str(), book.remote_account_id.as_str()),
        None => false,
    };
    let kind_ok = kind == JobKind::Trading212DemoOrderBookPending || kind == JobKind::Trading212DemoOrderBookHistory
        || kind == JobKind::Trading212DemoOrderBookDetail;
    if !str_eq(account.provider_id.as_str(), "trading212") || !str_eq(account.environment.as_str(), "DEMO")
        || !str_eq(book.environment.as_str(), "DEMO") || !str_eq(book.connection_id.as_str(), account.connection_id.as_str())
        || !str_eq(book.workspace_id.as_str(), account.workspace_id.as_str()) || !remote_ok || !kind_ok {
        return Err(TradeXError::new("PROVIDER_UNSUPPORTED"));
    }
    Ok(())
}

/// The book holds a pending order with this identifier.
pub open spec fn demo_pending(book: Trading212DemoOrderBook, id: Seq<char>) -> bool {
    exists|i: int| 0 <= i < book.orders@.len() && (#[trigger] book.orders@[i]).provider_order_id@ == id && book.orders@[i].pending
}

/// The cursor a history read is known by: its path's `cursor`, else `FIRST`.
pub open spec fn history_token(path: Seq<char>) -> Seq<char> {
    match split_once(path, '?') {
        Some((_, query)) => match query_cursor(query) {
            Some(c) => c,
            None => "FIRST"@,
        },
        None => "FIRST"@,
    }
}

/// What a demo order-book read asks for: its path, whether the history
/// read starts over (its pages and cursors forgotten), and the history
/// cursor it is known by.
///
/// Pending orders are read at `/api/v0/equity/orders`. A detail needs an
/// order identifier (`IPC_PAYLOAD_INVALID`) that is a demo order
/// identifier of a pending order in the book (`ORDER_STATUS_UNKNOWN`).
/// History starts over when it has not started or is complete; otherwise
/// it goes on at the stored next page, which must be a history path; an
/// unfinished history of 100 pages, a missing next page or a cursor read
/// before is `PROVIDER_DATA_INCOMPLETE`. Any other job is
/// `PROVIDER_UNSUPPORTED`.
pub fn demo_book_read(book: &Trading212DemoOrderBook, kind: JobKind, order_id: Option<&str>) -> (r: Result<(String, bool, String), TradeXError>)
    ensures
        kind == JobKind::Trading212DemoOrderBookPending ==> (r matches Ok((p, restart, _)) && p@
            == "/api/v0/equity/orders"@ && !restart),
        kind == JobKind::Trading212DemoOrderBookDetail ==> match order_id {
            None => r matches Err(e) && e.code@ == "IPC_PAYLOAD_INVALID"@,
            Some(id) => if !t212_order_id_ok(id@) || !demo_pending(*book, id@) {
                r matches Err(e) && e.code@ == "ORDER_STATUS_UNKNOWN"@
            } else {
                r matches Ok((p, restart, _)) && p@ == "/api/v0/equity/orders/"@ + id@ && !restart
            },
        },
        kind == JobKind::Trading212DemoOrderBookHistory ==> if book.history_page_count >= 100 && !book.history_complete {
            r matches Err(e) && e.code@ == "PROVIDER_DATA_INCOMPLETE"@
        } else if !book.history_started || book.history_complete {
            r matches Ok((p, restart, t)) && p@ == "/api/v0/equity/history/orders?limit=50"@ && restart && t@
                == history_token(p@)
        } else {
            match book.next_page_path {
                Some(next) => if !t212_history_path_ok(next@) {
                    r matches Err(e) && e.code@ == "PROVIDER_DATA_INCOMPLETE"@
                } else if exists|i: int|
                    0 <= i < book.history_cursors@.len() && (#[trigger] book.history_cursors@[i])@ == history_token(
                        next@,
                    ) {
                    r matches Err(e) && e.code@ == "PROVIDER_DATA_INCOMPLETE"@
                } else {
                    r matches Ok((p, restart, t)) && p@ == next@ && !restart && t@ == history_token(next@)
                },
                None => r matches Err(e) && e.code@ == "PROVIDER_DATA_INCOMPLETE"@,
            }
        },
        !(kind == JobKind::Trading212DemoOrderBookPending || kind == JobKind::Trading212DemoOrderBookDetail || kind
            == JobKind::Trading212DemoOrderBookHistory) ==> (r matches Err(e) && e.code@ == "PROVIDER_UNSUPPORTED"@),
{
    match kind {
        JobKind::Trading212DemoOrderBookPending => Ok((owned("/api/v0/equity/orders"), false, owned(""))),
        JobKind::Trading212DemoOrderBookDetail => {
            let id = match order_id {
                Some(id) => id,
                None => {
                    return Err(TradeXError::new("IPC_PAYLOAD_INVALID"));
                },
            };
            if !valid_t212_order_id(id) {
                return Err(TradeXError::new("ORDER_STATUS_UNKNOWN"));
            }
            if !has_pending(book, id) {
                return Err(TradeXError::new("ORDER_STATUS_UNKNOWN"));
            }
            Ok((concat("/api/v0/equity/orders/", id), false, owned("")))
        },
        JobKind::Trading212DemoOrderBookHistory => {
            if book.history_page_count >= 100 && !book.history_complete {
                return Err(TradeXError::new("PROVIDER_DATA_INCOMPLETE"));
            }
            if !book.history_started || book.history_complete {
                let path = owned("/api/v0/equity/history/orders?limit=50");
                let token = history_cursor_token(path.as_str());
                return Ok((path, true, token));
            }
            let next = match &book.next_page_path {
                Some(p) => p,
                None => {
                    return Err(TradeXError::new("PROVIDER_DATA_INCOMPLETE"));
                },
            };
            if !valid_t212_history_path(next.as_str()) {
                return Err(TradeXError::new("PROVIDER_DATA_INCOMPLETE"));
            }
            let token = history_cursor_token(next.as_str());
            if known_cursor(&book.history_cursors, token.as_str()) {
                return Err(TradeXError::new("PROVIDER_DATA_INCOMPLETE"));
            }
            Ok((owned(next.as_str()), false, token))
        },
        _ => Err(TradeXError::new("PROVIDER_UNSUPPORTED")),
    }
}

fn has_pending(book: &Trading212DemoOrderBook, id: &str) -> (r: bool)
    ensures
        r == demo_pending(*book, id@),
{
    let mut i: usize = 0;
    while i < book.orders.len()
        invariant
            i <= book.orders@.len(),
            forall|k: int|
                0 <= k < i ==> !((#[trigger] book.orders@[k]).provider_order_id@ == id@ && book.orders@[k].pending),
        decreases book.orders@.len() - i,
    {
        if str_eq(book.orders[i].provider_order_id.as_str(), id) && book.orders[i].pending {
            return true;
        }
        i = i + 1;
    }
    false
}

fn history_cursor_token(path: &str) -> (r: String)
    ensures
        r@ == history_token(path@),
{
    match t212_history_cursor(path) {
        Some(c) => c,
        None => owned("FIRST"),
    }
}

/// The next page a history page names (its `nextPagePath` member): none
/// when the member is null; a history path whose cursor is new (neither
/// the page's own nor one read before); `PROVIDER_DATA_INCOMPLETE`
/// otherwise (a missing member, another value, or no or a repeated
/// cursor).
pub fn demo_history_next(next: Option<&JsonValue>, token: &str, cursors: &Vec<String>) -> (r: Result<Option<String>, TradeXError>)
    ensures
        match next {
            Some(JsonValue::Null) => r == Ok::<Option<String>, TradeXError>(None),
            Some(JsonValue::Str(p)) => if t212_history_path_ok(p@) && match split_once(p@, '?') {
                Some((_, q)) => query_cursor(q) matches Some(c) && c != token@ && forall|i: int|
                    0 <= i < cursors@.len() ==> (#[trigger] cursors@[i])@ != c,
                None => false,
            } {
                r matches Ok(Some(t)) && t@ == p@
            } else {
                r matches Err(e) && e.code@ == "PROVIDER_DATA_INCOMPLETE"@
            },
            _ => r matches Err(e) && e.code@ == "PROVIDER_DATA_INCOMPLETE"@,
        },
{
    let p = match next {
        Some(JsonValue::Null) => {
            return Ok(None);
        },
        Some(JsonValue::Str(p)) => p,
        _ => {
            return Err(TradeXError::new("PROVIDER_DATA_INCOMPLETE"));
        },
    };
    if !valid_t212_history_path(p.as_str()) {
        return Err(TradeXError::new("PROVIDER_DATA_INCOMPLETE"));
    }
    match t212_history_cursor(p.as_str()) {
        None => Err(TradeXError::new("PROVIDER_DATA_INCOMPLETE")),
        Some(c) => if str_eq(c.as_str(), token) || known_cursor(cursors, c.as_str()) {
            Err(TradeXError::new("PROVIDER_DATA_INCOMPLETE"))
        } else {
            Ok(Some(owned(p.as_str())))
        },
    }
}

/// Whether the credential a job stored must be removed again because the
/// workspace failed to record the job's result: only a connect, and only
/// when the record failed.
pub fn cleanup_needed(kind: JobKind, committed: bool) -> (r: bool)
    ensures
        r == (kind == JobKind::Connect && !committed),
{
    kind == JobKind::Connect && !committed
}

/// The path of one order's read; the identifier must be a provider order
/// identifier (`IPC_PAYLOAD_INVALID`).
pub fn order_read_path(order_id: &str) -> (r: Result<String, TradeXError>)
    ensures
        provider_order_id_ok(order_id@) ==> (r matches Ok(p) && p@ == "/v2/orders/"@ + order_id@),
        !provider_order_id_ok(order_id@) ==> (r matches Err(e) && e.code@ == "IPC_PAYLOAD_INVALID"@),
{
    if !valid_provider_order_id(order_id) {
        return Err(TradeXError::new("IPC_PAYLOAD_INVALID"));
    }
    Ok(concat("/v2/orders/", order_id))
}

/// One order read back from the broker: the read must succeed (see
/// `read_reply`), reflect no credential and hold an order (see
/// `parse_alpaca_order`).
pub fn order_reply(
    reply: ProviderReply,
    secrets: &Vec<String>,
    observed_at: &str,
    instruments: &Vec<(String, String)>,
) -> (r: Result<AlpacaPaperOrder, TradeXError>)
    ensures
        match read_reply_error(reply, None) {
            Some(code) => r matches Err(e) && e.code@ == code,
            None => match reply {
                ProviderReply::Answered(_, Some(v)) => if holds_secret(v, secrets@) || !order_accepted(v) {
                    r matches Err(e) && e.code@ == "PROVIDER_RESPONSE_INVALID"@
                } else {
                    r matches Ok(o) && order_parsed(o, v, observed_at@, row_instrument(instruments@, v))
                },
                _ => false,
            },
        },
{
    let v = read_reply(reply, None)?;
    if contains_secret(&v, secrets) {
        return Err(TradeXError::new("PROVIDER_RESPONSE_INVALID"));
    }
    let instrument = instrument_for(instruments, &v);
    parse_alpaca_order(&v, observed_at, instrument)
}

/// The account check before an order-book job: the read must succeed,
/// reflect no credential (`PROVIDER_RESPONSE_INVALID`) and name the
/// book's account (`PROVIDER_REVIEW_REQUIRED`).
pub fn verify_account_reply(reply: ProviderReply, remote_account_id: &str, secrets: &Vec<String>) -> (r: Result<(), TradeXError>)
    ensures
        match read_reply_error(reply, None) {
            Some(code) => r matches Err(e) && e.code@ == code,
            None => match reply {
                ProviderReply::Answered(_, Some(a)) => if holds_secret(a, secrets@) {
                    r matches Err(e) && e.code@ == "PROVIDER_RESPONSE_INVALID"@
                } else {
                    match uuid_of(a, "id"@) {
                        None => r matches Err(e) && e.code@ == "PROVIDER_RESPONSE_INVALID"@,
                        Some(id) => if id != remote_account_id@ {
                            r matches Err(e) && e.code@ == "PROVIDER_REVIEW_REQUIRED"@
                        } else {
                            r is Ok
                        },
                    }
                },
                _ => false,
            },
        },
{
    let a = read_reply(reply, None)?;
    if contains_secret(&a, secrets) {
        return Err(TradeXError::new("PROVIDER_RESPONSE_INVALID"));
    }
    let id = id_field(&a, "id")?;
    if !str_eq(id.as_str(), remote_account_id) {
        return Err(TradeXError::new("PROVIDER_REVIEW_REQUIRED"));
    }
    Ok(())
}

/// A paper-broker job runs only on a paper account of the paper broker
/// (`PROVIDER_UNSUPPORTED`).
pub fn paper_account_check(provider_id: &str, environment: &str) -> (r: Result<(), TradeXError>)
    ensures
        (provider_id@ == "alpaca"@ && environment@ == "PAPER"@) ==> r is Ok,
        !(provider_id@ == "alpaca"@ && environment@ == "PAPER"@) ==> (r matches Err(e) && e.code@
            == "PROVIDER_UNSUPPORTED"@),
{
    if str_eq(provider_id, "alpaca") && str_eq(environment, "PAPER") {
        Ok(())
    } else {
        Err(TradeXError::new("PROVIDER_UNSUPPORTED"))
    }
}

/// The proposal an order job carries: it must be there
/// (`ORDER_PROPOSAL_NOT_ELIGIBLE`) and be the one the attempt was made for,
/// in the same workspace (`STATE_VERSION_CONFLICT`).
pub fn bound_proposal<'a>(
    proposal: Option<&'a OrderProposal>,
    workspace_id: &str,
    proposal_id: &str,
    proposal_hash: &str,
) -> (r: Result<&'a OrderProposal, TradeXError>)
    ensures
        match proposal {
            None => r matches Err(e) && e.code@ == "ORDER_PROPOSAL_NOT_ELIGIBLE"@,
            Some(p) => if p.workspace_id@ == workspace_id@ && p.proposal_id@ == proposal_id@ && p.proposal_hash@
                == proposal_hash@ {
                r == Ok::<&OrderProposal, TradeXError>(p)
            } else {
                r matches Err(e) && e.code@ == "STATE_VERSION_CONFLICT"@
            },
        },
{
    match proposal {
        None => Err(TradeXError::new("ORDER_PROPOSAL_NOT_ELIGIBLE")),
        Some(p) => if str_eq(p.workspace_id.as_str(), workspace_id) && str_eq(p.proposal_id.as_str(), proposal_id)
            && str_eq(p.proposal_hash.as_str(), proposal_hash) {
            Ok(p)
        } else {
            Err(TradeXError::new("STATE_VERSION_CONFLICT"))
        },
    }
}

/// The error of a demo-broker reply with HTTP `status` that is no success:
/// refused credentials, missing permission, rate limiting, or (any other
/// status) an unavailable broker.
pub open spec fn demo_read_code(status: u16) -> Seq<char> {
    if status == 401 {
        "PROVIDER_AUTH_FAILED"@
    } else if status == 403 {
        "PROVIDER_PERMISSION_BLOCKED"@
    } else if status == 429 {
        "PROVIDER_RATE_LIMITED"@
    } else {
        "PROVIDER_UNAVAILABLE"@
    }
}

/// The error of a demo-broker account read with HTTP `status` (see
/// `demo_read_code`).
pub fn demo_read_error(status: u16) -> (e: TradeXError)
    ensures
        e.code@ == demo_read_code(status),
{
    if status == 401 {
        TradeXError::new("PROVIDER_AUTH_FAILED")
    } else if status == 403 {
        TradeXError::new("PROVIDER_PERMISSION_BLOCKED")
    } else if status == 429 {
        TradeXError::new("PROVIDER_RATE_LIMITED")
    } else {
        TradeXError::new("PROVIDER_UNAVAILABLE")
    }
}

/// The refusal a demo-broker order submission's status carries: 400 is a
/// rejected order, 401, 403 and 429 as for reads; any other status is no
/// refusal (a success, or an outcome to reconcile).
pub fn demo_submit_refusal(status: u16) -> (r: Option<TradeXError>)
    ensures
        (status == 400 || status == 401 || status == 403 || status == 429) ==> (r matches Some(e) && e.code@ == (
        if status == 400 {
            "PROVIDER_ORDER_REJECTED"@
        } else {
            demo_read_code(status)
        })),
        !(status == 400 || status == 401 || status == 403 || status == 429) ==> r is None,
{
    if status == 400 {
        Some(TradeXError::new("PROVIDER_ORDER_REJECTED"))
    } else if status == 401 || status == 403 || status == 429 {
        Some(demo_read_error(status))
    } else {
        None
    }
}

/// The demo attempt after its submission job: its updated form, or, when
/// the job failed, the attempt marked rejected with no provider order, and
/// the error's code and message.
pub fn settle_trading212_attempt(
    attempt: Trading212DemoOrderAttempt,
    outcome: Result<Trading212DemoOrderAttempt, TradeXError>,
) -> (r: Trading212DemoOrderAttempt)
    ensures
        match outcome {
            Ok(u) => r == u,
            Err(e) => r == (Trading212DemoOrderAttempt {
                state: Trading212DemoOrderAttemptState::Rejected,
                provider_order_id: None,
                provider_status: None,
                error_code: r.error_code,
                reason: r.reason,
                ..attempt
            }) && (r.error_code matches Some(c) && c@ == e.code@) && r.reason@ == e.message@,
        },
{
    match outcome {
        Ok(u) => u,
        Err(e) => {
            let mut a = attempt;
            a.state = Trading212DemoOrderAttemptState::Rejected;
            a.provider_order_id = None;
            a.provider_status = None;
            a.error_code = Some(e.code);
            a.reason = e.message;
            a
        },
    }
}

/// A credential value: 1 to 512 printable ASCII characters, no space.
pub open spec fn credential_value_ok(v: Seq<char>) -> bool {
    0 < v.len() <= 512 && forall|i: int| 0 <= i < v.len() ==> '!' <= #[trigger] v[i] <= '~'
}

/// A captured credential: two or three values, each `credential_value_ok`.
pub open spec fn credential_values_ok(values: Seq<String>) -> bool {
    (values.len() == 2 || values.len() == 3) && forall|i: int|
        0 <= i < values.len() ==> credential_value_ok(#[trigger] values[i]@)
}

fn credential_value_valid(v: &str) -> (r: bool)
    ensures
        r == credential_value_ok(v@),
{
    let c = chars(v);
    if c.len() == 0 || c.len() > 512 {
        return false;
    }
    let mut i: usize = 0;
    while i < c.len()
        invariant
            i <= c@.len(),
            c@ == v@,
            forall|k: int| 0 <= k < i ==> '!' <= #[trigger] c@[k] <= '~',
        decreases c@.len() - i,
    {
        if !('!' <= c[i] && c[i] <= '~') {
            return false;
        }
        i = i + 1;
    }
    true
}

/// Whether captured credential values may be stored (see
/// `credential_values_ok`); the caller refuses others as
/// `IPC_PAYLOAD_INVALID`.
pub fn credential_values_valid(values: &Vec<String>) -> (r: bool)
    ensures
        r == credential_values_ok(values@),
{
    if values.len() != 2 && values.len() != 3 {
        return false;
    }
    let mut i: usize = 0;
    while i < values.len()
        invariant
            i <= values@.len(),
            forall|k: int| 0 <= k < i ==> credential_value_ok(#[trigger] values@[k]@),
        decreases values@.len() - i,
    {
        if !credential_value_valid(values[i].as_str()) {
            return false;
        }
        i = i + 1;
    }
    true
}

/// How a plain account read takes the HTTP status of its reply.
pub enum ReadStatus {
    /// The body is the document read.
    Body,
    /// The body is the exchange's error document.
    ErrorBody,
    /// The read failed with this error.
    Failed(TradeXError),
}

/// How a plain read on `endpoint` takes HTTP `status`: 200 gives the body;
/// a 400 from an exchange (the crypto brokers) carries an error document;
/// 401 and 403 are refused credentials, 418 and 429 rate limiting, and any
/// other status an unavailable broker.
pub fn read_status(endpoint: ProviderEndpoint, status: u16) -> (r: ReadStatus)
    ensures
        status == 200 ==> r is Body,
        status == 400 && (endpoint == ProviderEndpoint::BinanceTestnet || endpoint == ProviderEndpoint::BinanceLive
            || endpoint == ProviderEndpoint::BitgetDemo || endpoint == ProviderEndpoint::BitgetLive) ==> r is ErrorBody,
        status != 200 && !(status == 400 && (endpoint == ProviderEndpoint::BinanceTestnet || endpoint
            == ProviderEndpoint::BinanceLive || endpoint == ProviderEndpoint::BitgetDemo || endpoint
            == ProviderEndpoint::BitgetLive)) ==> (r matches ReadStatus::Failed(e) && e.code@ == (if status == 401
            || status == 403 {
            "PROVIDER_AUTH_FAILED"@
        } else if status == 418 || status == 429 {
            "PROVIDER_RATE_LIMITED"@
        } else {
            "PROVIDER_UNAVAILABLE"@
        })),
{
    if status == 200 {
        ReadStatus::Body
    } else if status == 400 && (endpoint.is_binance() || endpoint.is_bitget()) {
        ReadStatus::ErrorBody
    } else if status == 401 || status == 403 {
        ReadStatus::Failed(TradeXError::new("PROVIDER_AUTH_FAILED"))
    } else if status == 418 || status == 429 {
        ReadStatus::Failed(TradeXError::new("PROVIDER_RATE_LIMITED"))
    } else {
        ReadStatus::Failed(TradeXError::new("PROVIDER_UNAVAILABLE"))
    }
}

/// The error an exchange error document's numeric `code` names: a clock
/// out of the receive window, rejected keys or signatures, rate limiting,
/// or (any other code, or none) an invalid response.
pub fn exchange_error(code: Option<i64>) -> (e: TradeXError)
    ensures
        e.code@ == match code {
            Some(c) => if c == -1021 {
                "CLOCK_SKEW"@
            } else if c == -1022 || c == -2014 || c == -2015 {
                "PROVIDER_AUTH_FAILED"@
            } else if c == -1003 || c == -1015 {
                "PROVIDER_RATE_LIMITED"@
            } else {
                "PROVIDER_RESPONSE_INVALID"@
            },
            None => "PROVIDER_RESPONSE_INVALID"@,
        },
{
    match code {
        Some(c) => if c == -1021 {
            TradeXError::new("CLOCK_SKEW")
        } else if c == -1022 || c == -2014 || c == -2015 {
            TradeXError::new("PROVIDER_AUTH_FAILED")
        } else if c == -1003 || c == -1015 {
            TradeXError::new("PROVIDER_RATE_LIMITED")
        } else {
            TradeXError::new("PROVIDER_RESPONSE_INVALID")
        },
        None => TradeXError::new("PROVIDER_RESPONSE_INVALID"),
    }
}

/// What a provider job leaves for the workspace to record: an account
/// observation or an error, the credential's state, and the order attempt
/// or order book the job updated.
pub struct ProviderOutcome {
    pub observation: Option<Observation>,
    pub error: Option<TradeXError>,
    pub credential: String,
    pub trading212_demo_attempt: Option<Trading212DemoOrderAttempt>,
    pub trading212_demo_order_book: Option<Trading212DemoOrderBook>,
    pub alpaca_paper_attempt: Option<AlpacaPaperOrderAttempt>,
    pub alpaca_paper_order_book: Option<AlpacaPaperOrderBook>,
}

impl ProviderOutcome {
    /// An outcome with only the credential's state.
    pub fn with_credential(credential: &str) -> (r: Self)
        ensures
            r.credential@ == credential@,
            r.observation is None,
            r.error is None,
            r.trading212_demo_attempt is None,
            r.trading212_demo_order_book is None,
            r.alpaca_paper_attempt is None,
            r.alpaca_paper_order_book is None,
    {
        ProviderOutcome {
            observation: None,
            error: None,
            credential: owned(credential),
            trading212_demo_attempt: None,
            trading212_demo_order_book: None,
            alpaca_paper_attempt: None,
            alpaca_paper_order_book: None,
        }
    }
}

} // verus!
