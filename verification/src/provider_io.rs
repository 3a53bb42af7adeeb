//! Provider boundary: the routes each broker endpoint accepts, the
//! classification of provider responses, exact decimal handling of provider
//! amounts, and the merge rules of provider order books.
use vstd::prelude::*;
use crate::decimal::{
    add_decimal_texts, common_scale, compare_decimals, decimal_accepts, decimal_normal,
    decimal_order, denotes, digits_u128, digits_value, is_canonical, is_negative_text, lemma_decimal_normal,
    lex_compare, lex_order, normalize_decimal_text, same_value, subtract_decimal_texts,
    sum_text_len, units_at, whole_of, fraction_of, Comparison,
};
use crate::ids::{parse_rfc3339, rfc3339_instant};
use crate::protocol::{
    AlpacaPaperCancelState, AlpacaPaperFill, AlpacaPaperFillSource, AlpacaPaperOrder,
    AlpacaPaperOrderBook, AlpacaPaperOrderBookStatus, ExecutionContext, OrderProposal,
    OrderProposalStatus, OrderQuantityType, OrderSide, OrderType, TimeInForce,
    AlpacaPaperOrderAttempt, AlpacaPaperOrderAttemptState, AlpacaPaperOrderOrigin, Trading212DemoOrder,
    Trading212DemoOrderBook, Trading212DemoRateLimits,
    Trading212DemoOrderAttempt, Trading212DemoOrderAttemptState,
};
use crate::ids::{uuid_parses, uuid_text_ok};
use crate::json::{as_text, field_of, get, str_of, JsonValue};
use crate::protocol::TradeXError;
use crate::providers::{AccountConnection, AccountData, Balance, OpenOrder, PermissionReview, Position};
use crate::research::text_views;
use crate::text::{
    contains, contains_str, find, find_str, owned, all_graphic, byte_len, graphic_only,
    all_digits, chars, digits_only, has_prefix, is_alnum, is_digit, is_upper, lemma_index_of,
    split_once, split_once_char, concat, split_or_whole, trim_end, trim_end_char, str_eq, string_of_all, strip_prefix_text, utf8_len,
    utf8_length,
};

verus! {

pub struct NativeVault;

#[derive(Clone, Copy, Debug, PartialEq, Eq, Structural)]
pub enum ProviderEndpoint {
    AlpacaPaper,
    Trading212Demo,
    Trading212Live,
    BinanceTestnet,
    BinanceLive,
    BitgetDemo,
    BitgetLive,
}

#[derive(Clone, Copy, Debug, PartialEq, Eq, Structural)]
pub enum ProviderHttpMethod {
    Get,
    Post,
    Delete,
}

pub struct ProviderHttpResponse {
    pub status: u16,
    pub body: Vec<u8>,
}

#[derive(Clone, Debug, Default)]
pub struct ProviderRateLimit {
    pub remaining: Option<u64>,
    pub reset_at: Option<String>,
}


/// The provider reads whose request rate is limited per account.
#[derive(Clone, Copy, Debug, PartialEq, Eq, Structural)]
pub enum Trading212ReadEndpoint {
    PendingOrders,
    OrderDetail,
    History,
}

impl Trading212ReadEndpoint {
    /// The key under which the endpoint's rate limit is kept.
    pub fn key(self) -> (r: &'static str)
        ensures
            r@ == match self {
                Trading212ReadEndpoint::PendingOrders => "orders"@,
                Trading212ReadEndpoint::OrderDetail => "order-detail"@,
                Trading212ReadEndpoint::History => "history-orders"@,
            },
    {
        match self {
            Trading212ReadEndpoint::PendingOrders => "orders",
            Trading212ReadEndpoint::OrderDetail => "order-detail",
            Trading212ReadEndpoint::History => "history-orders",
        }
    }

    /// Seconds between two reads of the endpoint.
    pub fn minimum_interval(self) -> (r: i64)
        ensures
            r == match self {
                Trading212ReadEndpoint::PendingOrders => 5i64,
                Trading212ReadEndpoint::OrderDetail => 1i64,
                Trading212ReadEndpoint::History => 10i64,
            },
    {
        match self {
            Trading212ReadEndpoint::PendingOrders => 5,
            Trading212ReadEndpoint::OrderDetail => 1,
            Trading212ReadEndpoint::History => 10,
        }
    }
}

/// The error code of a failed provider order read with HTTP `status`.
pub open spec fn read_error_code(status: u16, endpoint: Trading212ReadEndpoint) -> Seq<char> {
    if status == 401 {
        "PROVIDER_AUTH_FAILED"@
    } else if status == 403 {
        "PROVIDER_PERMISSION_BLOCKED"@
    } else if status == 404 && endpoint == Trading212ReadEndpoint::OrderDetail {
        "ORDER_STATUS_UNKNOWN"@
    } else if status == 429 {
        "PROVIDER_RATE_LIMITED"@
    } else if status == 408 || (500 <= status <= 599) {
        "PROVIDER_UNAVAILABLE"@
    } else if 400 <= status <= 499 {
        "PROVIDER_RESPONSE_INVALID"@
    } else {
        "PROVIDER_DATA_INCOMPLETE"@
    }
}

/// Classifies a failed provider order read: client errors are invalid
/// requests, server errors and timeouts mean the provider is unavailable.
pub fn trading212_order_read_error(status: u16, endpoint: Trading212ReadEndpoint) -> (e: TradeXError)
    ensures
        e.code@ == read_error_code(status, endpoint),
{
    if status == 401 {
        TradeXError::new("PROVIDER_AUTH_FAILED")
    } else if status == 403 {
        TradeXError::new("PROVIDER_PERMISSION_BLOCKED")
    } else if status == 404 && endpoint == Trading212ReadEndpoint::OrderDetail {
        TradeXError::new("ORDER_STATUS_UNKNOWN")
    } else if status == 429 {
        TradeXError::new("PROVIDER_RATE_LIMITED")
    } else if status == 408 || (500 <= status && status <= 599) {
        TradeXError::new("PROVIDER_UNAVAILABLE")
    } else if 400 <= status && status <= 499 {
        TradeXError::new("PROVIDER_RESPONSE_INVALID")
    } else {
        TradeXError::new("PROVIDER_DATA_INCOMPLETE")
    }
}

/// A provider order identifier: a UUID in its 36-character form.
pub open spec fn provider_order_id_ok(id: Seq<char>) -> bool {
    utf8_len(id) == 36 && uuid_text_ok(id)
}

pub fn valid_provider_order_id(id: &str) -> (r: bool)
    ensures
        r == provider_order_id_ok(id@),
{
    utf8_length(&chars(id)) == 36 && uuid_parses(id)
}

pub open spec fn token_char(c: char) -> bool {
    is_alnum(c) || c == '-' || c == '_' || c == '.' || c == ':'
}

/// A page token: 1 to 128 bytes of letters, digits and `-_.:`.
pub open spec fn activity_token_ok(v: Seq<char>) -> bool {
    v.len() > 0 && utf8_len(v) <= 128 && forall|i: int| 0 <= i < v.len() ==> token_char(#[trigger] v[i])
}

pub fn valid_activity_token(value: &str) -> (r: bool)
    ensures
        r == activity_token_ok(value@),
{
    let v = chars(value);
    if v.len() == 0 || utf8_length(&v) > 128 {
        return false;
    }
    let mut i: usize = 0;
    while i < v.len()
        invariant
            i <= v@.len(),
            v@ == value@,
            forall|k: int| 0 <= k < i ==> token_char(#[trigger] v@[k]),
        decreases v@.len() - i,
    {
        let c = v[i];
        if !(('0' <= c && c <= '9') || ('A' <= c && c <= 'Z') || ('a' <= c && c <= 'z') || c == '-'
            || c == '_' || c == '.' || c == ':') {
            assert(!token_char(value@[i as int]));
            return false;
        }
        i = i + 1;
    }
    true
}

pub open spec fn symbol_char(c: char) -> bool {
    is_upper(c) || is_digit(c) || c == '.' || c == '-'
}

/// A broker symbol: 1 to 16 bytes of upper-case letters, digits, `.` and
/// `-`, with at least one letter or digit.
pub open spec fn alpaca_symbol_ok(v: Seq<char>) -> bool {
    &&& v.len() > 0
    &&& utf8_len(v) <= 16
    &&& exists|i: int| 0 <= i < v.len() && (is_upper(#[trigger] v[i]) || is_digit(v[i]))
    &&& forall|i: int| 0 <= i < v.len() ==> symbol_char(#[trigger] v[i])
}

pub fn valid_alpaca_symbol(symbol: &str) -> (r: bool)
    ensures
        r == alpaca_symbol_ok(symbol@),
{
    let v = chars(symbol);
    if v.len() == 0 || utf8_length(&v) > 16 {
        return false;
    }
    let mut any = false;
    let mut i: usize = 0;
    while i < v.len()
        invariant
            i <= v@.len(),
            v@ == symbol@,
            forall|k: int| 0 <= k < i ==> symbol_char(#[trigger] v@[k]),
            any <==> exists|k: int| 0 <= k < i && (is_upper(#[trigger] v@[k]) || is_digit(v@[k])),
        decreases v@.len() - i,
    {
        let c = v[i];
        let strong = ('A' <= c && c <= 'Z') || ('0' <= c && c <= '9');
        if !(strong || c == '.' || c == '-') {
            assert(!symbol_char(symbol@[i as int]));
            return false;
        }
        if strong {
            any = true;
        }
        i = i + 1;
    }
    any
}

pub open spec fn client_id_char(c: char) -> bool {
    is_alnum(c) || c == '-' || c == '_' || c == '.'
}

/// A client order identifier: 1 to 128 bytes of letters, digits and `-_.`.
pub open spec fn client_order_id_ok(v: Seq<char>) -> bool {
    v.len() > 0 && utf8_len(v) <= 128 && forall|i: int| 0 <= i < v.len() ==> client_id_char(#[trigger] v[i])
}

pub fn valid_client_order_id(value: &str) -> (r: bool)
    ensures
        r == client_order_id_ok(value@),
{
    let v = chars(value);
    if v.len() == 0 || utf8_length(&v) > 128 {
        return false;
    }
    let mut i: usize = 0;
    while i < v.len()
        invariant
            i <= v@.len(),
            v@ == value@,
            forall|k: int| 0 <= k < i ==> client_id_char(#[trigger] v@[k]),
        decreases v@.len() - i,
    {
        let c = v[i];
        if !(('0' <= c && c <= '9') || ('A' <= c && c <= 'Z') || ('a' <= c && c <= 'z') || c == '-'
            || c == '_' || c == '.') {
            assert(!client_id_char(value@[i as int]));
            return false;
        }
        i = i + 1;
    }
    true
}

pub open spec fn after(s: Seq<char>, p: Seq<char>) -> Seq<char> {
    s.subrange(p.len() as int, s.len() as int)
}

/// The read routes of the paper broker: account, positions and open
/// orders; one asset or position by symbol; one order by client or provider
/// identifier; and the paged order and fill histories.
pub open spec fn alpaca_path_ok(p: Seq<char>) -> bool {
    let assets = "/v2/assets/"@;
    let positions = "/v2/positions/"@;
    let by_client = "/v2/orders:by_client_order_id?client_order_id="@;
    let orders = "/v2/orders/"@;
    let before = "/v2/orders?status=all&limit=100&direction=desc&nested=false&before_order_id="@;
    let token = "/v2/account/activities/FILL?page_size=100&direction=desc&page_token="@;
    let after_id = "/v2/orders?status=open&limit=500&direction=asc&nested=false&after_order_id="@;
    ||| p == "/v2/account"@
    ||| p == "/v2/positions"@
    ||| p == "/v2/orders?status=open&limit=500&direction=asc&nested=false"@
    ||| has_prefix(p, assets) && alpaca_symbol_ok(after(p, assets))
    ||| has_prefix(p, positions) && alpaca_symbol_ok(after(p, positions))
    ||| has_prefix(p, by_client) && client_order_id_ok(after(p, by_client))
    ||| has_prefix(p, orders) && provider_order_id_ok(after(p, orders))
    ||| p == "/v2/orders?status=all&limit=100&direction=desc&nested=false"@
    ||| p == "/v2/account/activities/FILL?page_size=100&direction=desc"@
    ||| has_prefix(p, before) && provider_order_id_ok(after(p, before))
    ||| has_prefix(p, token) && activity_token_ok(after(p, token))
    ||| has_prefix(p, after_id) && provider_order_id_ok(after(p, after_id))
}

fn prefixed_symbol(v: &Vec<char>, prefix: &str) -> (r: bool)
    ensures
        r == (has_prefix(v@, prefix@) && alpaca_symbol_ok(after(v@, prefix@))),
{
    match strip_prefix_text(v, prefix) {
        Some(rest) => valid_alpaca_symbol(string_of_all(&rest).as_str()),
        None => false,
    }
}

fn prefixed_order_id(v: &Vec<char>, prefix: &str) -> (r: bool)
    ensures
        r == (has_prefix(v@, prefix@) && provider_order_id_ok(after(v@, prefix@))),
{
    match strip_prefix_text(v, prefix) {
        Some(rest) => valid_provider_order_id(string_of_all(&rest).as_str()),
        None => false,
    }
}

pub fn allowed_path(path: &str) -> (r: bool)
    ensures
        r == alpaca_path_ok(path@),
{
    let v = chars(path);
    if str_eq(path, "/v2/account") || str_eq(path, "/v2/positions") || str_eq(
        path,
        "/v2/orders?status=open&limit=500&direction=asc&nested=false",
    ) {
        return true;
    }
    if prefixed_symbol(&v, "/v2/assets/") || prefixed_symbol(&v, "/v2/positions/") {
        return true;
    }
    let by_client = match strip_prefix_text(&v, "/v2/orders:by_client_order_id?client_order_id=") {
        Some(rest) => valid_client_order_id(string_of_all(&rest).as_str()),
        None => false,
    };
    if by_client || prefixed_order_id(&v, "/v2/orders/") {
        return true;
    }
    if str_eq(path, "/v2/orders?status=all&limit=100&direction=desc&nested=false") || str_eq(
        path,
        "/v2/account/activities/FILL?page_size=100&direction=desc",
    ) {
        return true;
    }
    let token = match strip_prefix_text(
        &v,
        "/v2/account/activities/FILL?page_size=100&direction=desc&page_token=",
    ) {
        Some(rest) => valid_activity_token(string_of_all(&rest).as_str()),
        None => false,
    };
    prefixed_order_id(&v, "/v2/orders?status=all&limit=100&direction=desc&nested=false&before_order_id=")
        || token || prefixed_order_id(
        &v,
        "/v2/orders?status=open&limit=500&direction=asc&nested=false&after_order_id=",
    )
}

/// A positive order identifier of at most 20 digits that fits in an `i64`.
pub open spec fn t212_order_id_ok(v: Seq<char>) -> bool {
    &&& v.len() > 0
    &&& utf8_len(v) <= 20
    &&& all_digits(v)
    &&& 0 < digits_value(v) <= i64::MAX
}

pub fn valid_t212_order_id(value: &str) -> (r: bool)
    ensures
        r == t212_order_id_ok(value@),
{
    let v = chars(value);
    if v.len() == 0 || utf8_length(&v) > 20 || !digits_only(&v) {
        return false;
    }
    proof {
        crate::decimal::lemma_digits_utf8_len(v@);
    }
    let n = digits_u128(&v);
    0 < n && n <= 9_223_372_036_854_775_807u128
}

/// A history cursor: 1 to 19 digits that fit in an `i64`.
pub open spec fn cursor_ok(v: Seq<char>) -> bool {
    &&& v.len() > 0
    &&& utf8_len(v) <= 19
    &&& all_digits(v)
    &&& digits_value(v) <= i64::MAX
}

fn valid_cursor(v: &Vec<char>) -> (r: bool)
    ensures
        r == cursor_ok(v@),
{
    if v.len() == 0 || utf8_length(v) > 19 || !digits_only(v) {
        return false;
    }
    proof {
        crate::decimal::lemma_digits_utf8_len(v@);
    }
    digits_u128(v) <= 9_223_372_036_854_775_807u128
}

/// The first `&`-separated segment of a query.
pub open spec fn first_segment(q: Seq<char>) -> Seq<char> {
    match split_once(q, '&') {
        Some((a, _)) => a,
        None => q,
    }
}

/// Reads the query pairs in order: exactly one `limit=50` and at most one
/// numeric `cursor`, nothing else; the result is whether the limit was seen,
/// or `None` for any other pair.
pub open spec fn history_query(q: Seq<char>, limit: bool, cursor: bool) -> Option<bool>
    decreases q.len(),
{
    match split_once(first_segment(q), '=') {
        None => None,
        Some((k, v)) => {
            let take_limit = k == "limit"@ && !limit && v == "50"@;
            let take_cursor = k == "cursor"@ && !cursor && cursor_ok(v);
            if !take_limit && !take_cursor {
                None
            } else {
                match split_once(q, '&') {
                    Some((_, rest)) => {
                        proof {
                            lemma_index_of(q, '&');
                        }
                        history_query(rest, limit || take_limit, cursor || take_cursor)
                    },
                    None => Some(limit || take_limit),
                }
            }
        },
    }
}

fn history_query_exec(q: &Vec<char>, limit: bool, cursor: bool) -> (r: Option<bool>)
    ensures
        r == history_query(q@, limit, cursor),
    decreases q@.len(),
{
    let split = split_once_char(q, '&');
    let seg = match &split {
        Some((a, _)) => slice_all(a),
        None => slice_all(q),
    };
    match split_once_char(&seg, '=') {
        None => None,
        Some((k, v)) => {
            let take_limit = str_eq(string_of_all(&k).as_str(), "limit") && !limit && str_eq(
                string_of_all(&v).as_str(),
                "50",
            );
            let take_cursor = str_eq(string_of_all(&k).as_str(), "cursor") && !cursor
                && valid_cursor(&v);
            if !take_limit && !take_cursor {
                None
            } else {
                match split {
                    Some((_, rest)) => {
                        proof {
                            lemma_index_of(q@, '&');
                        }
                        history_query_exec(&rest, limit || take_limit, cursor || take_cursor)
                    },
                    None => Some(limit || take_limit),
                }
            }
        },
    }
}

fn slice_all(v: &Vec<char>) -> (r: Vec<char>)
    ensures
        r@ == v@,
{
    let r = crate::text::slice(v, 0, v.len());
    assert(v@.subrange(0, v@.len() as int) =~= v@);
    r
}

/// The order-history route with a `limit=50` and optional cursor query, at
/// most 512 bytes long.
pub open spec fn t212_history_path_ok(p: Seq<char>) -> bool {
    match split_once(p, '?') {
        None => false,
        Some((route, query)) => route == "/api/v0/equity/history/orders"@ && query.len() > 0
            && utf8_len(p) <= 512 && history_query(query, false, false) == Some(true),
    }
}

pub fn valid_t212_history_path(path: &str) -> (r: bool)
    ensures
        r == t212_history_path_ok(path@),
{
    let v = chars(path);
    match split_once_char(&v, '?') {
        None => false,
        Some((route, query)) => {
            if !str_eq(string_of_all(&route).as_str(), "/api/v0/equity/history/orders")
                || query.len() == 0 || utf8_length(&v) > 512 {
                return false;
            }
            match history_query_exec(&query, false, false) {
                Some(limit) => limit,
                None => false,
            }
        },
    }
}

pub open spec fn t212_order_detail_path_ok(p: Seq<char>) -> bool {
    let prefix = "/api/v0/equity/orders/"@;
    has_prefix(p, prefix) && t212_order_id_ok(after(p, prefix))
}

pub fn valid_t212_order_detail_path(path: &str) -> (r: bool)
    ensures
        r == t212_order_detail_path_ok(path@),
{
    match strip_prefix_text(&chars(path), "/api/v0/equity/orders/") {
        Some(rest) => valid_t212_order_id(string_of_all(&rest).as_str()),
        None => false,
    }
}

/// The value of the first `cursor` pair of a query.
pub open spec fn query_cursor(q: Seq<char>) -> Option<Seq<char>>
    decreases q.len(),
{
    let here = match split_once(first_segment(q), '=') {
        Some((k, v)) => if k == "cursor"@ {
            Some(v)
        } else {
            None
        },
        None => None,
    };
    if here is Some {
        here
    } else {
        match split_once(q, '&') {
            Some((_, rest)) => {
                proof {
                    lemma_index_of(q, '&');
                }
                query_cursor(rest)
            },
            None => None,
        }
    }
}

fn query_cursor_exec(q: &Vec<char>) -> (r: Option<Vec<char>>)
    ensures
        match r {
            Some(v) => query_cursor(q@) == Some(v@),
            None => query_cursor(q@) is None,
        },
    decreases q@.len(),
{
    let split = split_once_char(q, '&');
    let seg = match &split {
        Some((a, _)) => slice_all(a),
        None => slice_all(q),
    };
    match split_once_char(&seg, '=') {
        Some((k, v)) => {
            if str_eq(string_of_all(&k).as_str(), "cursor") {
                return Some(v);
            }
        },
        None => {},
    }
    match split {
        Some((_, rest)) => {
            proof {
                lemma_index_of(q@, '&');
            }
            query_cursor_exec(&rest)
        },
        None => None,
    }
}

/// The history cursor of a path: the first `cursor` value of its query.
pub fn t212_history_cursor(path: &str) -> (r: Option<String>)
    ensures
        match split_once(path@, '?') {
            None => r is None,
            Some((_, query)) => match query_cursor(query) {
                Some(c) => r matches Some(t) && t@ == c,
                None => r is None,
            },
        },
{
    match split_once_char(&chars(path), '?') {
        None => None,
        Some((_, query)) => match query_cursor_exec(&query) {
            Some(c) => Some(string_of_all(&c)),
            None => None,
        },
    }
}

/// The read routes of each endpoint. The crypto exchanges take no route.
pub open spec fn endpoint_allows(e: ProviderEndpoint, p: Seq<char>) -> bool {
    let summary = "/api/v0/equity/account/summary"@;
    let positions = "/api/v0/equity/positions"@;
    let orders = "/api/v0/equity/orders"@;
    match e {
        ProviderEndpoint::AlpacaPaper => alpaca_path_ok(p),
        ProviderEndpoint::Trading212Demo => p == summary || p == positions || p == orders
            || t212_order_detail_path_ok(p) || t212_history_path_ok(p),
        ProviderEndpoint::Trading212Live => p == summary || p == positions || p == orders,
        _ => false,
    }
}

/// The routes of each endpoint by method: reads as `endpoint_allows`; order
/// posts only on the paper broker's order route and the two demo order
/// routes; cancellation only of a paper order by its identifier.
pub open spec fn endpoint_allows_method(e: ProviderEndpoint, m: ProviderHttpMethod, p: Seq<char>) -> bool {
    match m {
        ProviderHttpMethod::Get => endpoint_allows(e, p),
        ProviderHttpMethod::Post => (e == ProviderEndpoint::AlpacaPaper && p == "/v2/orders"@) || (e
            == ProviderEndpoint::Trading212Demo && (p == "/api/v0/equity/orders/market"@ || p
            == "/api/v0/equity/orders/limit"@)),
        ProviderHttpMethod::Delete => e == ProviderEndpoint::AlpacaPaper && has_prefix(
            p,
            "/v2/orders/"@,
        ) && provider_order_id_ok(after(p, "/v2/orders/"@)),
    }
}

impl ProviderEndpoint {
    pub fn base_url(self) -> (r: &'static str)
        ensures
            r@ == match self {
                ProviderEndpoint::AlpacaPaper => "https://paper-api.alpaca.markets"@,
                ProviderEndpoint::Trading212Demo => "https://demo.trading212.com"@,
                ProviderEndpoint::Trading212Live => "https://live.trading212.com"@,
                ProviderEndpoint::BinanceTestnet => "https://testnet.binance.vision"@,
                ProviderEndpoint::BinanceLive => "https://api.binance.com"@,
                _ => "https://api.bitget.com"@,
            },
    {
        match self {
            ProviderEndpoint::AlpacaPaper => "https://paper-api.alpaca.markets",
            ProviderEndpoint::Trading212Demo => "https://demo.trading212.com",
            ProviderEndpoint::Trading212Live => "https://live.trading212.com",
            ProviderEndpoint::BinanceTestnet => "https://testnet.binance.vision",
            ProviderEndpoint::BinanceLive => "https://api.binance.com",
            ProviderEndpoint::BitgetDemo | ProviderEndpoint::BitgetLive => "https://api.bitget.com",
        }
    }

    pub fn is_binance(self) -> (r: bool)
        ensures
            r == (self == ProviderEndpoint::BinanceTestnet || self == ProviderEndpoint::BinanceLive),
    {
        self == ProviderEndpoint::BinanceTestnet || self == ProviderEndpoint::BinanceLive
    }

    pub fn is_bitget(self) -> (r: bool)
        ensures
            r == (self == ProviderEndpoint::BitgetDemo || self == ProviderEndpoint::BitgetLive),
    {
        self == ProviderEndpoint::BitgetDemo || self == ProviderEndpoint::BitgetLive
    }

    /// Whether a read of `path` is allowed on this endpoint.
    pub fn allows(self, path: &str) -> (r: bool)
        ensures
            r == endpoint_allows(self, path@),
    {
        match self {
            ProviderEndpoint::AlpacaPaper => allowed_path(path),
            ProviderEndpoint::Trading212Demo => str_eq(path, "/api/v0/equity/account/summary")
                || str_eq(path, "/api/v0/equity/positions") || str_eq(path, "/api/v0/equity/orders")
                || valid_t212_order_detail_path(path) || valid_t212_history_path(path),
            ProviderEndpoint::Trading212Live => str_eq(path, "/api/v0/equity/account/summary")
                || str_eq(path, "/api/v0/equity/positions") || str_eq(path, "/api/v0/equity/orders"),
            _ => false,
        }
    }

    /// Whether a request with `method` on `path` is allowed on this endpoint.
    pub fn allows_method(self, method: ProviderHttpMethod, path: &str) -> (r: bool)
        ensures
            r == endpoint_allows_method(self, method, path@),
    {
        match method {
            ProviderHttpMethod::Get => self.allows(path),
            ProviderHttpMethod::Post => (self == ProviderEndpoint::AlpacaPaper && str_eq(
                path,
                "/v2/orders",
            )) || (self == ProviderEndpoint::Trading212Demo && (str_eq(
                path,
                "/api/v0/equity/orders/market",
            ) || str_eq(path, "/api/v0/equity/orders/limit"))),
            ProviderHttpMethod::Delete => self == ProviderEndpoint::AlpacaPaper && prefixed_order_id(
                &chars(path),
                "/v2/orders/",
            ),
        }
    }
}

fn invalid() -> (e: TradeXError)
    ensures
        e.code@ == "PROVIDER_RESPONSE_INVALID"@,
{
    TradeXError::new("PROVIDER_RESPONSE_INVALID")
}

fn incomplete() -> (e: TradeXError)
    ensures
        e.code@ == "PROVIDER_RESPONSE_INCOMPLETE"@,
{
    TradeXError::new("PROVIDER_RESPONSE_INCOMPLETE")
}

/// Compares two unsigned decimal texts exactly; a negative text is invalid.
pub fn decimal_cmp(left: &str, right: &str) -> (r: Result<Comparison, TradeXError>)
    ensures
        match decimal_order(left@, right@) {
            Some(c) => r == Ok::<Comparison, TradeXError>(c),
            None => r matches Err(e) && e.code@ == "PROVIDER_RESPONSE_INVALID"@,
        },
{
    match compare_decimals(left, right) {
        Some(c) => Ok(c),
        None => Err(invalid()),
    }
}

/// Exact decimal normalization of a provider text: no float conversion, no
/// exponent, no silent missing-to-zero.
pub fn decimal_text(raw: &str) -> (r: Result<String, TradeXError>)
    ensures
        r is Ok <==> decimal_accepts(raw@),
        r matches Ok(t) ==> t@ == decimal_normal(raw@) && is_canonical(t@) && same_value(t@, raw@),
        r matches Err(e) ==> e.code@ == "PROVIDER_RESPONSE_INVALID"@,
{
    match normalize_decimal_text(raw) {
        Some(t) => Ok(t),
        None => Err(invalid()),
    }
}

/// Exact difference `left - right` of two unsigned provider decimals at
/// their common scale, normalized; invalid when either is not a decimal or
/// is negative, the difference is negative, or its text exceeds 128 bytes.
pub fn decimal_subtract(left: &str, right: &str) -> (r: Result<String, TradeXError>)
    ensures
        r is Ok <==> (decimal_accepts(left@) && decimal_accepts(right@) && !is_negative_text(left@) && !is_negative_text(right@) && units_at(
            left@,
            common_scale(left@, right@),
        ) >= units_at(right@, common_scale(left@, right@)) && whole_of(left@).len()
            + common_scale(left@, right@) + (if common_scale(left@, right@) > 0 {
            1int
        } else {
            0int
        }) <= 128),
        r matches Ok(t) ==> is_canonical(t@) && denotes(
            t@,
            units_at(left@, common_scale(left@, right@)) - units_at(
                right@,
                common_scale(left@, right@),
            ),
            common_scale(left@, right@),
        ),
        r matches Err(e) ==> e.code@ == "PROVIDER_RESPONSE_INVALID"@,
{
    if decimal_text(left).is_err() || decimal_text(right).is_err() {
        return Err(invalid());
    }
    match subtract_decimal_texts(left, right) {
        Some(t) => Ok(t),
        None => Err(invalid()),
    }
}

/// Exact bounded sum of two non-negative provider decimals, normalized;
/// invalid when its text would exceed 128 bytes.
pub fn total(a: &str, b: &str) -> (r: Result<String, TradeXError>)
    requires
        decimal_accepts(a@),
        decimal_accepts(b@),
        !is_negative_text(a@),
        !is_negative_text(b@),
    ensures
        r is Ok <==> sum_text_len(a@, b@) <= 128,
        r matches Ok(t) ==> is_canonical(t@) && denotes(
            t@,
            units_at(a@, common_scale(a@, b@)) + units_at(b@, common_scale(a@, b@)),
            common_scale(a@, b@),
        ),
        r matches Err(e) ==> e.code@ == "PROVIDER_RESPONSE_INVALID"@,
{
    match add_decimal_texts(a, b) {
        Some(t) => Ok(t),
        None => Err(invalid()),
    }
}

/// A normalized decimal that is not negative.
pub fn positive(raw: &str) -> (r: Result<String, TradeXError>)
    ensures
        r is Ok <==> decimal_accepts(raw@) && !is_negative_text(decimal_normal(raw@)),
        r matches Ok(t) ==> t@ == decimal_normal(raw@),
        r matches Err(e) ==> e.code@ == "PROVIDER_RESPONSE_INVALID"@,
{
    let t = match decimal_text(raw) {
        Ok(t) => t,
        Err(e) => {
            return Err(e);
        },
    };
    let v = chars(t.as_str());
    if v.len() > 0 && v[0] == '-' {
        return Err(invalid());
    }
    Ok(t)
}

/// The error code of a failed paper-broker read with HTTP `status`.
pub open spec fn alpaca_read_code(status: u16) -> Seq<char> {
    if status == 401 {
        "PROVIDER_AUTH_FAILED"@
    } else if status == 403 {
        "PROVIDER_PERMISSION_BLOCKED"@
    } else if status == 418 || status == 429 {
        "PROVIDER_RATE_LIMITED"@
    } else if 400 <= status <= 499 {
        "PROVIDER_RESPONSE_INVALID"@
    } else {
        "PROVIDER_UNAVAILABLE"@
    }
}

pub fn alpaca_read_error(status: u16) -> (e: TradeXError)
    ensures
        e.code@ == alpaca_read_code(status),
{
    if status == 401 {
        TradeXError::new("PROVIDER_AUTH_FAILED")
    } else if status == 403 {
        TradeXError::new("PROVIDER_PERMISSION_BLOCKED")
    } else if status == 418 || status == 429 {
        TradeXError::new("PROVIDER_RATE_LIMITED")
    } else if 400 <= status && status <= 499 {
        TradeXError::new("PROVIDER_RESPONSE_INVALID")
    } else {
        TradeXError::new("PROVIDER_UNAVAILABLE")
    }
}

pub open spec fn is_cancelable(s: Seq<char>) -> bool {
    s == "new"@ || s == "accepted"@ || s == "pending_new"@ || s == "partially_filled"@
}

/// The working statuses of a paper order can be cancelled: an order whose
/// fresh read says `new`, `accepted`, `pending_new` or `partially_filled`
/// keeps that status when the book's local state is carried over, and is
/// cancelable; no finished order (`filled`, `canceled`, `expired`,
/// `rejected`, `replaced`) is; and every cancelable order is one the
/// account read lists as open.
pub proof fn lemma_working_orders_cancelable(fresh: AlpacaPaperOrder, reviewed: AlpacaPaperOrder, s: Seq<char>)
    ensures
        (fresh.provider_status@ == "new"@ || fresh.provider_status@ == "accepted"@ || fresh.provider_status@
            == "pending_new"@ || fresh.provider_status@ == "partially_filled"@) ==> is_cancelable(
            preserved(fresh, reviewed).provider_status@,
        ),
        (s == "filled"@ || s == "canceled"@ || s == "expired"@ || s == "rejected"@ || s == "replaced"@)
            ==> !is_cancelable(s),
        is_cancelable(s) ==> open_status_ok(s),
{
    reveal_strlit("new");
    reveal_strlit("accepted");
    reveal_strlit("pending_new");
    reveal_strlit("partially_filled");
    reveal_strlit("filled");
    reveal_strlit("canceled");
    reveal_strlit("expired");
    reveal_strlit("rejected");
    reveal_strlit("replaced");
    if (s == "filled"@ || s == "canceled"@ || s == "expired"@ || s == "rejected"@ || s == "replaced"@) && is_cancelable(s) {
        assert(s.len() == 8);
        assert(s[0] == 'a');
        assert(false);
    }
}

pub fn cancelable_status(status: &str) -> (r: bool)
    ensures
        r == is_cancelable(status@),
{
    str_eq(status, "new") || str_eq(status, "accepted") || str_eq(status, "pending_new") || str_eq(
        status,
        "partially_filled",
    )
}

pub open spec fn is_terminal(s: Seq<char>) -> bool {
    s == "filled"@ || s == "canceled"@ || s == "expired"@ || s == "rejected"@ || s == "replaced"@
}

pub fn is_terminal_order_status(status: &str) -> (r: bool)
    ensures
        r == is_terminal(status@),
{
    str_eq(status, "filled") || str_eq(status, "canceled") || str_eq(status, "expired") || str_eq(
        status,
        "rejected",
    ) || str_eq(status, "replaced")
}

/// The attempt marked as awaiting reconciliation with an unknown outcome.
pub fn unknown_attempt(attempt: AlpacaPaperOrderAttempt, error_code: &str, reason: &str) -> (r: AlpacaPaperOrderAttempt)
    ensures
        r.state == AlpacaPaperOrderAttemptState::UnknownReconciling,
        r.provider_order_id is None,
        r.provider_status is None,
        r.error_code matches Some(c) && c@ == error_code@,
        r.reason@ == reason@,
        r.attempt_id == attempt.attempt_id,
        r.workspace_id == attempt.workspace_id,
        r.connection_id == attempt.connection_id,
        r.remote_account_id == attempt.remote_account_id,
        r.proposal_id == attempt.proposal_id,
        r.proposal_hash == attempt.proposal_hash,
        r.client_order_id == attempt.client_order_id,
        r.state_version == attempt.state_version,
        r.created_at == attempt.created_at,
        r.updated_at == attempt.updated_at,
{
    let mut a = attempt;
    a.state = AlpacaPaperOrderAttemptState::UnknownReconciling;
    a.provider_order_id = None;
    a.provider_status = None;
    a.error_code = Some(owned(error_code));
    a.reason = owned(reason);
    a
}

/// The demo attempt marked as awaiting reconciliation: the provider may
/// have the order, so it must not be resubmitted.
pub fn trading212_unknown_attempt(attempt: Trading212DemoOrderAttempt) -> (r: Trading212DemoOrderAttempt)
    ensures
        r.state == Trading212DemoOrderAttemptState::UnknownReconciling,
        r.provider_order_id is None,
        r.provider_status is None,
        r.error_code matches Some(c) && c@ == "ORDER_STATUS_UNKNOWN"@,
        r.reason@
            == "Trading 212 may have received the order, but its response could not be verified. Do not resubmit; query the account for evidence."@,
        r.attempt_id == attempt.attempt_id,
        r.workspace_id == attempt.workspace_id,
        r.connection_id == attempt.connection_id,
        r.remote_account_id == attempt.remote_account_id,
        r.proposal_id == attempt.proposal_id,
        r.proposal_hash == attempt.proposal_hash,
        r.state_version == attempt.state_version,
        r.created_at == attempt.created_at,
        r.updated_at == attempt.updated_at,
{
    let mut a = attempt;
    a.state = Trading212DemoOrderAttemptState::UnknownReconciling;
    a.provider_order_id = None;
    a.provider_status = None;
    a.error_code = Some(owned("ORDER_STATUS_UNKNOWN"));
    a.reason = owned(
        "Trading 212 may have received the order, but its response could not be verified. Do not resubmit; query the account for evidence.",
    );
    a
}

pub open spec fn opt_eq(a: Option<String>, b: Option<String>) -> bool {
    match (a, b) {
        (Some(x), Some(y)) => x@ == y@,
        (None, None) => true,
        _ => false,
    }
}

fn opt_text_eq(a: &Option<String>, b: &Option<String>) -> (r: bool)
    ensures
        r == opt_eq(*a, *b),
{
    match (a, b) {
        (Some(x), Some(y)) => str_eq(x.as_str(), y.as_str()),
        (None, None) => true,
        _ => false,
    }
}

/// Two orders are the same provider order: identifiers, instrument, side,
/// type, time in force, quantity and submission time agree.
pub open spec fn same_identity(l: AlpacaPaperOrder, r: AlpacaPaperOrder) -> bool {
    &&& l.provider_order_id@ == r.provider_order_id@
    &&& l.client_order_id@ == r.client_order_id@
    &&& l.symbol@ == r.symbol@
    &&& opt_eq(l.instrument_id, r.instrument_id)
    &&& l.side@ == r.side@
    &&& l.order_type@ == r.order_type@
    &&& l.time_in_force@ == r.time_in_force@
    &&& opt_eq(l.quantity, r.quantity)
    &&& l.submitted_at@ == r.submitted_at@
}

pub fn same_order_identity(left: &AlpacaPaperOrder, right: &AlpacaPaperOrder) -> (r: bool)
    ensures
        r == same_identity(*left, *right),
{
    str_eq(left.provider_order_id.as_str(), right.provider_order_id.as_str()) && str_eq(
        left.client_order_id.as_str(),
        right.client_order_id.as_str(),
    ) && str_eq(left.symbol.as_str(), right.symbol.as_str()) && opt_text_eq(
        &left.instrument_id,
        &right.instrument_id,
    ) && str_eq(left.side.as_str(), right.side.as_str()) && str_eq(
        left.order_type.as_str(),
        right.order_type.as_str(),
    ) && str_eq(left.time_in_force.as_str(), right.time_in_force.as_str()) && opt_text_eq(
        &left.quantity,
        &right.quantity,
    ) && str_eq(left.submitted_at.as_str(), right.submitted_at.as_str())
}

/// The same order in the same reviewed state: status and fill progress
/// agree too.
pub open spec fn same_review(l: AlpacaPaperOrder, r: AlpacaPaperOrder) -> bool {
    same_identity(l, r) && l.provider_status@ == r.provider_status@ && l.filled_quantity@
        == r.filled_quantity@ && opt_eq(l.remaining_quantity, r.remaining_quantity)
}

pub fn same_order_review(left: &AlpacaPaperOrder, right: &AlpacaPaperOrder) -> (r: bool)
    ensures
        r == same_review(*left, *right),
{
    same_order_identity(left, right) && str_eq(
        left.provider_status.as_str(),
        right.provider_status.as_str(),
    ) && str_eq(left.filled_quantity.as_str(), right.filled_quantity.as_str()) && opt_text_eq(
        &left.remaining_quantity,
        &right.remaining_quantity,
    )
}

/// A fresh order keeping the local origin and, while it is not terminal,
/// the local cancellation state of the previous copy.
pub open spec fn preserved(fresh: AlpacaPaperOrder, previous: AlpacaPaperOrder) -> AlpacaPaperOrder {
    let terminal = is_terminal(fresh.provider_status@);
    AlpacaPaperOrder {
        origin: previous.origin,
        cancel_state: if terminal {
            AlpacaPaperCancelState::NotRequested
        } else {
            previous.cancel_state
        },
        cancel_idempotency_key: if terminal {
            None
        } else {
            previous.cancel_idempotency_key
        },
        cancel_error: if terminal {
            None
        } else {
            previous.cancel_error
        },
        ..fresh
    }
}

fn clone_option(o: &Option<String>) -> (r: Option<String>)
    ensures
        r == *o,
{
    match o {
        Some(s) => Some(s.clone()),
        None => None,
    }
}

pub fn preserve_local_order_state(fresh: AlpacaPaperOrder, previous: &AlpacaPaperOrder) -> (r: AlpacaPaperOrder)
    ensures
        r == preserved(fresh, *previous),
{
    let mut f = fresh;
    f.origin = previous.origin;
    if is_terminal_order_status(f.provider_status.as_str()) {
        f.cancel_state = AlpacaPaperCancelState::NotRequested;
        f.cancel_idempotency_key = None;
        f.cancel_error = None;
    } else {
        f.cancel_state = previous.cancel_state;
        f.cancel_idempotency_key = clone_option(&previous.cancel_idempotency_key);
        f.cancel_error = clone_option(&previous.cancel_error);
    }
    f
}

/// The position of the first order with this provider identifier.
pub open spec fn order_index_from(orders: Seq<AlpacaPaperOrder>, id: Seq<char>, i: int) -> Option<int>
    decreases orders.len() - i,
{
    if i < 0 || i >= orders.len() {
        None
    } else if orders[i].provider_order_id@ == id {
        Some(i)
    } else {
        order_index_from(orders, id, i + 1)
    }
}

/// Whether the stored copy is newer than the fresh one; `None` when either
/// update time cannot be read.
pub open spec fn stored_is_newer(previous: AlpacaPaperOrder, fresh: AlpacaPaperOrder) -> Option<bool> {
    match (previous.provider_updated_at, fresh.provider_updated_at) {
        (Some(p), Some(f)) => match (rfc3339_instant(p@), rfc3339_instant(f@)) {
            (Some(a), Some(b)) => Some(a.0 > b.0 || (a.0 == b.0 && a.1 > b.1)),
            _ => None,
        },
        _ => Some(false),
    }
}

/// Replacing an order in a book: a new order is appended; a known order
/// must keep its identity, is kept when the stored copy is newer, and is
/// otherwise replaced with its local state preserved.
pub open spec fn replaced(orders: Seq<AlpacaPaperOrder>, fresh: AlpacaPaperOrder) -> Result<Seq<AlpacaPaperOrder>, Seq<char>> {
    match order_index_from(orders, fresh.provider_order_id@, 0) {
        None => Ok(orders.push(fresh)),
        Some(i) => if !same_identity(orders[i], fresh) {
            Err("PROVIDER_RESPONSE_INCOMPLETE"@)
        } else {
            match stored_is_newer(orders[i], fresh) {
                None => Err("PROVIDER_RESPONSE_INCOMPLETE"@),
                Some(true) => Ok(orders),
                Some(false) => Ok(orders.update(i, preserved(fresh, orders[i]))),
            }
        },
    }
}

proof fn lemma_order_index_skip(orders: Seq<AlpacaPaperOrder>, id: Seq<char>, i: int)
    requires
        0 <= i <= orders.len(),
        forall|k: int| 0 <= k < i ==> (#[trigger] orders[k]).provider_order_id@ != id,
    ensures
        order_index_from(orders, id, 0) == order_index_from(orders, id, i),
    decreases i,
{
    if i > 0 {
        lemma_order_index_skip(orders, id, i - 1);
    }
}

fn stored_is_newer_exec(previous: &AlpacaPaperOrder, fresh: &AlpacaPaperOrder) -> (r: Option<bool>)
    ensures
        r == stored_is_newer(*previous, *fresh),
{
    match (&previous.provider_updated_at, &fresh.provider_updated_at) {
        (Some(p), Some(f)) => match (parse_rfc3339(p.as_str()), parse_rfc3339(f.as_str())) {
            (Some((ps, pn)), Some((fs, fnano))) => Some(ps > fs || (ps == fs && pn > fnano)),
            _ => None,
        },
        _ => Some(false),
    }
}

pub fn replace_order(orders: &mut Vec<AlpacaPaperOrder>, fresh: AlpacaPaperOrder) -> (r: Result<(), TradeXError>)
    ensures
        match replaced(old(orders)@, fresh) {
            Ok(v) => r is Ok && final(orders)@ == v,
            Err(c) => (r matches Err(e) && e.code@ == c) && final(orders)@ == old(orders)@,
        },
{
    let mut i: usize = 0;
    while i < orders.len()
        invariant
            i <= orders@.len(),
            orders@ == old(orders)@,
            forall|k: int| 0 <= k < i ==> (#[trigger] orders@[k]).provider_order_id@ != fresh.provider_order_id@,
        decreases orders@.len() - i,
    {
        if str_eq(orders[i].provider_order_id.as_str(), fresh.provider_order_id.as_str()) {
            proof {
                lemma_order_index_skip(orders@, fresh.provider_order_id@, i as int);
            }
            if !same_order_identity(&orders[i], &fresh) {
                return Err(incomplete());
            }
            match stored_is_newer_exec(&orders[i], &fresh) {
                None => {
                    return Err(incomplete());
                },
                Some(true) => {
                    return Ok(());
                },
                Some(false) => {},
            }
            let updated = preserve_local_order_state(fresh, &orders[i]);
            orders.set(i, updated);
            return Ok(());
        }
        i = i + 1;
    }
    proof {
        lemma_order_index_skip(orders@, fresh.provider_order_id@, i as int);
    }
    orders.push(fresh);
    Ok(())
}

/// The execution identifier of a fill: for a REST activity, the UUID after
/// a 17-digit timestamp and `::`; for a stream update, the whole UUID.
pub open spec fn fill_exec_id(activity_id: Seq<char>, source: AlpacaPaperFillSource) -> Option<Seq<char>> {
    match source {
        AlpacaPaperFillSource::RestActivity => match find(activity_id, "::"@) {
            Some(k) => {
                let ts = activity_id.subrange(0, k);
                let ex = activity_id.subrange(k + 2, activity_id.len() as int);
                if utf8_len(ts) == 17 && all_digits(ts) && uuid_text_ok(ex) {
                    Some(ex)
                } else {
                    None
                }
            },
            None => None,
        },
        AlpacaPaperFillSource::TradeUpdate => if uuid_text_ok(activity_id) {
            Some(activity_id)
        } else {
            None
        },
    }
}

pub fn alpaca_fill_execution_id(activity_id: &str, source: AlpacaPaperFillSource) -> (r: Result<String, TradeXError>)
    ensures
        match fill_exec_id(activity_id@, source) {
            Some(x) => r matches Ok(t) && t@ == x,
            None => r matches Err(e) && e.code@ == "PROVIDER_RESPONSE_INVALID"@,
        },
{
    let v = chars(activity_id);
    let ex = match source {
        AlpacaPaperFillSource::RestActivity => {
            let k = match find_str(&v, "::") {
                Some(k) => k,
                None => {
                    return Err(invalid());
                },
            };
            proof {
                crate::text::lemma_find_from_bounds(v@, "::"@, 0);
                reveal_strlit("::");
                assert(crate::text::occurs_at(v@, "::"@, k as int));
                assert("::"@.len() == 2);
                assert(k + 2 <= v@.len());
            }
            let ts = crate::text::slice(&v, 0, k);
            if utf8_length(&ts) != 17 || !digits_only(&ts) {
                return Err(invalid());
            }
            let n = v.len();
            assert(k + 2 <= n);
            crate::text::slice(&v, k + 2, n)
        },
        AlpacaPaperFillSource::TradeUpdate => crate::text::slice(&v, 0, v.len()),
    };
    proof {
        assert(v@.subrange(0, v@.len() as int) =~= v@);
    }
    let text = string_of_all(&ex);
    if !uuid_parses(text.as_str()) {
        return Err(invalid());
    }
    Ok(text)
}

/// The first fill with the same execution, scanning from `i`; an
/// unreadable execution identifier on the way is an error.
pub open spec fn fill_scan(fills: Seq<AlpacaPaperFill>, exec: Seq<char>, i: int) -> Result<Option<int>, ()>
    decreases fills.len() - i,
{
    if i < 0 || i >= fills.len() {
        Ok(None)
    } else {
        match fill_exec_id(fills[i].activity_id@, fills[i].source) {
            None => Err(()),
            Some(e) => if e == exec {
                Ok(Some(i))
            } else {
                fill_scan(fills, exec, i + 1)
            },
        }
    }
}

/// Two fills record the same execution identically.
pub open spec fn same_fill(p: AlpacaPaperFill, f: AlpacaPaperFill) -> bool {
    &&& p.provider_order_id@ == f.provider_order_id@
    &&& p.symbol@ == f.symbol@
    &&& opt_eq(p.instrument_id, f.instrument_id)
    &&& p.side@ == f.side@
    &&& p.quantity@ == f.quantity@
    &&& p.price@ == f.price@
    &&& p.executed_at@ == f.executed_at@
}

/// Inserting a fill: a new execution is appended; a known one must agree
/// and is replaced only when a REST activity supersedes a stream update.
pub open spec fn fill_inserted(fills: Seq<AlpacaPaperFill>, fresh: AlpacaPaperFill) -> Result<Seq<AlpacaPaperFill>, Seq<char>> {
    match fill_exec_id(fresh.activity_id@, fresh.source) {
        None => Err("PROVIDER_RESPONSE_INVALID"@),
        Some(e) => match fill_scan(fills, e, 0) {
            Err(_) => Err("PROVIDER_RESPONSE_INVALID"@),
            Ok(None) => Ok(fills.push(fresh)),
            Ok(Some(i)) => if !same_fill(fills[i], fresh) {
                Err("PROVIDER_RESPONSE_INCOMPLETE"@)
            } else if fills[i].source == AlpacaPaperFillSource::TradeUpdate && fresh.source
                == AlpacaPaperFillSource::RestActivity {
                Ok(fills.update(i, fresh))
            } else {
                Ok(fills)
            },
        },
    }
}

proof fn lemma_fill_scan_push(fills: Seq<AlpacaPaperFill>, x: AlpacaPaperFill, e: Seq<char>, k: int)
    requires
        0 <= k <= fills.len(),
        fill_scan(fills, e, k) == Ok::<Option<int>, ()>(None),
        fill_exec_id(x.activity_id@, x.source) == Some(e),
    ensures
        fill_scan(fills.push(x), e, k) == Ok::<Option<int>, ()>(Some(fills.len() as int)),
    decreases fills.len() - k,
{
    if k < fills.len() {
        assert(fills.push(x)[k] == fills[k]);
        lemma_fill_scan_push(fills, x, e, k + 1);
    } else {
        assert(fills.push(x)[k] == x);
    }
}

proof fn lemma_fill_scan_update(fills: Seq<AlpacaPaperFill>, i: int, x: AlpacaPaperFill, e: Seq<char>, k: int)
    requires
        0 <= k <= i < fills.len(),
        fill_scan(fills, e, k) == Ok::<Option<int>, ()>(Some(i)),
        fill_exec_id(x.activity_id@, x.source) == Some(e),
    ensures
        fill_scan(fills.update(i, x), e, k) == Ok::<Option<int>, ()>(Some(i)),
    decreases i - k,
{
    if k < i {
        assert(fills.update(i, x)[k] == fills[k]);
        lemma_fill_scan_update(fills, i, x, e, k + 1);
    }
}

proof fn lemma_fill_scan_found(fills: Seq<AlpacaPaperFill>, e: Seq<char>, k: int)
    requires
        0 <= k,
    ensures
        fill_scan(fills, e, k) matches Ok(Some(i)) ==> k <= i < fills.len() && fill_exec_id(
            fills[i].activity_id@,
            fills[i].source,
        ) == Some(e),
    decreases fills.len() - k,
{
    if k < fills.len() {
        lemma_fill_scan_found(fills, e, k + 1);
    }
}

/// Fills are deduplicated: inserting a fill a second time leaves the list
/// as the first insertion left it.
pub proof fn lemma_fill_insert_idempotent(fills: Seq<AlpacaPaperFill>, fresh: AlpacaPaperFill)
    requires
        fill_inserted(fills, fresh) is Ok,
    ensures
        fill_inserted(fill_inserted(fills, fresh)->Ok_0, fresh) == fill_inserted(fills, fresh),
{
    let e = fill_exec_id(fresh.activity_id@, fresh.source)->0;
    lemma_fill_scan_found(fills, e, 0);
    match fill_scan(fills, e, 0) {
        Ok(None) => {
            lemma_fill_scan_push(fills, fresh, e, 0);
            assert(fills.push(fresh)[fills.len() as int] == fresh);
        },
        Ok(Some(i)) => {
            if fills[i].source == AlpacaPaperFillSource::TradeUpdate && fresh.source
                == AlpacaPaperFillSource::RestActivity {
                lemma_fill_scan_update(fills, i, fresh, e, 0);
                assert(fills.update(i, fresh)[i] == fresh);
            }
        },
        Err(_) => {},
    }
}

proof fn lemma_order_index_push(orders: Seq<AlpacaPaperOrder>, x: AlpacaPaperOrder, k: int)
    requires
        0 <= k <= orders.len(),
        order_index_from(orders, x.provider_order_id@, k) is None,
    ensures
        order_index_from(orders.push(x), x.provider_order_id@, k) == Some(orders.len() as int),
    decreases orders.len() - k,
{
    if k < orders.len() {
        assert(orders.push(x)[k] == orders[k]);
        lemma_order_index_push(orders, x, k + 1);
    } else {
        assert(orders.push(x)[k] == x);
    }
}

proof fn lemma_order_index_update(orders: Seq<AlpacaPaperOrder>, i: int, x: AlpacaPaperOrder, id: Seq<char>, k: int)
    requires
        0 <= k <= i < orders.len(),
        order_index_from(orders, id, k) == Some(i),
        x.provider_order_id@ == id,
    ensures
        order_index_from(orders.update(i, x), id, k) == Some(i),
    decreases i - k,
{
    if k < i {
        assert(orders.update(i, x)[k] == orders[k]);
        lemma_order_index_update(orders, i, x, id, k + 1);
    }
}

proof fn lemma_order_index_found(orders: Seq<AlpacaPaperOrder>, id: Seq<char>, k: int)
    requires
        0 <= k,
    ensures
        order_index_from(orders, id, k) matches Some(i) ==> k <= i < orders.len() && orders[i].provider_order_id@ == id,
    decreases orders.len() - k,
{
    if k < orders.len() {
        lemma_order_index_found(orders, id, k + 1);
    }
}

/// A fresh order as the broker reports it: no local cancellation state,
/// and an update time that is absent or readable.
pub open spec fn broker_order(o: AlpacaPaperOrder) -> bool {
    &&& o.cancel_state == AlpacaPaperCancelState::NotRequested
    &&& o.cancel_idempotency_key is None
    &&& o.cancel_error is None
    &&& (o.provider_updated_at matches Some(t) ==> rfc3339_instant(t@) is Some)
}

/// A repeated order report changes nothing: replacing an order as the
/// broker reports it a second time leaves the book as the first
/// replacement left it.
pub proof fn lemma_order_replace_idempotent(orders: Seq<AlpacaPaperOrder>, fresh: AlpacaPaperOrder)
    requires
        replaced(orders, fresh) is Ok,
        broker_order(fresh),
    ensures
        replaced(replaced(orders, fresh)->Ok_0, fresh) == replaced(orders, fresh),
{
    let id = fresh.provider_order_id@;
    lemma_order_index_found(orders, id, 0);
    assert(stored_is_newer(fresh, fresh) == Some(false));
    match order_index_from(orders, id, 0) {
        None => {
            lemma_order_index_push(orders, fresh, 0);
            let v = orders.push(fresh);
            assert(v[orders.len() as int] == fresh);
            assert(preserved(fresh, fresh) == fresh);
            assert(v.update(orders.len() as int, fresh) =~= v);
        },
        Some(i) => {
            match stored_is_newer(orders[i], fresh) {
                Some(false) => {
                    let p = preserved(fresh, orders[i]);
                    lemma_order_index_update(orders, i, p, id, 0);
                    let v = orders.update(i, p);
                    assert(v[i] == p);
                    assert(stored_is_newer(p, fresh) == Some(false));
                    assert(preserved(fresh, p) == p);
                    assert(v.update(i, p) =~= v);
                },
                _ => {},
            }
        },
    }
}

/// The fill has a readable execution identifier other than `exec`.
pub open spec fn other_execution(f: AlpacaPaperFill, exec: Seq<char>) -> bool {
    match fill_exec_id(f.activity_id@, f.source) {
        Some(e) => e != exec,
        None => false,
    }
}

proof fn lemma_fill_scan_skip(fills: Seq<AlpacaPaperFill>, exec: Seq<char>, i: int)
    requires
        0 <= i <= fills.len(),
        forall|k: int|
            0 <= k < i ==> other_execution(#[trigger] fills[k], exec),
    ensures
        fill_scan(fills, exec, 0) == fill_scan(fills, exec, i),
    decreases i,
{
    if i > 0 {
        lemma_fill_scan_skip(fills, exec, i - 1);
    }
}

fn same_fill_exec(p: &AlpacaPaperFill, f: &AlpacaPaperFill) -> (r: bool)
    ensures
        r == same_fill(*p, *f),
{
    str_eq(p.provider_order_id.as_str(), f.provider_order_id.as_str()) && str_eq(
        p.symbol.as_str(),
        f.symbol.as_str(),
    ) && opt_text_eq(&p.instrument_id, &f.instrument_id) && str_eq(p.side.as_str(), f.side.as_str())
        && str_eq(p.quantity.as_str(), f.quantity.as_str()) && str_eq(p.price.as_str(), f.price.as_str())
        && str_eq(p.executed_at.as_str(), f.executed_at.as_str())
}

pub fn insert_fill(fills: &mut Vec<AlpacaPaperFill>, fresh: AlpacaPaperFill) -> (r: Result<(), TradeXError>)
    ensures
        match fill_inserted(old(fills)@, fresh) {
            Ok(v) => r is Ok && final(fills)@ == v,
            Err(c) => (r matches Err(e) && e.code@ == c) && final(fills)@ == old(fills)@,
        },
{
    let exec = match alpaca_fill_execution_id(fresh.activity_id.as_str(), fresh.source) {
        Ok(x) => x,
        Err(e) => {
            return Err(e);
        },
    };
    let mut i: usize = 0;
    while i < fills.len()
        invariant
            i <= fills@.len(),
            fills@ == old(fills)@,
            fill_exec_id(fresh.activity_id@, fresh.source) == Some(exec@),
            forall|k: int|
                0 <= k < i ==> other_execution(#[trigger] fills@[k], exec@),
        decreases fills@.len() - i,
    {
        let previous = match alpaca_fill_execution_id(fills[i].activity_id.as_str(), fills[i].source) {
            Ok(x) => x,
            Err(e) => {
                proof {
                    lemma_fill_scan_skip(fills@, exec@, i as int);
                }
                return Err(e);
            },
        };
        if str_eq(previous.as_str(), exec.as_str()) {
            proof {
                lemma_fill_scan_skip(fills@, exec@, i as int);
            }
            if !same_fill_exec(&fills[i], &fresh) {
                return Err(incomplete());
            }
            if fills[i].source == AlpacaPaperFillSource::TradeUpdate && fresh.source
                == AlpacaPaperFillSource::RestActivity {
                fills.set(i, fresh);
            }
            return Ok(());
        }
        i = i + 1;
    }
    proof {
        lemma_fill_scan_skip(fills@, exec@, i as int);
    }
    fills.push(fresh);
    Ok(())
}

/// Stable insertion of `x` into a list sorted by descending `submitted_at`:
/// after every entry whose submitted_at is not smaller.
pub open spec fn insert_desc_orders(s: Seq<AlpacaPaperOrder>, x: AlpacaPaperOrder) -> Seq<AlpacaPaperOrder>
    decreases s.len(),
{
    if s.len() == 0 {
        seq![x]
    } else if lex_order(s.last().submitted_at@, x.submitted_at@) != Comparison::Less {
        s.push(x)
    } else {
        insert_desc_orders(s.drop_last(), x).push(s.last())
    }
}

/// The stable sort by descending `submitted_at`.
pub open spec fn sort_desc_orders(s: Seq<AlpacaPaperOrder>) -> Seq<AlpacaPaperOrder>
    decreases s.len(),
{
    if s.len() == 0 {
        Seq::empty()
    } else {
        insert_desc_orders(sort_desc_orders(s.drop_last()), s.last())
    }
}

proof fn lemma_insert_desc_at_orders(s: Seq<AlpacaPaperOrder>, x: AlpacaPaperOrder, j: int)
    requires
        0 <= j <= s.len(),
        forall|k: int| j <= k < s.len() ==> lex_order((#[trigger] s[k]).submitted_at@, x.submitted_at@) == Comparison::Less,
        j > 0 ==> lex_order(s[j - 1].submitted_at@, x.submitted_at@) != Comparison::Less,
    ensures
        insert_desc_orders(s, x) == s.insert(j, x),
    decreases s.len(),
{
    if s.len() == 0 {
        assert(s.insert(j, x) =~= seq![x]);
    } else if j == s.len() {
        assert(s.insert(j, x) =~= s.push(x));
    } else {
        let d = s.drop_last();
        assert(lex_order(s.last().submitted_at@, x.submitted_at@) == Comparison::Less);
        assert forall|k: int| j <= k < d.len() implies lex_order((#[trigger] d[k]).submitted_at@, x.submitted_at@) == Comparison::Less by {
            assert(d[k] == s[k]);
        }
        if j > 0 {
            assert(d[j - 1] == s[j - 1]);
        }
        lemma_insert_desc_at_orders(d, x, j);
        assert(d.insert(j, x).push(s.last()) =~= s.insert(j, x));
    }
}

fn sort_desc_orders_exec(items: Vec<AlpacaPaperOrder>) -> (r: Vec<AlpacaPaperOrder>)
    ensures
        r@ == sort_desc_orders(items@),
{
    let ghost orig = items@;
    let n = items.len();
    let mut rest = items;
    let mut out: Vec<AlpacaPaperOrder> = Vec::new();
    let mut k: usize = 0;
    while rest.len() > 0
        invariant
            n == orig.len(),
            k + rest@.len() == orig.len(),
            rest@ == orig.subrange(k as int, orig.len() as int),
            out@ == sort_desc_orders(orig.subrange(0, k as int)),
        decreases rest@.len(),
    {
        let x = rest.remove(0);
        let mut j = out.len();
        while j > 0 && lex_compare(&chars(out[j - 1].submitted_at.as_str()), &chars(x.submitted_at.as_str())) == Comparison::Less
            invariant
                j <= out@.len(),
                forall|t: int| j <= t < out@.len() ==> lex_order((#[trigger] out@[t]).submitted_at@, x.submitted_at@) == Comparison::Less,
            decreases j,
        {
            j = j - 1;
        }
        proof {
            lemma_insert_desc_at_orders(out@, x, j as int);
            let next = orig.subrange(0, k + 1);
            assert(next.drop_last() =~= orig.subrange(0, k as int));
            assert(next.last() == x);
        }
        out.insert(j, x);
        k = k + 1;
        proof {
            assert(rest@ =~= orig.subrange(k as int, orig.len() as int));
        }
    }
    assert(orig.subrange(0, orig.len() as int) =~= orig);
    out
}

/// Stable insertion of `x` into a list sorted by descending `executed_at`:
/// after every entry whose executed_at is not smaller.
pub open spec fn insert_desc_fills(s: Seq<AlpacaPaperFill>, x: AlpacaPaperFill) -> Seq<AlpacaPaperFill>
    decreases s.len(),
{
    if s.len() == 0 {
        seq![x]
    } else if lex_order(s.last().executed_at@, x.executed_at@) != Comparison::Less {
        s.push(x)
    } else {
        insert_desc_fills(s.drop_last(), x).push(s.last())
    }
}

/// The stable sort by descending `executed_at`.
pub open spec fn sort_desc_fills(s: Seq<AlpacaPaperFill>) -> Seq<AlpacaPaperFill>
    decreases s.len(),
{
    if s.len() == 0 {
        Seq::empty()
    } else {
        insert_desc_fills(sort_desc_fills(s.drop_last()), s.last())
    }
}

proof fn lemma_insert_desc_at_fills(s: Seq<AlpacaPaperFill>, x: AlpacaPaperFill, j: int)
    requires
        0 <= j <= s.len(),
        forall|k: int| j <= k < s.len() ==> lex_order((#[trigger] s[k]).executed_at@, x.executed_at@) == Comparison::Less,
        j > 0 ==> lex_order(s[j - 1].executed_at@, x.executed_at@) != Comparison::Less,
    ensures
        insert_desc_fills(s, x) == s.insert(j, x),
    decreases s.len(),
{
    if s.len() == 0 {
        assert(s.insert(j, x) =~= seq![x]);
    } else if j == s.len() {
        assert(s.insert(j, x) =~= s.push(x));
    } else {
        let d = s.drop_last();
        assert(lex_order(s.last().executed_at@, x.executed_at@) == Comparison::Less);
        assert forall|k: int| j <= k < d.len() implies lex_order((#[trigger] d[k]).executed_at@, x.executed_at@) == Comparison::Less by {
            assert(d[k] == s[k]);
        }
        if j > 0 {
            assert(d[j - 1] == s[j - 1]);
        }
        lemma_insert_desc_at_fills(d, x, j);
        assert(d.insert(j, x).push(s.last()) =~= s.insert(j, x));
    }
}

fn sort_desc_fills_exec(items: Vec<AlpacaPaperFill>) -> (r: Vec<AlpacaPaperFill>)
    ensures
        r@ == sort_desc_fills(items@),
{
    let ghost orig = items@;
    let n = items.len();
    let mut rest = items;
    let mut out: Vec<AlpacaPaperFill> = Vec::new();
    let mut k: usize = 0;
    while rest.len() > 0
        invariant
            n == orig.len(),
            k + rest@.len() == orig.len(),
            rest@ == orig.subrange(k as int, orig.len() as int),
            out@ == sort_desc_fills(orig.subrange(0, k as int)),
        decreases rest@.len(),
    {
        let x = rest.remove(0);
        let mut j = out.len();
        while j > 0 && lex_compare(&chars(out[j - 1].executed_at.as_str()), &chars(x.executed_at.as_str())) == Comparison::Less
            invariant
                j <= out@.len(),
                forall|t: int| j <= t < out@.len() ==> lex_order((#[trigger] out@[t]).executed_at@, x.executed_at@) == Comparison::Less,
            decreases j,
        {
            j = j - 1;
        }
        proof {
            lemma_insert_desc_at_fills(out@, x, j as int);
            let next = orig.subrange(0, k + 1);
            assert(next.drop_last() =~= orig.subrange(0, k as int));
            assert(next.last() == x);
        }
        out.insert(j, x);
        k = k + 1;
        proof {
            assert(rest@ =~= orig.subrange(k as int, orig.len() as int));
        }
    }
    assert(orig.subrange(0, orig.len() as int) =~= orig);
    out
}

pub(crate) fn copy_order(o: &AlpacaPaperOrder) -> (r: AlpacaPaperOrder)
    ensures
        r == *o,
{
    AlpacaPaperOrder {
        provider_order_id: o.provider_order_id.clone(),
        client_order_id: o.client_order_id.clone(),
        symbol: o.symbol.clone(),
        instrument_id: clone_option(&o.instrument_id),
        side: o.side.clone(),
        order_type: o.order_type.clone(),
        time_in_force: o.time_in_force.clone(),
        provider_status: o.provider_status.clone(),
        quantity: clone_option(&o.quantity),
        filled_quantity: o.filled_quantity.clone(),
        remaining_quantity: clone_option(&o.remaining_quantity),
        submitted_at: o.submitted_at.clone(),
        provider_updated_at: clone_option(&o.provider_updated_at),
        observed_at: o.observed_at.clone(),
        origin: o.origin,
        cancel_state: o.cancel_state,
        cancel_idempotency_key: clone_option(&o.cancel_idempotency_key),
        cancel_error: clone_option(&o.cancel_error),
    }
}

fn copy_fill(f: &AlpacaPaperFill) -> (r: AlpacaPaperFill)
    ensures
        r == *f,
{
    AlpacaPaperFill {
        activity_id: f.activity_id.clone(),
        provider_order_id: f.provider_order_id.clone(),
        symbol: f.symbol.clone(),
        instrument_id: clone_option(&f.instrument_id),
        side: f.side.clone(),
        quantity: f.quantity.clone(),
        price: f.price.clone(),
        source: f.source,
        executed_at: f.executed_at.clone(),
        observed_at: f.observed_at.clone(),
    }
}

/// Folding fresh orders into a book, at most 600 orders at any point.
pub open spec fn merged_orders(acc: Seq<AlpacaPaperOrder>, fresh: Seq<AlpacaPaperOrder>) -> Result<Seq<AlpacaPaperOrder>, Seq<char>>
    decreases fresh.len(),
{
    if fresh.len() == 0 {
        Ok(acc)
    } else {
        match replaced(acc, fresh[0]) {
            Err(c) => Err(c),
            Ok(next) => if next.len() > 600 {
                Err("PROVIDER_RESPONSE_INCOMPLETE"@)
            } else {
                merged_orders(next, fresh.drop_first())
            },
        }
    }
}

/// Folding fresh fills into a ledger, at most 1100 fills at any point.
pub open spec fn merged_fills(acc: Seq<AlpacaPaperFill>, fresh: Seq<AlpacaPaperFill>) -> Result<Seq<AlpacaPaperFill>, Seq<char>>
    decreases fresh.len(),
{
    if fresh.len() == 0 {
        Ok(acc)
    } else {
        match fill_inserted(acc, fresh[0]) {
            Err(c) => Err(c),
            Ok(next) => if next.len() > 1100 {
                Err("PROVIDER_RESPONSE_INCOMPLETE"@)
            } else {
                merged_fills(next, fresh.drop_first())
            },
        }
    }
}

/// The book after a page of orders, newest submission first.
pub fn merge_order_pages(previous: &Vec<AlpacaPaperOrder>, fresh: Vec<AlpacaPaperOrder>) -> (r: Result<Vec<AlpacaPaperOrder>, TradeXError>)
    ensures
        match merged_orders(previous@, fresh@) {
            Ok(m) => r matches Ok(v) && v@ == sort_desc_orders(m),
            Err(c) => r matches Err(e) && e.code@ == c,
        },
{
    let mut merged: Vec<AlpacaPaperOrder> = Vec::new();
    let mut i: usize = 0;
    while i < previous.len()
        invariant
            i <= previous@.len(),
            merged@ == previous@.subrange(0, i as int),
        decreases previous@.len() - i,
    {
        merged.push(copy_order(&previous[i]));
        i = i + 1;
        assert(merged@ =~= previous@.subrange(0, i as int));
    }
    assert(previous@.subrange(0, previous@.len() as int) =~= previous@);
    let ghost all = fresh@;
    let total_fresh = fresh.len();
    let mut rest = fresh;
    let mut k: usize = 0;
    while rest.len() > 0
        invariant
            all == fresh@,
            total_fresh == all.len(),
            k + rest@.len() == all.len(),
            rest@ == all.subrange(k as int, all.len() as int),
            merged_orders(previous@, all) == merged_orders(merged@, rest@),
        decreases rest@.len(),
    {
        let ghost m0 = merged@;
        let ghost r0 = rest@;
        let order = rest.remove(0);
        proof {
            assert(rest@ =~= all.subrange(k + 1, all.len() as int));
            assert(r0[0] == order);
            assert(rest@ =~= r0.drop_first());
        }
        match replace_order(&mut merged, order) {
            Ok(()) => {},
            Err(e) => {
                proof {
                    assert(merged_orders(m0, r0) == Err::<Seq<AlpacaPaperOrder>, Seq<char>>(e.code@));
                }
                return Err(e);
            },
        }
        if merged.len() > 600 {
            proof {
                assert(merged_orders(m0, r0) == Err::<Seq<AlpacaPaperOrder>, Seq<char>>("PROVIDER_RESPONSE_INCOMPLETE"@));
            }
            return Err(incomplete());
        }
        k = k + 1;
    }
    Ok(sort_desc_orders_exec(merged))
}

/// The fill ledger after a page of fills, newest execution first.
pub fn merge_fill_pages(previous: &Vec<AlpacaPaperFill>, fresh: Vec<AlpacaPaperFill>) -> (r: Result<Vec<AlpacaPaperFill>, TradeXError>)
    ensures
        match merged_fills(previous@, fresh@) {
            Ok(m) => r matches Ok(v) && v@ == sort_desc_fills(m),
            Err(c) => r matches Err(e) && e.code@ == c,
        },
{
    let mut merged: Vec<AlpacaPaperFill> = Vec::new();
    let mut i: usize = 0;
    while i < previous.len()
        invariant
            i <= previous@.len(),
            merged@ == previous@.subrange(0, i as int),
        decreases previous@.len() - i,
    {
        merged.push(copy_fill(&previous[i]));
        i = i + 1;
        assert(merged@ =~= previous@.subrange(0, i as int));
    }
    assert(previous@.subrange(0, previous@.len() as int) =~= previous@);
    let ghost all = fresh@;
    let total_fresh = fresh.len();
    let mut rest = fresh;
    let mut k: usize = 0;
    while rest.len() > 0
        invariant
            all == fresh@,
            total_fresh == all.len(),
            k + rest@.len() == all.len(),
            rest@ == all.subrange(k as int, all.len() as int),
            merged_fills(previous@, all) == merged_fills(merged@, rest@),
        decreases rest@.len(),
    {
        let ghost m0 = merged@;
        let ghost r0 = rest@;
        let fill = rest.remove(0);
        proof {
            assert(rest@ =~= all.subrange(k + 1, all.len() as int));
            assert(r0[0] == fill);
            assert(rest@ =~= r0.drop_first());
        }
        match insert_fill(&mut merged, fill) {
            Ok(()) => {},
            Err(e) => {
                proof {
                    assert(merged_fills(m0, r0) == Err::<Seq<AlpacaPaperFill>, Seq<char>>(e.code@));
                }
                return Err(e);
            },
        }
        if merged.len() > 1100 {
            proof {
                assert(merged_fills(m0, r0) == Err::<Seq<AlpacaPaperFill>, Seq<char>>("PROVIDER_RESPONSE_INCOMPLETE"@));
            }
            return Err(incomplete());
        }
        k = k + 1;
    }
    Ok(sort_desc_fills_exec(merged))
}

/// The position of the first demo order with this provider identifier.
pub open spec fn t212_index_from(orders: Seq<Trading212DemoOrder>, id: Seq<char>, i: int) -> Option<int>
    decreases orders.len() - i,
{
    if i < 0 || i >= orders.len() {
        None
    } else if orders[i].provider_order_id@ == id {
        Some(i)
    } else {
        t212_index_from(orders, id, i + 1)
    }
}

/// A received copy contradicts the stored order's identity.
pub open spec fn t212_conflict(cur: Trading212DemoOrder, rec: Trading212DemoOrder) -> bool {
    ||| cur.symbol@ != rec.symbol@
    ||| cur.side@ != rec.side@
    ||| cur.order_type@ != rec.order_type@
    ||| cur.time_in_force@ != rec.time_in_force@
    ||| !opt_eq(cur.quantity, rec.quantity)
    ||| cur.submitted_at@ != rec.submitted_at@
    ||| (cur.currency is Some && rec.currency is Some && !opt_eq(cur.currency, rec.currency))
}

/// The stored order updated from a received copy: the progress fields are
/// taken from the received copy unless a pending-only read would overwrite
/// a pending order; a known currency is kept when none is received.
pub open spec fn t212_updated(cur: Trading212DemoOrder, rec: Trading212DemoOrder, replace_set: bool, refresh: bool) -> Trading212DemoOrder {
    let take = replace_set || refresh || rec.pending || !cur.pending;
    Trading212DemoOrder {
        provider_status: if take {
            rec.provider_status
        } else {
            cur.provider_status
        },
        normalized_status: if take {
            rec.normalized_status
        } else {
            cur.normalized_status
        },
        filled_quantity: if take {
            rec.filled_quantity
        } else {
            cur.filled_quantity
        },
        filled_value: if take {
            rec.filled_value
        } else {
            cur.filled_value
        },
        remaining_quantity: if take {
            rec.remaining_quantity
        } else {
            cur.remaining_quantity
        },
        observed_at: if take {
            rec.observed_at
        } else {
            cur.observed_at
        },
        currency: if rec.currency is Some {
            rec.currency
        } else {
            cur.currency
        },
        pending: if replace_set || refresh {
            rec.pending
        } else {
            cur.pending || rec.pending
        },
        ..cur
    }
}

pub open spec fn t212_merged_one(orders: Seq<Trading212DemoOrder>, rec: Trading212DemoOrder, replace_set: bool, refresh: bool) -> Result<Seq<Trading212DemoOrder>, Seq<char>> {
    match t212_index_from(orders, rec.provider_order_id@, 0) {
        None => Ok(orders.push(rec)),
        Some(i) => if t212_conflict(orders[i], rec) {
            Err("PROVIDER_IDENTITY_CONFLICT"@)
        } else {
            Ok(orders.update(i, t212_updated(orders[i], rec, replace_set, refresh)))
        },
    }
}

proof fn lemma_t212_first_index(orders: Seq<Trading212DemoOrder>, id: Seq<char>, i: int, k: int)
    requires
        0 <= k <= i < orders.len(),
        orders[i].provider_order_id@ == id,
        forall|j: int| 0 <= j < i ==> (#[trigger] orders[j]).provider_order_id@ != id,
    ensures
        t212_index_from(orders, id, k) == Some(i),
    decreases i - k,
{
    if k < i {
        lemma_t212_first_index(orders, id, i, k + 1);
    }
}

/// A received copy of a stored demo order updates it in place: when the
/// copy is taken (the pending set is replaced, the order is refreshed
/// exactly, the copy is pending, or the stored order is not), the merged
/// order carries the copy's provider and normalized status, filled
/// quantity, filled value, remaining quantity and observation time; when a
/// pending-only read meets a pending order with a copy that is not
/// pending, it keeps its own. It is pending as the copy says after a
/// replaced set or a refresh, else when either is; it keeps its currency
/// when the copy has none. Either way it keeps its identity and position,
/// and no other order changes.
pub proof fn lemma_t212_received_copy(
    orders: Seq<Trading212DemoOrder>,
    rec: Trading212DemoOrder,
    i: int,
    replace_set: bool,
    refresh: bool,
)
    requires
        0 <= i < orders.len(),
        orders[i].provider_order_id@ == rec.provider_order_id@,
        forall|j: int| 0 <= j < i ==> (#[trigger] orders[j]).provider_order_id@ != rec.provider_order_id@,
        !t212_conflict(orders[i], rec),
    ensures
        t212_merged(orders, seq![rec], replace_set, refresh) matches Ok(v) && {
            let cur = orders[i];
            let m = v[i];
            &&& v.len() == orders.len()
            &&& forall|j: int| 0 <= j < v.len() && j != i ==> v[j] == orders[j]
            &&& m.provider_order_id == cur.provider_order_id
            &&& m.symbol == cur.symbol
            &&& m.submitted_at == cur.submitted_at
            &&& m.pending == if replace_set || refresh {
                rec.pending
            } else {
                cur.pending || rec.pending
            }
            &&& m.currency == if rec.currency is Some {
                rec.currency
            } else {
                cur.currency
            }
            &&& if replace_set || refresh || rec.pending || !cur.pending {
                &&& m.observed_at == rec.observed_at
                &&& m.provider_status == rec.provider_status
                &&& m.normalized_status == rec.normalized_status
                &&& m.filled_quantity == rec.filled_quantity
                &&& m.filled_value == rec.filled_value
                &&& m.remaining_quantity == rec.remaining_quantity
            } else {
                &&& m.provider_status == cur.provider_status
                &&& m.normalized_status == cur.normalized_status
                &&& m.filled_quantity == cur.filled_quantity
                &&& m.remaining_quantity == cur.remaining_quantity
            }
        },
{
    lemma_t212_first_index(orders, rec.provider_order_id@, i, 0);
    let one = seq![rec];
    assert(one[0] == rec);
    assert(one.drop_first() =~= Seq::<Trading212DemoOrder>::empty());
    let next = orders.update(i, t212_updated(orders[i], rec, replace_set, refresh));
    assert(t212_merged_one(orders, rec, replace_set, refresh) == Ok::<Seq<Trading212DemoOrder>, Seq<char>>(next));
    assert(t212_merged(next, one.drop_first(), replace_set, refresh) == Ok::<Seq<Trading212DemoOrder>, Seq<char>>(next));
    assert(t212_merged(orders, one, replace_set, refresh) == Ok::<Seq<Trading212DemoOrder>, Seq<char>>(next));
}

/// A demo order with an identifier the book does not hold is appended as
/// received; a copy that contradicts the stored order's symbol, side,
/// type, time in force, quantity, submission time or (both known)
/// currency is refused as `PROVIDER_IDENTITY_CONFLICT`.
pub proof fn lemma_t212_new_or_conflicting(
    orders: Seq<Trading212DemoOrder>,
    rec: Trading212DemoOrder,
    i: int,
    replace_set: bool,
    refresh: bool,
)
    ensures
        (forall|j: int| 0 <= j < orders.len() ==> (#[trigger] orders[j]).provider_order_id@ != rec.provider_order_id@)
            ==> t212_merged(orders, seq![rec], replace_set, refresh) == Ok::<Seq<Trading212DemoOrder>, Seq<char>>(
            orders.push(rec),
        ),
        (0 <= i < orders.len() && orders[i].provider_order_id@ == rec.provider_order_id@ && (forall|j: int|
            0 <= j < i ==> (#[trigger] orders[j]).provider_order_id@ != rec.provider_order_id@) && (orders[i].symbol@
            != rec.symbol@ || orders[i].side@ != rec.side@ || orders[i].order_type@ != rec.order_type@
            || orders[i].time_in_force@ != rec.time_in_force@ || orders[i].submitted_at@ != rec.submitted_at@))
            ==> t212_merged(orders, seq![rec], replace_set, refresh) == Err::<Seq<Trading212DemoOrder>, Seq<char>>(
            "PROVIDER_IDENTITY_CONFLICT"@,
        ),
{
    let one = seq![rec];
    assert(one[0] == rec);
    assert(one.drop_first() =~= Seq::<Trading212DemoOrder>::empty());
    if forall|j: int| 0 <= j < orders.len() ==> (#[trigger] orders[j]).provider_order_id@ != rec.provider_order_id@ {
        lemma_t212_absent(orders, rec.provider_order_id@, 0);
        assert(t212_merged(orders.push(rec), one.drop_first(), replace_set, refresh) == Ok::<
            Seq<Trading212DemoOrder>,
            Seq<char>,
        >(orders.push(rec)));
    }
    if 0 <= i < orders.len() && orders[i].provider_order_id@ == rec.provider_order_id@ && (forall|j: int|
        0 <= j < i ==> (#[trigger] orders[j]).provider_order_id@ != rec.provider_order_id@) {
        lemma_t212_first_index(orders, rec.provider_order_id@, i, 0);
    }
}

proof fn lemma_t212_absent(orders: Seq<Trading212DemoOrder>, id: Seq<char>, k: int)
    requires
        0 <= k,
        forall|j: int| 0 <= j < orders.len() ==> (#[trigger] orders[j]).provider_order_id@ != id,
    ensures
        t212_index_from(orders, id, k) is None,
    decreases orders.len() - k,
{
    if k < orders.len() {
        lemma_t212_absent(orders, id, k + 1);
    }
}

pub open spec fn t212_merged(orders: Seq<Trading212DemoOrder>, incoming: Seq<Trading212DemoOrder>, replace_set: bool, refresh: bool) -> Result<Seq<Trading212DemoOrder>, Seq<char>>
    decreases incoming.len(),
{
    if incoming.len() == 0 {
        Ok(orders)
    } else {
        match t212_merged_one(orders, incoming[0], replace_set, refresh) {
            Err(c) => Err(c),
            Ok(next) => t212_merged(next, incoming.drop_first(), replace_set, refresh),
        }
    }
}

/// The stored orders, all marked not pending when the pending set is
/// replaced.
pub open spec fn t212_start(existing: Seq<Trading212DemoOrder>, replace_set: bool) -> Seq<Trading212DemoOrder> {
    if replace_set {
        existing.map_values(|o: Trading212DemoOrder| Trading212DemoOrder { pending: false, ..o })
    } else {
        existing
    }
}

fn copy_t212(o: &Trading212DemoOrder) -> (r: Trading212DemoOrder)
    ensures
        r == *o,
{
    Trading212DemoOrder {
        provider_order_id: o.provider_order_id.clone(),
        symbol: o.symbol.clone(),
        side: o.side.clone(),
        order_type: o.order_type.clone(),
        time_in_force: o.time_in_force.clone(),
        provider_status: o.provider_status.clone(),
        normalized_status: o.normalized_status,
        pending: o.pending,
        quantity: clone_option(&o.quantity),
        filled_quantity: clone_option(&o.filled_quantity),
        filled_value: clone_option(&o.filled_value),
        currency: clone_option(&o.currency),
        remaining_quantity: clone_option(&o.remaining_quantity),
        submitted_at: o.submitted_at.clone(),
        provider_updated_at: clone_option(&o.provider_updated_at),
        observed_at: o.observed_at.clone(),
        origin: o.origin,
        cancel_state: o.cancel_state,
        cancel_idempotency_key: clone_option(&o.cancel_idempotency_key),
        cancel_error: clone_option(&o.cancel_error),
        attempt_id: clone_option(&o.attempt_id),
    }
}

proof fn lemma_t212_index_skip(orders: Seq<Trading212DemoOrder>, id: Seq<char>, i: int)
    requires
        0 <= i <= orders.len(),
        forall|k: int| 0 <= k < i ==> (#[trigger] orders[k]).provider_order_id@ != id,
    ensures
        t212_index_from(orders, id, 0) == t212_index_from(orders, id, i),
    decreases i,
{
    if i > 0 {
        lemma_t212_index_skip(orders, id, i - 1);
    }
}

fn t212_merge_one_exec(orders: &mut Vec<Trading212DemoOrder>, rec: Trading212DemoOrder, replace_set: bool, refresh: bool) -> (r: Result<(), TradeXError>)
    ensures
        match t212_merged_one(old(orders)@, rec, replace_set, refresh) {
            Ok(v) => r is Ok && final(orders)@ == v,
            Err(c) => r matches Err(e) && e.code@ == c,
        },
{
    let mut i: usize = 0;
    while i < orders.len()
        invariant
            i <= orders@.len(),
            orders@ == old(orders)@,
            forall|k: int| 0 <= k < i ==> (#[trigger] orders@[k]).provider_order_id@ != rec.provider_order_id@,
        decreases orders@.len() - i,
    {
        if str_eq(orders[i].provider_order_id.as_str(), rec.provider_order_id.as_str()) {
            proof {
                lemma_t212_index_skip(orders@, rec.provider_order_id@, i as int);
            }
            let cur = copy_t212(&orders[i]);
            let conflict = !str_eq(cur.symbol.as_str(), rec.symbol.as_str()) || !str_eq(
                cur.side.as_str(),
                rec.side.as_str(),
            ) || !str_eq(cur.order_type.as_str(), rec.order_type.as_str()) || !str_eq(
                cur.time_in_force.as_str(),
                rec.time_in_force.as_str(),
            ) || !opt_text_eq(&cur.quantity, &rec.quantity) || !str_eq(
                cur.submitted_at.as_str(),
                rec.submitted_at.as_str(),
            ) || (cur.currency.is_some() && rec.currency.is_some() && !opt_text_eq(
                &cur.currency,
                &rec.currency,
            ));
            if conflict {
                return Err(TradeXError::new("PROVIDER_IDENTITY_CONFLICT"));
            }
            let take = replace_set || refresh || rec.pending || !cur.pending;
            let pending = if replace_set || refresh {
                rec.pending
            } else {
                cur.pending || rec.pending
            };
            let mut next = cur;
            let received_currency = rec.currency;
            if take {
                next.provider_status = rec.provider_status;
                next.normalized_status = rec.normalized_status;
                next.filled_quantity = rec.filled_quantity;
                next.filled_value = rec.filled_value;
                next.remaining_quantity = rec.remaining_quantity;
                next.observed_at = rec.observed_at;
            }
            if received_currency.is_some() {
                next.currency = received_currency;
            }
            next.pending = pending;
            orders.set(i, next);
            return Ok(());
        }
        i = i + 1;
    }
    proof {
        lemma_t212_index_skip(orders@, rec.provider_order_id@, i as int);
    }
    orders.push(rec);
    Ok(())
}

/// Merges received demo orders into the stored ones: each received order
/// updates its stored copy (or is appended), a contradicting copy is an
/// identity conflict, and at most 5000 orders are kept.
pub fn merge_trading212_orders(
    existing: &Vec<Trading212DemoOrder>,
    incoming: Vec<Trading212DemoOrder>,
    replace_pending_set: bool,
    refresh_exact_order: bool,
) -> (r: Result<Vec<Trading212DemoOrder>, TradeXError>)
    ensures
        match t212_merged(t212_start(existing@, replace_pending_set), incoming@, replace_pending_set, refresh_exact_order) {
            Ok(m) => if m.len() > 5000 {
                r matches Err(e) && e.code@ == "PROVIDER_DATA_INCOMPLETE"@
            } else {
                r matches Ok(v) && v@ == m
            },
            Err(c) => r matches Err(e) && e.code@ == c,
        },
{
    let mut orders: Vec<Trading212DemoOrder> = Vec::new();
    let mut i: usize = 0;
    while i < existing.len()
        invariant
            i <= existing@.len(),
            orders@ == t212_start(existing@, replace_pending_set).subrange(0, i as int),
        decreases existing@.len() - i,
    {
        let mut o = copy_t212(&existing[i]);
        if replace_pending_set {
            o.pending = false;
        }
        orders.push(o);
        i = i + 1;
        assert(orders@ =~= t212_start(existing@, replace_pending_set).subrange(0, i as int));
    }
    assert(t212_start(existing@, replace_pending_set).subrange(0, existing@.len() as int) =~= t212_start(existing@, replace_pending_set));
    let ghost all = incoming@;
    let total_incoming = incoming.len();
    let mut rest = incoming;
    let mut k: usize = 0;
    while rest.len() > 0
        invariant
            all == incoming@,
            total_incoming == all.len(),
            k + rest@.len() == all.len(),
            rest@ == all.subrange(k as int, all.len() as int),
            t212_merged(t212_start(existing@, replace_pending_set), all, replace_pending_set, refresh_exact_order)
                == t212_merged(orders@, rest@, replace_pending_set, refresh_exact_order),
        decreases rest@.len(),
    {
        let ghost m0 = orders@;
        let ghost r0 = rest@;
        let received = rest.remove(0);
        proof {
            assert(rest@ =~= all.subrange(k + 1, all.len() as int));
            assert(r0[0] == received);
            assert(rest@ =~= r0.drop_first());
        }
        match t212_merge_one_exec(&mut orders, received, replace_pending_set, refresh_exact_order) {
            Ok(()) => {},
            Err(e) => {
                proof {
                    assert(t212_merged(m0, r0, replace_pending_set, refresh_exact_order) == Err::<Seq<Trading212DemoOrder>, Seq<char>>(e.code@));
                }
                return Err(e);
            },
        }
        k = k + 1;
    }
    if orders.len() > 5000 {
        return Err(TradeXError::new("PROVIDER_DATA_INCOMPLETE"));
    }
    Ok(orders)
}

// ----------------------------------------------------------------------------
// Provider JSON fields
// ----------------------------------------------------------------------------

/// A provider text: 1 to `max` bytes, all printable ASCII other than space.
pub open spec fn text_ok(s: Seq<char>, max: nat) -> bool {
    s.len() > 0 && utf8_len(s) <= max && all_graphic(s)
}

/// A member's text, when it is a valid provider text.
pub open spec fn text_in(m: Option<JsonValue>, max: nat) -> Option<Seq<char>> {
    match str_of(m) {
        Some(s) => if text_ok(s, max) {
            Some(s)
        } else {
            None
        },
        None => None,
    }
}

/// The text of a member, when it is a valid provider text.
pub open spec fn text_of(v: JsonValue, field: Seq<char>, max: nat) -> Option<Seq<char>> {
    text_in(field_of(v, field), max)
}

/// A member's text, when it is a UUID.
pub open spec fn uuid_in(m: Option<JsonValue>) -> Option<Seq<char>> {
    match text_in(m, 36) {
        Some(s) => if uuid_text_ok(s) {
            Some(s)
        } else {
            None
        },
        None => None,
    }
}

/// The text of a member that is a UUID.
pub open spec fn uuid_of(v: JsonValue, field: Seq<char>) -> Option<Seq<char>> {
    uuid_in(field_of(v, field))
}

/// The value a member reference points to.
pub open spec fn deref_opt(m: Option<&JsonValue>) -> Option<JsonValue> {
    match m {
        Some(x) => Some(*x),
        None => None,
    }
}

/// The value of a boolean member.
pub open spec fn flag_of(v: JsonValue, field: Seq<char>) -> Option<bool> {
    match field_of(v, field) {
        Some(JsonValue::Bool(b)) => Some(b),
        _ => None,
    }
}

/// The normalized decimal a string value holds.
pub open spec fn decimal_value(v: Option<JsonValue>) -> Option<Seq<char>> {
    match str_of(v) {
        Some(s) => if decimal_accepts(s) {
            Some(decimal_normal(s))
        } else {
            None
        },
        None => None,
    }
}

/// An optional decimal member: absent or null gives `Some(None)`; a
/// member that is not a valid decimal string gives `None`.
pub open spec fn optional_decimal_of(v: JsonValue, field: Seq<char>) -> Option<Option<Seq<char>>> {
    match field_of(v, field) {
        None => Some(None),
        Some(JsonValue::Null) => Some(None),
        Some(x) => match decimal_value(Some(x)) {
            Some(d) => Some(Some(d)),
            None => None,
        },
    }
}

pub open spec fn position_symbol_char(c: char) -> bool {
    is_upper(c) || is_digit(c) || c == '.' || c == '/' || c == '_' || c == '-'
}

/// The `symbol` member of a position or open order: up to 64 bytes of
/// upper-case letters, digits and `./_-`.
pub open spec fn symbol_of(v: JsonValue) -> Option<Seq<char>> {
    match text_of(v, "symbol"@, 64) {
        Some(s) => if forall|i: int| 0 <= i < s.len() ==> position_symbol_char(#[trigger] s[i]) {
            Some(s)
        } else {
            None
        },
        None => None,
    }
}

/// A member holding an RFC 3339 timestamp, kept as written.
pub open spec fn timestamp_in(m: Option<JsonValue>) -> Option<Seq<char>> {
    match text_in(m, 64) {
        Some(s) => if rfc3339_instant(s) is Some {
            Some(s)
        } else {
            None
        },
        None => None,
    }
}

pub open spec fn timestamp_of(v: JsonValue, field: Seq<char>) -> Option<Seq<char>> {
    timestamp_in(field_of(v, field))
}

fn invalid_as<T>() -> (r: Result<T, TradeXError>)
    ensures
        r matches Err(e) && e.code@ == "PROVIDER_RESPONSE_INVALID"@,
{
    Err(invalid())
}

/// A member's provider text (see `text_in`).
fn text_member(m: Option<&JsonValue>, max: usize) -> (r: Result<String, TradeXError>)
    ensures
        match text_in(deref_opt(m), max as nat) {
            Some(s) => r matches Ok(t) && t@ == s,
            None => r matches Err(e) && e.code@ == "PROVIDER_RESPONSE_INVALID"@,
        },
{
    let s = match as_text(m) {
        Some(s) => s,
        None => {
            return invalid_as();
        },
    };
    assert(str_of(deref_opt(m)) == Some(s@));
    let v = chars(s.as_str());
    if v.len() == 0 || utf8_length(&v) > max as u128 || !graphic_only(&v) {
        return invalid_as();
    }
    let t = s.clone();
    assert(t@ == s@);
    Ok(t)
}

/// A provider text member (see `text_of`).
pub fn text_field(value: &JsonValue, field: &str, max: usize) -> (r: Result<String, TradeXError>)
    ensures
        match text_of(*value, field@, max as nat) {
            Some(s) => r matches Ok(t) && t@ == s,
            None => r matches Err(e) && e.code@ == "PROVIDER_RESPONSE_INVALID"@,
        },
{
    text_member(get(value, field), max)
}

/// A member's UUID text (see `uuid_in`).
fn id_member(m: Option<&JsonValue>) -> (r: Result<String, TradeXError>)
    ensures
        match uuid_in(deref_opt(m)) {
            Some(s) => r matches Ok(t) && t@ == s,
            None => r matches Err(e) && e.code@ == "PROVIDER_RESPONSE_INVALID"@,
        },
{
    let id = text_member(m, 36)?;
    if !uuid_parses(id.as_str()) {
        return invalid_as();
    }
    Ok(id)
}

/// A member's timestamp (see `timestamp_in`).
fn timestamp_member(m: Option<&JsonValue>) -> (r: Result<String, TradeXError>)
    ensures
        match timestamp_in(deref_opt(m)) {
            Some(s) => r matches Ok(t) && t@ == s,
            None => r matches Err(e) && e.code@ == "PROVIDER_RESPONSE_INVALID"@,
        },
{
    let t = text_member(m, 64)?;
    if parse_rfc3339(t.as_str()).is_none() {
        return invalid_as();
    }
    Ok(t)
}

/// A UUID member (see `uuid_of`).
pub fn id_field(value: &JsonValue, field: &str) -> (r: Result<String, TradeXError>)
    ensures
        match uuid_of(*value, field@) {
            Some(s) => r matches Ok(t) && t@ == s,
            None => r matches Err(e) && e.code@ == "PROVIDER_RESPONSE_INVALID"@,
        },
{
    id_member(get(value, field))
}

/// A boolean member.
pub fn flag_field(value: &JsonValue, field: &str) -> (r: Result<bool, TradeXError>)
    ensures
        match flag_of(*value, field@) {
            Some(b) => r == Ok::<bool, TradeXError>(b),
            None => r matches Err(e) && e.code@ == "PROVIDER_RESPONSE_INVALID"@,
        },
{
    match get(value, field) {
        Some(JsonValue::Bool(b)) => Ok(*b),
        _ => invalid_as(),
    }
}

/// Exact decimal normalization of a JSON string value; a number, or any
/// other value, is invalid (no binary float conversion, exponent, NaN or
/// silent missing-to-zero).
pub fn decimal(value: &JsonValue) -> (r: Result<String, TradeXError>)
    ensures
        match decimal_value(Some(*value)) {
            Some(d) => r matches Ok(t) && t@ == d,
            None => r matches Err(e) && e.code@ == "PROVIDER_RESPONSE_INVALID"@,
        },
{
    match value {
        JsonValue::Str(s) => decimal_text(s.as_str()),
        _ => invalid_as(),
    }
}

/// A decimal member that is absent, null or a valid decimal string (see
/// `optional_decimal_of`).
pub fn optional_decimal(value: &JsonValue, field: &str) -> (r: Result<Option<String>, TradeXError>)
    ensures
        match optional_decimal_of(*value, field@) {
            Some(o) => r matches Ok(x) && opt_text(x) == o,
            None => r matches Err(e) && e.code@ == "PROVIDER_RESPONSE_INVALID"@,
        },
{
    match get(value, field) {
        None => Ok(None),
        Some(JsonValue::Null) => Ok(None),
        Some(x) => match decimal(x) {
            Ok(d) => Ok(Some(d)),
            Err(e) => Err(e),
        },
    }
}

/// The view of an optional string.
pub open spec fn opt_text(o: Option<String>) -> Option<Seq<char>> {
    match o {
        Some(s) => Some(s@),
        None => None,
    }
}

/// The `symbol` member of a position or open order (see `symbol_of`).
pub fn symbol_field(value: &JsonValue) -> (r: Result<String, TradeXError>)
    ensures
        match symbol_of(*value) {
            Some(s) => r matches Ok(t) && t@ == s,
            None => r matches Err(e) && e.code@ == "PROVIDER_RESPONSE_INVALID"@,
        },
{
    let s = match text_field(value, "symbol", 64) {
        Ok(s) => s,
        Err(e) => {
            return Err(e);
        },
    };
    assert(text_of(*value, "symbol"@, 64) == Some(s@));
    let v = chars(s.as_str());
    let mut i: usize = 0;
    while i < v.len()
        invariant
            v@ == s@,
            text_of(*value, "symbol"@, 64) == Some(s@),
            i <= v@.len(),
            forall|k: int| 0 <= k < i ==> position_symbol_char(#[trigger] v@[k]),
        decreases v@.len() - i,
    {
        let c = v[i];
        if !(('A' <= c && c <= 'Z') || ('0' <= c && c <= '9') || c == '.' || c == '/' || c == '_'
            || c == '-') {
            assert(!position_symbol_char(s@[i as int]));
            return invalid_as();
        }
        i = i + 1;
    }
    Ok(s)
}

/// A timestamp member (see `timestamp_of`).
pub fn provider_timestamp(value: &JsonValue, field: &str) -> (r: Result<String, TradeXError>)
    ensures
        match timestamp_of(*value, field@) {
            Some(s) => r matches Ok(t) && t@ == s,
            None => r matches Err(e) && e.code@ == "PROVIDER_RESPONSE_INVALID"@,
        },
{
    timestamp_member(get(value, field))
}

/// Some secret occurs in the text.
pub open spec fn secret_hit(t: Seq<char>, secrets: Seq<String>) -> bool {
    exists|i: int| 0 <= i < secrets.len() && contains(t, #[trigger] secrets[i]@)
}

/// Some string, number text or object key of the document holds a secret.
pub open spec fn holds_secret(v: JsonValue, secrets: Seq<String>) -> bool
    decreases v,
{
    match v {
        JsonValue::Str(s) => secret_hit(s@, secrets),
        JsonValue::Number(n) => secret_hit(n@, secrets),
        JsonValue::Array(items) => exists|i: int|
            0 <= i < items@.len() && holds_secret(#[trigger] items@[i], secrets),
        JsonValue::Object(ms) => exists|i: int|
            #![trigger ms@[i]]
            0 <= i < ms@.len() && (secret_hit(ms@[i].0@, secrets) || holds_secret(ms@[i].1, secrets)),
        _ => false,
    }
}

fn text_holds_secret(t: &str, secrets: &Vec<String>) -> (r: bool)
    ensures
        r == secret_hit(t@, secrets@),
{
    let v = chars(t);
    let mut i: usize = 0;
    while i < secrets.len()
        invariant
            v@ == t@,
            i <= secrets@.len(),
            forall|k: int| 0 <= k < i ==> !contains(t@, #[trigger] secrets@[k]@),
        decreases secrets@.len() - i,
    {
        if contains_str(&v, secrets[i].as_str()) {
            return true;
        }
        i = i + 1;
    }
    false
}

/// Whether the document reflects a secret (see `holds_secret`).
pub fn contains_secret(value: &JsonValue, secrets: &Vec<String>) -> (r: bool)
    ensures
        r == holds_secret(*value, secrets@),
    decreases value,
{
    match value {
        JsonValue::Str(s) => text_holds_secret(s.as_str(), secrets),
        JsonValue::Number(n) => text_holds_secret(n.as_str(), secrets),
        JsonValue::Array(items) => {
            let mut i: usize = 0;
            while i < items.len()
                invariant
                    i <= items@.len(),
                    *value == JsonValue::Array(*items),
                    forall|k: int| 0 <= k < i ==> !holds_secret(#[trigger] items@[k], secrets@),
                decreases items@.len() - i,
            {
                proof {
                    assert(decreases_to!(*value => (*value)->Array_0));
                    assert((*value)->Array_0 == *items);
                    assert(decreases_to!(*items => items@));
                    assert(decreases_to!(items@ => items@[i as int]));
                }
                if contains_secret(&items[i], secrets) {
                    assert(holds_secret(items@[i as int], secrets@));
                    assert(holds_secret(JsonValue::Array(*items), secrets@));
                    return true;
                }
                i = i + 1;
            }
            false
        },
        JsonValue::Object(ms) => {
            let mut i: usize = 0;
            while i < ms.len()
                invariant
                    i <= ms@.len(),
                    *value == JsonValue::Object(*ms),
                    forall|k: int|
                        #![trigger ms@[k]]
                        0 <= k < i ==> !(secret_hit(ms@[k].0@, secrets@) || holds_secret(ms@[k].1, secrets@)),
                decreases ms@.len() - i,
            {
                proof {
                    assert(decreases_to!(*value => (*value)->Object_0));
                    assert((*value)->Object_0 == *ms);
                    assert(decreases_to!(*ms => ms@));
                    assert(decreases_to!(ms@ => ms@[i as int]));
                    assert(decreases_to!(ms@[i as int] => ms@[i as int].1));
                }
                let m = &ms[i];
                let key_hit = text_holds_secret(m.0.as_str(), secrets);
                let value_hit = contains_secret(&m.1, secrets);
                if key_hit || value_hit {
                    assert(secret_hit(ms@[i as int].0@, secrets@) || holds_secret(ms@[i as int].1, secrets@));
                    return true;
                }
                assert(!(secret_hit(ms@[i as int].0@, secrets@) || holds_secret(ms@[i as int].1, secrets@)));
                i = i + 1;
            }
            false
        },
        _ => false,
    }
}

// ----------------------------------------------------------------------------
// Paper-broker orders, fills and stream updates
// ----------------------------------------------------------------------------

/// `decimal_subtract` succeeds on two normalized decimals.
pub open spec fn subtract_ok(l: Seq<char>, r: Seq<char>) -> bool {
    &&& !is_negative_text(l)
    &&& !is_negative_text(r)
    &&& units_at(l, common_scale(l, r)) >= units_at(r, common_scale(l, r))
    &&& whole_of(l).len() + common_scale(l, r) + (if common_scale(l, r) > 0 {
        1int
    } else {
        0int
    }) <= 128
}

/// `t` is the normalized exact difference `l - r`.
pub open spec fn is_difference(t: Seq<char>, l: Seq<char>, r: Seq<char>) -> bool {
    is_canonical(t) && denotes(
        t,
        units_at(l, common_scale(l, r)) - units_at(r, common_scale(l, r)),
        common_scale(l, r),
    )
}

pub open spec fn is_side(s: Seq<char>) -> bool {
    s == "buy"@ || s == "sell"@
}

/// A broker order object the order reader accepts: a UUID id, client id,
/// symbol, side, type, time in force and status texts, an optional
/// quantity and a filled quantity (neither negative nor over 64 bytes, the
/// quantity not below the filled quantity), a submission or creation time,
/// and a valid update time when one is present.
pub open spec fn order_accepted(v: JsonValue) -> bool {
    let q = optional_decimal_of(v, "qty"@);
    let f = decimal_value(field_of(v, "filled_qty"@));
    &&& uuid_of(v, "id"@) is Some
    &&& text_of(v, "client_order_id"@, 128) is Some
    &&& text_of(v, "symbol"@, 16) matches Some(s) && alpaca_symbol_ok(s)
    &&& text_of(v, "side"@, 16) matches Some(sd) && is_side(sd)
    &&& text_of(v, "type"@, 32) is Some
    &&& text_of(v, "time_in_force"@, 32) is Some
    &&& text_of(v, "status"@, 64) is Some
    &&& q is Some
    &&& f matches Some(fq) && !is_negative_text(fq) && utf8_len(fq) <= 64
    &&& (q matches Some(Some(x)) ==> !is_negative_text(x) && utf8_len(x) <= 64 && subtract_ok(x, f->0))
    &&& (timestamp_of(v, "submitted_at"@) is Some || timestamp_of(v, "created_at"@) is Some)
    &&& (field_of(v, "updated_at"@) is Some ==> timestamp_of(v, "updated_at"@) is Some)
}

/// The order read from an accepted object: its fields as written, the
/// remaining quantity as the exact difference, external origin and no
/// cancellation state.
pub open spec fn order_parsed(o: AlpacaPaperOrder, v: JsonValue, observed_at: Seq<char>, instrument_id: Option<String>) -> bool {
    &&& o.provider_order_id@ == uuid_of(v, "id"@)->0
    &&& o.client_order_id@ == text_of(v, "client_order_id"@, 128)->0
    &&& o.symbol@ == text_of(v, "symbol"@, 16)->0
    &&& o.instrument_id == instrument_id
    &&& o.side@ == text_of(v, "side"@, 16)->0
    &&& o.order_type@ == text_of(v, "type"@, 32)->0
    &&& o.time_in_force@ == text_of(v, "time_in_force"@, 32)->0
    &&& o.provider_status@ == text_of(v, "status"@, 64)->0
    &&& opt_text(o.quantity) == optional_decimal_of(v, "qty"@)->0
    &&& o.filled_quantity@ == decimal_value(field_of(v, "filled_qty"@))->0
    &&& match (o.quantity, o.remaining_quantity) {
        (Some(q), Some(rm)) => is_difference(rm@, q@, o.filled_quantity@),
        (None, None) => true,
        _ => false,
    }
    &&& o.submitted_at@ == if timestamp_of(v, "submitted_at"@) is Some {
        timestamp_of(v, "submitted_at"@)->0
    } else {
        timestamp_of(v, "created_at"@)->0
    }
    &&& opt_text(o.provider_updated_at) == if field_of(v, "updated_at"@) is Some {
        timestamp_of(v, "updated_at"@)
    } else {
        None
    }
    &&& o.observed_at@ == observed_at
    &&& o.origin == AlpacaPaperOrderOrigin::External
    &&& o.cancel_state == AlpacaPaperCancelState::NotRequested
    &&& o.cancel_idempotency_key is None
    &&& o.cancel_error is None
}

proof fn lemma_canonical_accepted(t: Seq<char>)
    requires
        is_canonical(t),
        utf8_len(t) <= 128,
    ensures
        decimal_accepts(t),
{
}

/// Reads a broker order object (see `order_accepted`, `order_parsed`); the
/// instrument id is the canonical one of the order's symbol.
pub fn parse_alpaca_order(value: &JsonValue, observed_at: &str, instrument_id: Option<String>) -> (r: Result<AlpacaPaperOrder, TradeXError>)
    ensures
        r is Ok <==> order_accepted(*value),
        r matches Ok(o) ==> order_parsed(o, *value, observed_at@, instrument_id),
        r matches Err(e) ==> e.code@ == "PROVIDER_RESPONSE_INVALID"@,
{
    let provider_order_id = id_field(value, "id")?;
    let client_order_id = text_field(value, "client_order_id", 128)?;
    let symbol = text_field(value, "symbol", 16)?;
    if !valid_alpaca_symbol(symbol.as_str()) {
        return invalid_as();
    }
    let side = text_field(value, "side", 16)?;
    if !(str_eq(side.as_str(), "buy") || str_eq(side.as_str(), "sell")) {
        return invalid_as();
    }
    let order_type = text_field(value, "type", 32)?;
    let time_in_force = text_field(value, "time_in_force", 32)?;
    let provider_status = text_field(value, "status", 64)?;
    let quantity = optional_decimal(value, "qty")?;
    let filled_quantity = match get(value, "filled_qty") {
        Some(x) => decimal(x)?,
        None => {
            return invalid_as();
        },
    };
    let fv = chars(filled_quantity.as_str());
    let filled_bad = (fv.len() > 0 && fv[0] == '-') || utf8_length(&fv) > 64;
    let quantity_bad = match &quantity {
        Some(q) => {
            let qv = chars(q.as_str());
            (qv.len() > 0 && qv[0] == '-') || utf8_length(&qv) > 64
        },
        None => false,
    };
    if filled_bad || quantity_bad {
        return invalid_as();
    }
    let remaining_quantity = match &quantity {
        Some(q) => {
            proof {
                lemma_decimal_normal(str_of(field_of(*value, "qty"@))->0);
                lemma_decimal_normal(str_of(field_of(*value, "filled_qty"@))->0);
                lemma_canonical_accepted(q@);
                lemma_canonical_accepted(filled_quantity@);
            }
            Some(decimal_subtract(q.as_str(), filled_quantity.as_str())?)
        },
        None => None,
    };
    let submitted_at = match provider_timestamp(value, "submitted_at") {
        Ok(t) => t,
        Err(_) => provider_timestamp(value, "created_at")?,
    };
    let provider_updated_at = match get(value, "updated_at") {
        Some(_) => Some(provider_timestamp(value, "updated_at")?),
        None => None,
    };
    Ok(AlpacaPaperOrder {
        provider_order_id,
        client_order_id,
        symbol,
        instrument_id,
        side,
        order_type,
        time_in_force,
        provider_status,
        quantity,
        filled_quantity,
        remaining_quantity,
        submitted_at,
        provider_updated_at,
        observed_at: owned(observed_at),
        origin: AlpacaPaperOrderOrigin::External,
        cancel_state: AlpacaPaperCancelState::NotRequested,
        cancel_idempotency_key: None,
        cancel_error: None,
    })
}

/// The members a fill is read from are accepted: an activity token that
/// names an execution, a UUID order id, a symbol, a side, positive quantity
/// and price, and an execution time.
pub open spec fn fill_accepted(
    id: Option<JsonValue>,
    order_id: Option<JsonValue>,
    symbol: Option<JsonValue>,
    side: Option<JsonValue>,
    qty: Option<JsonValue>,
    price: Option<JsonValue>,
    time: Option<JsonValue>,
    source: AlpacaPaperFillSource,
) -> bool {
    &&& text_in(id, 128) matches Some(a) && activity_token_ok(a) && fill_exec_id(a, source) is Some
    &&& uuid_in(order_id) is Some
    &&& text_in(symbol, 16) matches Some(s) && alpaca_symbol_ok(s)
    &&& text_in(side, 16) matches Some(sd) && is_side(sd)
    &&& decimal_value(qty) matches Some(q) && !is_negative_text(q) && q != "0"@
    &&& decimal_value(price) matches Some(p) && !is_negative_text(p) && p != "0"@
    &&& timestamp_in(time) is Some
}

/// The fill read from accepted members.
pub open spec fn fill_parsed(
    f: AlpacaPaperFill,
    id: Option<JsonValue>,
    order_id: Option<JsonValue>,
    symbol: Option<JsonValue>,
    side: Option<JsonValue>,
    qty: Option<JsonValue>,
    price: Option<JsonValue>,
    time: Option<JsonValue>,
    observed_at: Seq<char>,
    source: AlpacaPaperFillSource,
    instrument_id: Option<String>,
) -> bool {
    &&& f.activity_id@ == text_in(id, 128)->0
    &&& f.provider_order_id@ == uuid_in(order_id)->0
    &&& f.symbol@ == text_in(symbol, 16)->0
    &&& f.instrument_id == instrument_id
    &&& f.side@ == text_in(side, 16)->0
    &&& f.quantity@ == decimal_value(qty)->0
    &&& f.price@ == decimal_value(price)->0
    &&& f.source == source
    &&& f.executed_at@ == timestamp_in(time)->0
    &&& f.observed_at@ == observed_at
}

fn decimal_member(m: Option<&JsonValue>) -> (r: Result<String, TradeXError>)
    ensures
        match decimal_value(deref_opt(m)) {
            Some(d) => r matches Ok(t) && t@ == d,
            None => r matches Err(e) && e.code@ == "PROVIDER_RESPONSE_INVALID"@,
        },
{
    match m {
        Some(x) => decimal(x),
        None => invalid_as(),
    }
}

fn fill_from_members(
    id: Option<&JsonValue>,
    order_id: Option<&JsonValue>,
    symbol: Option<&JsonValue>,
    side: Option<&JsonValue>,
    qty: Option<&JsonValue>,
    price: Option<&JsonValue>,
    time: Option<&JsonValue>,
    observed_at: &str,
    source: AlpacaPaperFillSource,
    instrument_id: Option<String>,
) -> (r: Result<AlpacaPaperFill, TradeXError>)
    ensures
        r is Ok <==> fill_accepted(
            deref_opt(id),
            deref_opt(order_id),
            deref_opt(symbol),
            deref_opt(side),
            deref_opt(qty),
            deref_opt(price),
            deref_opt(time),
            source,
        ),
        r matches Ok(f) ==> fill_parsed(
            f,
            deref_opt(id),
            deref_opt(order_id),
            deref_opt(symbol),
            deref_opt(side),
            deref_opt(qty),
            deref_opt(price),
            deref_opt(time),
            observed_at@,
            source,
            instrument_id,
        ),
        r matches Err(e) ==> e.code@ == "PROVIDER_RESPONSE_INVALID"@,
{
    let activity_id = text_member(id, 128)?;
    if !valid_activity_token(activity_id.as_str()) {
        return invalid_as();
    }
    alpaca_fill_execution_id(activity_id.as_str(), source)?;
    let provider_order_id = id_member(order_id)?;
    let symbol = text_member(symbol, 16)?;
    if !valid_alpaca_symbol(symbol.as_str()) {
        return invalid_as();
    }
    let side = text_member(side, 16)?;
    if !(str_eq(side.as_str(), "buy") || str_eq(side.as_str(), "sell")) {
        return invalid_as();
    }
    let quantity = decimal_member(qty)?;
    let price = decimal_member(price)?;
    let qv = chars(quantity.as_str());
    let pv = chars(price.as_str());
    if (qv.len() > 0 && qv[0] == '-') || (pv.len() > 0 && pv[0] == '-') || str_eq(
        quantity.as_str(),
        "0",
    ) || str_eq(price.as_str(), "0") {
        return invalid_as();
    }
    let executed_at = timestamp_member(time)?;
    Ok(AlpacaPaperFill {
        activity_id,
        provider_order_id,
        symbol,
        instrument_id,
        side,
        quantity,
        price,
        source,
        executed_at,
        observed_at: owned(observed_at),
    })
}

/// Reads a broker activity or fill object from its `id`, `order_id`,
/// `symbol`, `side`, `qty`, `price` and `transaction_time` members (see
/// `fill_accepted`, `fill_parsed`).
pub fn parse_alpaca_fill(
    value: &JsonValue,
    observed_at: &str,
    source: AlpacaPaperFillSource,
    instrument_id: Option<String>,
) -> (r: Result<AlpacaPaperFill, TradeXError>)
    ensures
        r is Ok <==> fill_accepted(
            field_of(*value, "id"@),
            field_of(*value, "order_id"@),
            field_of(*value, "symbol"@),
            field_of(*value, "side"@),
            field_of(*value, "qty"@),
            field_of(*value, "price"@),
            field_of(*value, "transaction_time"@),
            source,
        ),
        r matches Ok(f) ==> fill_parsed(
            f,
            field_of(*value, "id"@),
            field_of(*value, "order_id"@),
            field_of(*value, "symbol"@),
            field_of(*value, "side"@),
            field_of(*value, "qty"@),
            field_of(*value, "price"@),
            field_of(*value, "transaction_time"@),
            observed_at@,
            source,
            instrument_id,
        ),
        r matches Err(e) ==> e.code@ == "PROVIDER_RESPONSE_INVALID"@,
{
    fill_from_members(
        get(value, "id"),
        get(value, "order_id"),
        get(value, "symbol"),
        get(value, "side"),
        get(value, "qty"),
        get(value, "price"),
        get(value, "transaction_time"),
        observed_at,
        source,
        instrument_id,
    )
}

/// What a stream frame amounts to, before the order and fill it carries:
/// refused when it reflects a secret or is not a trade update, when it
/// lacks data, an event or an order, or its order names another account
/// (`PROVIDER_IDENTITY_CHANGED`).
pub open spec fn update_frame_error(v: JsonValue, remote_account_id: Seq<char>, secrets: Seq<String>) -> Option<Seq<char>> {
    if holds_secret(v, secrets) || text_of(v, "stream"@, 64) != Some("trade_updates"@) {
        Some("PROVIDER_RESPONSE_INVALID"@)
    } else {
        match field_of(v, "data"@) {
            None => Some("PROVIDER_RESPONSE_INVALID"@),
            Some(d) => if text_of(d, "event"@, 64) is None {
                Some("PROVIDER_RESPONSE_INVALID"@)
            } else {
                match field_of(d, "order"@) {
                    None => Some("PROVIDER_RESPONSE_INVALID"@),
                    Some(o) => if field_of(o, "account_id"@) is Some && str_of(
                        field_of(o, "account_id"@),
                    ) != Some(remote_account_id) {
                        Some("PROVIDER_IDENTITY_CHANGED"@)
                    } else {
                        None
                    },
                }
            },
        }
    }
}

pub open spec fn is_fill_event(e: Seq<char>) -> bool {
    e == "partial_fill"@ || e == "fill"@
}

/// The order a trade-update frame reports: the frame's order object read
/// as an order (see `order_parsed`), updated at the frame's timestamp, or
/// else at the order's own update time.
pub open spec fn update_order(order: AlpacaPaperOrder, value: JsonValue, observed_at: Seq<char>, instrument_id: Option<String>) -> bool {
    let d = field_of(value, "data"@)->0;
    let o = field_of(d, "order"@)->0;
    &&& order_accepted(o)
    &&& (field_of(d, "timestamp"@) is Some ==> timestamp_of(d, "timestamp"@) is Some)
    &&& exists|p: AlpacaPaperOrder|
        #![trigger order_parsed(p, o, observed_at, instrument_id)]
        order_parsed(p, o, observed_at, instrument_id) && order == AlpacaPaperOrder {
            provider_updated_at: order.provider_updated_at,
            ..p
        }
    &&& opt_text(order.provider_updated_at) == if field_of(d, "timestamp"@) is Some {
        timestamp_of(d, "timestamp"@)
    } else if field_of(o, "updated_at"@) is Some {
        timestamp_of(o, "updated_at"@)
    } else {
        None
    }
}

/// The fill a fill event frame reports for its order: the frame's
/// execution, quantity, price and timestamp with the order's identifier,
/// symbol and side.
pub open spec fn update_fill(
    f: AlpacaPaperFill,
    order: AlpacaPaperOrder,
    value: JsonValue,
    observed_at: Seq<char>,
    instrument_id: Option<String>,
) -> bool {
    let d = field_of(value, "data"@)->0;
    text_of(d, "execution_id"@, 128) is Some && fill_parsed(
        f,
        field_of(d, "execution_id"@),
        Some(JsonValue::Str(order.provider_order_id)),
        Some(JsonValue::Str(order.symbol)),
        Some(JsonValue::Str(order.side)),
        field_of(d, "qty"@),
        field_of(d, "price"@),
        field_of(d, "timestamp"@),
        observed_at,
        AlpacaPaperFillSource::TradeUpdate,
        instrument_id,
    )
}

/// Reads a trade-update stream frame into the order it reports (its update
/// time taken from the frame's timestamp when present) and, for a fill or
/// partial fill, the fill: execution id, the order's id, symbol and side,
/// the frame's quantity, price and timestamp.
pub fn parse_alpaca_trade_update(
    value: &JsonValue,
    remote_account_id: &str,
    observed_at: &str,
    secrets: &Vec<String>,
    instrument_id: Option<String>,
) -> (r: Result<(AlpacaPaperOrder, Option<AlpacaPaperFill>), TradeXError>)
    ensures
        match update_frame_error(*value, remote_account_id@, secrets@) {
            Some(code) => r matches Err(e) && e.code@ == code,
            None => {
                let d = field_of(*value, "data"@)->0;
                let o = field_of(d, "order"@)->0;
                &&& (r matches Ok(res) ==> update_order(res.0, *value, observed_at@, instrument_id) && (is_fill_event(
                    text_of(d, "event"@, 64)->0,
                ) <==> res.1 is Some) && (res.1 matches Some(f) ==> update_fill(
                    f,
                    res.0,
                    *value,
                    observed_at@,
                    instrument_id,
                )))
                &&& (r is Err <==> !order_accepted(o) || (field_of(d, "timestamp"@) is Some
                    && timestamp_of(d, "timestamp"@) is None) || (is_fill_event(
                    text_of(d, "event"@, 64)->0,
                ) && !(text_of(d, "execution_id"@, 128) matches Some(x) && activity_token_ok(x)
                    && fill_accepted(
                    field_of(d, "execution_id"@),
                    field_of(o, "id"@),
                    field_of(o, "symbol"@),
                    field_of(o, "side"@),
                    field_of(d, "qty"@),
                    field_of(d, "price"@),
                    field_of(d, "timestamp"@),
                    AlpacaPaperFillSource::TradeUpdate,
                ))))
                &&& (r matches Err(e) ==> e.code@ == "PROVIDER_RESPONSE_INVALID"@)
            },
        },
{
    if contains_secret(value, secrets) {
        return invalid_as();
    }
    let stream = text_field(value, "stream", 64)?;
    if !str_eq(stream.as_str(), "trade_updates") {
        return invalid_as();
    }
    let data = match get(value, "data") {
        Some(d) => d,
        None => {
            return invalid_as();
        },
    };
    let event = text_field(data, "event", 64)?;
    let raw_order = match get(data, "order") {
        Some(o) => o,
        None => {
            return invalid_as();
        },
    };
    match get(raw_order, "account_id") {
        Some(account) => {
            let same = match as_text(Some(account)) {
                Some(a) => str_eq(a.as_str(), remote_account_id),
                None => false,
            };
            if !same {
                return Err(TradeXError::new("PROVIDER_IDENTITY_CHANGED"));
            }
        },
        None => {},
    }
    let mut order = parse_alpaca_order(raw_order, observed_at, clone_option(&instrument_id))?;
    let ghost parsed = order;
    match get(data, "timestamp") {
        Some(_) => {
            order.provider_updated_at = Some(provider_timestamp(data, "timestamp")?);
        },
        None => {},
    }
    let fill = if str_eq(event.as_str(), "partial_fill") || str_eq(event.as_str(), "fill") {
        let execution_id = text_field(data, "execution_id", 128)?;
        if !valid_activity_token(execution_id.as_str()) {
            return invalid_as();
        }
        let order_id = JsonValue::Str(order.provider_order_id.clone());
        let symbol = JsonValue::Str(order.symbol.clone());
        let side = JsonValue::Str(order.side.clone());
        proof {
            assert(str_of(Some(order_id)) == str_of(field_of(*raw_order, "id"@)));
            assert(str_of(Some(symbol)) == str_of(field_of(*raw_order, "symbol"@)));
            assert(str_of(Some(side)) == str_of(field_of(*raw_order, "side"@)));
        }
        Some(
            fill_from_members(
                get(data, "execution_id"),
                Some(&order_id),
                Some(&symbol),
                Some(&side),
                get(data, "qty"),
                get(data, "price"),
                get(data, "timestamp"),
                observed_at,
                AlpacaPaperFillSource::TradeUpdate,
                instrument_id,
            )?,
        )
    } else {
        None
    };
    assert(order == AlpacaPaperOrder { provider_updated_at: order.provider_updated_at, ..parsed });
    Ok((order, fill))
}

// ----------------------------------------------------------------------------
// Paper-broker account observation
// ----------------------------------------------------------------------------

/// What an account read observed: the account data and the permissions
/// the reads demonstrated.
pub struct Observation {
    pub data: AccountData,
    pub permissions: PermissionReview,
}

pub open spec fn account_status_ok(s: Seq<char>) -> bool {
    ||| s == "ACTIVE"@
    ||| s == "ONBOARDING"@
    ||| s == "SUBMISSION_FAILED"@
    ||| s == "SUBMITTED"@
    ||| s == "ACCOUNT_UPDATED"@
    ||| s == "APPROVAL_PENDING"@
    ||| s == "REJECTED"@
    ||| s == "DISABLED"@
    ||| s == "ACTION_REQUIRED"@
}

pub open spec fn open_status_ok(s: Seq<char>) -> bool {
    ||| s == "new"@
    ||| s == "partially_filled"@
    ||| s == "accepted"@
    ||| s == "pending_new"@
    ||| s == "accepted_for_bidding"@
    ||| s == "pending_cancel"@
    ||| s == "pending_replace"@
    ||| s == "held"@
    ||| s == "stopped"@
    ||| s == "suspended"@
    ||| s == "calculated"@
}

/// Every open status the paper broker reports is accepted in an account
/// read's open orders: `new`, `partially_filled`, `accepted`,
/// `pending_new`, `accepted_for_bidding`, `pending_cancel`,
/// `pending_replace`, `held`, `stopped`, `suspended` and `calculated`; no
/// finished status (`filled`, `canceled`, `expired`, `rejected`,
/// `replaced`) is.
pub proof fn lemma_open_statuses_accepted(s: Seq<char>)
    ensures
        (s == "new"@ || s == "partially_filled"@ || s == "accepted"@ || s == "pending_new"@ || s
            == "accepted_for_bidding"@ || s == "pending_cancel"@ || s == "pending_replace"@ || s == "held"@ || s
            == "stopped"@ || s == "suspended"@ || s == "calculated"@) ==> open_status_ok(s),
        (s == "filled"@ || s == "canceled"@ || s == "expired"@ || s == "rejected"@ || s == "replaced"@)
            ==> !open_status_ok(s),
{
    reveal_strlit("new");
    reveal_strlit("partially_filled");
    reveal_strlit("accepted");
    reveal_strlit("pending_new");
    reveal_strlit("accepted_for_bidding");
    reveal_strlit("pending_cancel");
    reveal_strlit("pending_replace");
    reveal_strlit("held");
    reveal_strlit("stopped");
    reveal_strlit("suspended");
    reveal_strlit("calculated");
    reveal_strlit("filled");
    reveal_strlit("canceled");
    reveal_strlit("expired");
    reveal_strlit("rejected");
    reveal_strlit("replaced");
    if (s == "filled"@ || s == "canceled"@ || s == "expired"@ || s == "rejected"@ || s == "replaced"@) && open_status_ok(s) {
        assert(s.len() == 8 || s.len() == 7);
        assert(s[0] == 'a' || s[0] == 's');
        assert(false);
    }
}

/// Three upper-case ASCII letters.
pub open spec fn currency_code_ok(c: Seq<char>) -> bool {
    utf8_len(c) == 3 && forall|i: int| 0 <= i < c.len() ==> is_upper(#[trigger] c[i])
}

/// The account object's identity, currency, status and flags are readable.
pub open spec fn account_head_ok(a: JsonValue) -> bool {
    &&& uuid_of(a, "id"@) is Some
    &&& text_of(a, "currency"@, 3) matches Some(c) && currency_code_ok(c)
    &&& text_of(a, "status"@, 32) matches Some(st) && account_status_ok(st)
    &&& flag_of(a, "account_blocked"@) is Some
    &&& flag_of(a, "trading_blocked"@) is Some
    &&& flag_of(a, "shorting_enabled"@) is Some
}

/// A position object is readable.
pub open spec fn position_ok(p: JsonValue) -> bool {
    &&& symbol_of(p) is Some
    &&& decimal_value(field_of(p, "qty"@)) is Some
    &&& optional_decimal_of(p, "market_value"@) is Some
    &&& optional_decimal_of(p, "avg_entry_price"@) is Some
}

/// An open-order object is readable: a UUID id, a side, an open status, a
/// quantity or a notional, a symbol, a filled quantity and an optional
/// limit price.
pub open spec fn open_order_ok(o: JsonValue) -> bool {
    &&& uuid_of(o, "id"@) is Some
    &&& text_of(o, "side"@, 4) matches Some(s) && is_side(s)
    &&& text_of(o, "status"@, 32) matches Some(st) && open_status_ok(st)
    &&& optional_decimal_of(o, "qty"@) is Some
    &&& optional_decimal_of(o, "notional"@) is Some
    &&& !(optional_decimal_of(o, "qty"@) == Some(None::<Seq<char>>) && optional_decimal_of(
        o,
        "notional"@,
    ) == Some(None::<Seq<char>>))
    &&& symbol_of(o) is Some
    &&& decimal_value(field_of(o, "filled_qty"@)) is Some
    &&& optional_decimal_of(o, "limit_price"@) is Some
}

/// No two orders share an id.
pub open spec fn distinct_order_ids(os: Seq<JsonValue>) -> bool {
    forall|i: int, j: int| 0 <= i < j < os.len() ==> uuid_of(#[trigger] os[i], "id"@) != uuid_of(#[trigger] os[j], "id"@)
}

/// The account's balances are readable.
pub open spec fn account_tail_ok(a: JsonValue) -> bool {
    &&& optional_decimal_of(a, "buying_power"@) is Some
    &&& decimal_value(field_of(a, "cash"@)) is Some
    &&& optional_decimal_of(a, "equity"@) is Some
}

pub open spec fn array_of(v: JsonValue) -> Option<Seq<JsonValue>> {
    match v {
        JsonValue::Array(items) => Some(items@),
        _ => None,
    }
}

/// Why an account read is refused: unreadable account, positions or
/// orders (`PROVIDER_RESPONSE_INVALID`), or more than 10 000 positions or
/// orders (`PROVIDER_DATA_INCOMPLETE`).
pub open spec fn alpaca_error(a: JsonValue, ps: JsonValue, os: JsonValue) -> Option<Seq<char>> {
    if !account_head_ok(a) || array_of(ps) is None || array_of(os) is None {
        Some("PROVIDER_RESPONSE_INVALID"@)
    } else if array_of(os)->0.len() > 10_000 || array_of(ps)->0.len() > 10_000 {
        Some("PROVIDER_DATA_INCOMPLETE"@)
    } else if !(forall|i: int| 0 <= i < array_of(ps)->0.len() ==> position_ok(#[trigger] array_of(ps)->0[i]))
        || !(forall|i: int| 0 <= i < array_of(os)->0.len() ==> open_order_ok(#[trigger] array_of(os)->0[i]))
        || !distinct_order_ids(array_of(os)->0) || !account_tail_ok(a) {
        Some("PROVIDER_RESPONSE_INVALID"@)
    } else {
        None
    }
}

pub open spec fn position_parsed(x: Position, p: JsonValue, currency: Seq<char>) -> bool {
    &&& x.symbol@ == symbol_of(p)->0
    &&& x.quantity@ == decimal_value(field_of(p, "qty"@))->0
    &&& opt_text(x.market_value) == optional_decimal_of(p, "market_value"@)->0
    &&& opt_text(x.average_entry_price) == optional_decimal_of(p, "avg_entry_price"@)->0
    &&& opt_text(x.instrument_currency) == Some(currency)
    &&& opt_text(x.market_value_currency) == Some(currency)
}

pub open spec fn open_order_parsed(x: OpenOrder, o: JsonValue, currency: Seq<char>) -> bool {
    &&& x.broker_order_id@ == uuid_of(o, "id"@)->0
    &&& x.symbol@ == symbol_of(o)->0
    &&& x.side@ == text_of(o, "side"@, 4)->0
    &&& opt_text(x.quantity) == optional_decimal_of(o, "qty"@)->0
    &&& opt_text(x.notional) == optional_decimal_of(o, "notional"@)->0
    &&& opt_text(x.filled_quantity) == decimal_value(field_of(o, "filled_qty"@))
    &&& x.filled_value is None
    &&& opt_text(x.currency) == Some(currency)
    &&& x.status@ == text_of(o, "status"@, 32)->0
    &&& opt_text(x.limit_price) == optional_decimal_of(o, "limit_price"@)->0
}

pub open spec fn base_limitation() -> Seq<char> {
    "API-key permission scope cannot be fully inspected. Successful reads do not verify trading or transfer permissions."@
}

pub open spec fn restricted_limitation() -> Seq<char> {
    "Alpaca reports an inactive or restricted account; execution is unavailable."@
}

pub open spec fn shorting_limitation() -> Seq<char> {
    "The account supports short selling. TradeX has not enabled short-sale execution."@
}

/// The limitations an account reports: always the permission-scope note;
/// the restriction note for an inactive or blocked account; the short-sale
/// note when shorting is enabled.
pub open spec fn account_limitations(a: JsonValue) -> Seq<Seq<char>> {
    seq![base_limitation()] + (if text_of(a, "status"@, 32) != Some("ACTIVE"@) || flag_of(a, "account_blocked"@) == Some(true)
        || flag_of(a, "trading_blocked"@) == Some(true) {
        seq![restricted_limitation()]
    } else {
        Seq::empty()
    }) + (if flag_of(a, "shorting_enabled"@) == Some(true) {
        seq![shorting_limitation()]
    } else {
        Seq::empty()
    })
}

pub open spec fn read_capabilities() -> Seq<Seq<char>> {
    seq!["account.read"@, "positions.read"@, "orders.read"@]
}

/// The observation an accepted account read gives.
pub open spec fn observation_parsed(obs: Observation, a: JsonValue, ps: Seq<JsonValue>, os: Seq<JsonValue>) -> bool {
    let cur = text_of(a, "currency"@, 3)->0;
    let d = obs.data;
    &&& d.remote_account_id@ == uuid_of(a, "id"@)->0
    &&& d.account_type@ == "ALPACA_PAPER"@
    &&& opt_text(d.currency) == Some(cur)
    &&& d.balances@.len() == 1
    &&& d.balances@[0].asset@ == cur
    &&& d.balances@[0].available@ == decimal_value(field_of(a, "cash"@))->0
    &&& opt_text(d.balances@[0].total) == optional_decimal_of(a, "equity"@)->0
    &&& d.balances@[0].reserved is None
    &&& d.balances@[0].in_pies is None
    &&& d.positions@.len() == ps.len()
    &&& forall|i: int| 0 <= i < ps.len() ==> position_parsed(#[trigger] d.positions@[i], ps[i], cur)
    &&& d.open_orders@.len() == os.len()
    &&& forall|i: int| 0 <= i < os.len() ==> open_order_parsed(#[trigger] d.open_orders@[i], os[i], cur)
    &&& text_views(d.capabilities@) == read_capabilities()
    &&& text_views(d.limitations@) == account_limitations(a)
    &&& obs.permissions.scope@ == "UNVERIFIED"@
    &&& text_views(obs.permissions.detected@) == read_capabilities()
    &&& obs.permissions.forbidden@.len() == 0
    &&& obs.permissions.unsupported@.len() == 0
    &&& !obs.permissions.acknowledged
    &&& obs.permissions.ip_allow_list_status@ == "UNKNOWN"@
}

pub(crate) fn currency_valid(c: &str) -> (r: bool)
    ensures
        r == currency_code_ok(c@),
{
    let v = chars(c);
    if utf8_length(&v) != 3 {
        return false;
    }
    let mut i: usize = 0;
    while i < v.len()
        invariant
            v@ == c@,
            i <= v@.len(),
            forall|k: int| 0 <= k < i ==> is_upper(#[trigger] v@[k]),
        decreases v@.len() - i,
    {
        if !('A' <= v[i] && v[i] <= 'Z') {
            assert(!is_upper(c@[i as int]));
            return false;
        }
        i = i + 1;
    }
    true
}

fn account_status_valid(s: &str) -> (r: bool)
    ensures
        r == account_status_ok(s@),
{
    str_eq(s, "ACTIVE") || str_eq(s, "ONBOARDING") || str_eq(s, "SUBMISSION_FAILED") || str_eq(
        s,
        "SUBMITTED",
    ) || str_eq(s, "ACCOUNT_UPDATED") || str_eq(s, "APPROVAL_PENDING") || str_eq(s, "REJECTED")
        || str_eq(s, "DISABLED") || str_eq(s, "ACTION_REQUIRED")
}

fn open_status_valid(s: &str) -> (r: bool)
    ensures
        r == open_status_ok(s@),
{
    str_eq(s, "new") || str_eq(s, "partially_filled") || str_eq(s, "accepted") || str_eq(
        s,
        "pending_new",
    ) || str_eq(s, "accepted_for_bidding") || str_eq(s, "pending_cancel") || str_eq(
        s,
        "pending_replace",
    ) || str_eq(s, "held") || str_eq(s, "stopped") || str_eq(s, "suspended") || str_eq(
        s,
        "calculated",
    )
}

fn parse_position(p: &JsonValue, currency: &String) -> (r: Result<Position, TradeXError>)
    ensures
        r is Ok <==> position_ok(*p),
        r matches Ok(x) ==> position_parsed(x, *p, currency@),
        r matches Err(e) ==> e.code@ == "PROVIDER_RESPONSE_INVALID"@,
{
    let symbol = symbol_field(p)?;
    let quantity = decimal_member(get(p, "qty"))?;
    let market_value = optional_decimal(p, "market_value")?;
    let average_entry_price = optional_decimal(p, "avg_entry_price")?;
    Ok(Position {
        symbol,
        quantity,
        market_value,
        average_entry_price,
        instrument_currency: Some(currency.clone()),
        market_value_currency: Some(currency.clone()),
    })
}

fn parse_open_order(o: &JsonValue, currency: &String) -> (r: Result<OpenOrder, TradeXError>)
    ensures
        r is Ok <==> open_order_ok(*o),
        r matches Ok(x) ==> open_order_parsed(x, *o, currency@),
        r matches Err(e) ==> e.code@ == "PROVIDER_RESPONSE_INVALID"@,
{
    let broker_order_id = id_field(o, "id")?;
    let side = text_field(o, "side", 4)?;
    if !(str_eq(side.as_str(), "buy") || str_eq(side.as_str(), "sell")) {
        return invalid_as();
    }
    let status = text_field(o, "status", 32)?;
    if !open_status_valid(status.as_str()) {
        return invalid_as();
    }
    let quantity = optional_decimal(o, "qty")?;
    let notional = optional_decimal(o, "notional")?;
    if quantity.is_none() && notional.is_none() {
        return invalid_as();
    }
    let symbol = symbol_field(o)?;
    let filled_quantity = decimal_member(get(o, "filled_qty"))?;
    let limit_price = optional_decimal(o, "limit_price")?;
    Ok(OpenOrder {
        broker_order_id,
        symbol,
        side,
        quantity,
        notional,
        filled_quantity: Some(filled_quantity),
        filled_value: None,
        currency: Some(currency.clone()),
        status,
        limit_price,
    })
}

/// Reads a paper-broker account, its positions and its open orders (see
/// `alpaca_error`, `observation_parsed`).
#[verifier::loop_isolation(false)]
pub fn alpaca(account: &JsonValue, positions: &JsonValue, orders: &JsonValue) -> (r: Result<Observation, TradeXError>)
    ensures
        match alpaca_error(*account, *positions, *orders) {
            Some(code) => r matches Err(e) && e.code@ == code,
            None => r matches Ok(obs) && observation_parsed(
                obs,
                *account,
                array_of(*positions)->0,
                array_of(*orders)->0,
            ),
        },
{
    let remote_account_id = id_field(account, "id")?;
    let currency = text_field(account, "currency", 3)?;
    if !currency_valid(currency.as_str()) {
        return invalid_as();
    }
    let status = text_field(account, "status", 32)?;
    if !account_status_valid(status.as_str()) {
        return invalid_as();
    }
    let mut limitations: Vec<String> = Vec::new();
    limitations.push(
        owned(
            "API-key permission scope cannot be fully inspected. Successful reads do not verify trading or transfer permissions.",
        ),
    );
    let account_blocked = flag_field(account, "account_blocked")?;
    let trading_blocked = flag_field(account, "trading_blocked")?;
    if !str_eq(status.as_str(), "ACTIVE") || account_blocked || trading_blocked {
        limitations.push(
            owned("Alpaca reports an inactive or restricted account; execution is unavailable."),
        );
    }
    if flag_field(account, "shorting_enabled")? {
        limitations.push(
            owned(
                "The account supports short selling. TradeX has not enabled short-sale execution.",
            ),
        );
    }
    assert(text_views(limitations@) =~= account_limitations(*account));
    let position_items = match positions {
        JsonValue::Array(items) => items,
        _ => {
            return invalid_as();
        },
    };
    let order_items = match orders {
        JsonValue::Array(items) => items,
        _ => {
            return invalid_as();
        },
    };
    if order_items.len() > 10_000 || position_items.len() > 10_000 {
        return Err(TradeXError::new("PROVIDER_DATA_INCOMPLETE"));
    }
    let mut parsed_positions: Vec<Position> = Vec::new();
    let mut i: usize = 0;
    while i < position_items.len()
        invariant
            i <= position_items@.len(),
            parsed_positions@.len() == i,
            forall|k: int| 0 <= k < i ==> position_ok(#[trigger] position_items@[k]),
            forall|k: int| 0 <= k < i ==> position_parsed(#[trigger] parsed_positions@[k], position_items@[k], currency@),
        decreases position_items@.len() - i,
    {
        let p = match parse_position(&position_items[i], &currency) {
            Ok(p) => p,
            Err(e) => {
                assert(!position_ok(array_of(*positions)->0[i as int]));
                return Err(e);
            },
        };
        parsed_positions.push(p);
        i = i + 1;
    }
    let mut parsed_orders: Vec<OpenOrder> = Vec::new();
    let mut j: usize = 0;
    while j < order_items.len()
        invariant
            j <= order_items@.len(),
            parsed_orders@.len() == j,
            forall|k: int| 0 <= k < j ==> open_order_ok(#[trigger] order_items@[k]),
            forall|k: int| 0 <= k < j ==> open_order_parsed(#[trigger] parsed_orders@[k], order_items@[k], currency@),
            forall|a: int, b: int| 0 <= a < b < j ==> uuid_of(#[trigger] order_items@[a], "id"@) != uuid_of(#[trigger] order_items@[b], "id"@),
        decreases order_items@.len() - j,
    {
        let ghost oj = order_items@[j as int];
        let id = match id_field(&order_items[j], "id") {
            Ok(id) => id,
            Err(e) => {
                assert(!open_order_ok(array_of(*orders)->0[j as int]));
                return Err(e);
            },
        };
        let mut k: usize = 0;
        while k < j
            invariant
                k <= j <= order_items@.len(),
                j == parsed_orders@.len(),
                oj == order_items@[j as int],
                uuid_of(oj, "id"@) == Some(id@),
                forall|m: int| 0 <= m < j ==> open_order_parsed(#[trigger] parsed_orders@[m], order_items@[m], currency@),
                forall|m: int| 0 <= m < j ==> open_order_ok(#[trigger] order_items@[m]),
                forall|m: int| 0 <= m < k ==> uuid_of(#[trigger] order_items@[m], "id"@) != uuid_of(oj, "id"@),
            decreases j - k,
        {
            if str_eq(parsed_orders[k].broker_order_id.as_str(), id.as_str()) {
                assert(open_order_parsed(parsed_orders@[k as int], order_items@[k as int], currency@));
                assert(open_order_ok(order_items@[k as int]));
                assert(uuid_of(order_items@[k as int], "id"@) == uuid_of(oj, "id"@));
                assert(!distinct_order_ids(array_of(*orders)->0)) by {
                    let os = array_of(*orders)->0;
                    assert(uuid_of(os[k as int], "id"@) == uuid_of(os[j as int], "id"@));
                }
                return invalid_as();
            }
            k = k + 1;
        }
        let o = match parse_open_order(&order_items[j], &currency) {
            Ok(o) => o,
            Err(e) => {
                assert(!open_order_ok(array_of(*orders)->0[j as int]));
                return Err(e);
            },
        };
        parsed_orders.push(o);
        j = j + 1;
    }
    optional_decimal(account, "buying_power")?;
    let cash = decimal_member(get(account, "cash"))?;
    let equity = optional_decimal(account, "equity")?;
    let mut balances: Vec<Balance> = Vec::new();
    balances.push(Balance { asset: currency.clone(), available: cash, total: equity, reserved: None, in_pies: None });
    let mut capabilities: Vec<String> = Vec::new();
    capabilities.push(owned("account.read"));
    capabilities.push(owned("positions.read"));
    capabilities.push(owned("orders.read"));
    let mut detected: Vec<String> = Vec::new();
    detected.push(owned("account.read"));
    detected.push(owned("positions.read"));
    detected.push(owned("orders.read"));
    assert(text_views(capabilities@) =~= read_capabilities());
    assert(text_views(detected@) =~= read_capabilities());
    let permissions = PermissionReview {
        scope: owned("UNVERIFIED"),
        detected,
        forbidden: Vec::new(),
        unsupported: Vec::new(),
        acknowledged: false,
        ip_allow_list_status: owned("UNKNOWN"),
    };
    Ok(Observation {
        data: AccountData {
            remote_account_id,
            account_type: owned("ALPACA_PAPER"),
            currency: Some(currency),
            balances,
            positions: parsed_positions,
            open_orders: parsed_orders,
            capabilities,
            limitations,
        },
        permissions,
    })
}

// ----------------------------------------------------------------------------
// Order submission checks
// ----------------------------------------------------------------------------

/// ASCII lower-case of one character (`char::to_ascii_lowercase`).
pub open spec fn ascii_lower(c: char) -> char {
    if is_upper(c) {
        ((c as u32) + 32) as char
    } else {
        c
    }
}

/// The first 256 characters of a rejection message, ASCII lower-cased;
/// empty when the response carries no message.
pub open spec fn rejection_text(message: Option<Seq<char>>) -> Seq<char> {
    match message {
        Some(m) => {
            let t = if m.len() <= 256 {
                m
            } else {
                m.subrange(0, 256)
            };
            t.map_values(|c: char| ascii_lower(c))
        },
        None => Seq::empty(),
    }
}

/// The error an order rejection maps to: authentication and rate limits by
/// status; for 403, an account that is not permitted, buying power a buy
/// lacks or shares a sell lacks, as the message says; otherwise a plain
/// rejection.
pub open spec fn rejection_code(status: u16, message: Option<Seq<char>>, side: Seq<char>) -> Seq<char> {
    if status == 401 {
        "PROVIDER_AUTH_FAILED"@
    } else if status == 418 || status == 429 {
        "PROVIDER_RATE_LIMITED"@
    } else if status != 403 {
        "PROVIDER_ORDER_REJECTED"@
    } else {
        let m = rejection_text(message);
        let insufficient = contains(m, "insufficient"@) || contains(m, "not sufficient"@) || contains(
            m,
            "not enough"@,
        );
        if (contains(m, "not authorized"@) && contains(m, "account"@)) || contains(m, "account not eligible"@) {
            "PROVIDER_PERMISSION_BLOCKED"@
        } else if side == "buy"@ && insufficient && (contains(m, "buying power"@) || contains(
            m,
            "tradable balance"@,
        ) || contains(m, "balance"@)) {
            "ORDER_BUYING_POWER_INSUFFICIENT"@
        } else if side == "sell"@ && insufficient && (contains(m, "shares"@) || contains(
            m,
            "available qty"@,
        ) || contains(m, "position"@)) {
            "ORDER_INSUFFICIENT_POSITION"@
        } else {
            "PROVIDER_ORDER_REJECTED"@
        }
    }
}

/// Classifies a rejected order submission from its HTTP status, the
/// `message` member of the response body (when it is a JSON object with a
/// string message) and the order's side.
pub fn alpaca_order_rejection(status: u16, message: Option<&str>, side: &str) -> (e: TradeXError)
    ensures
        e.code@ == rejection_code(
            status,
            match message {
                Some(m) => Some(m@),
                None => None,
            },
            side@,
        ),
{
    if status == 401 {
        return TradeXError::new("PROVIDER_AUTH_FAILED");
    }
    if status == 418 || status == 429 {
        return TradeXError::new("PROVIDER_RATE_LIMITED");
    }
    if status != 403 {
        return TradeXError::new("PROVIDER_ORDER_REJECTED");
    }
    let mut m: Vec<char> = Vec::new();
    match message {
        Some(text) => {
            let v = chars(text);
            let n = if v.len() <= 256 {
                v.len()
            } else {
                256
            };
            let ghost t = if v@.len() <= 256 {
                v@
            } else {
                v@.subrange(0, 256)
            };
            let mut i: usize = 0;
            while i < n
                invariant
                    n <= v@.len(),
                    n == t.len(),
                    t == v@.subrange(0, n as int),
                    i <= n,
                    m@ == t.subrange(0, i as int).map_values(|c: char| ascii_lower(c)),
                decreases n - i,
            {
                let c = v[i];
                let lower = if 'A' <= c && c <= 'Z' {
                    ((c as u32) + 32) as u8 as char
                } else {
                    c
                };
                assert(lower == ascii_lower(c)) by {
                    if 'A' <= c && c <= 'Z' {
                        assert(((c as u32) + 32) < 256);
                    }
                }
                m.push(lower);
                i = i + 1;
                assert(m@ =~= t.subrange(0, i as int).map_values(|c: char| ascii_lower(c)));
            }
            assert(t.subrange(0, n as int) =~= t);
        },
        None => {},
    }
    let insufficient = contains_str(&m, "insufficient") || contains_str(&m, "not sufficient")
        || contains_str(&m, "not enough");
    let code = if (contains_str(&m, "not authorized") && contains_str(&m, "account"))
        || contains_str(&m, "account not eligible") {
        "PROVIDER_PERMISSION_BLOCKED"
    } else if str_eq(side, "buy") && insufficient && (contains_str(&m, "buying power")
        || contains_str(&m, "tradable balance") || contains_str(&m, "balance")) {
        "ORDER_BUYING_POWER_INSUFFICIENT"
    } else if str_eq(side, "sell") && insufficient && (contains_str(&m, "shares") || contains_str(
        &m,
        "available qty",
    ) || contains_str(&m, "position")) {
        "ORDER_INSUFFICIENT_POSITION"
    } else {
        "PROVIDER_ORDER_REJECTED"
    };
    TradeXError::new(code)
}

/// What an asset record says of submitting an order in it: the asset id;
/// refused when the record is unreadable or names another symbol or class,
/// untradable when inactive or not tradable, and not fractionable when a
/// fractional order needs it.
pub open spec fn asset_check(asset: JsonValue, symbol: Seq<char>, needs_fractional: bool) -> Result<Seq<char>, Seq<char>> {
    if uuid_of(asset, "id"@) is None || text_of(asset, "symbol"@, 64) != Some(symbol) || text_of(
        asset,
        "class"@,
        32,
    ) != Some("us_equity"@) || text_of(asset, "status"@, 32) is None {
        Err("PROVIDER_RESPONSE_INVALID"@)
    } else if text_of(asset, "status"@, 32) != Some("active"@) {
        Err("ORDER_ASSET_UNTRADABLE"@)
    } else if flag_of(asset, "tradable"@) is None {
        Err("PROVIDER_RESPONSE_INVALID"@)
    } else if flag_of(asset, "tradable"@) == Some(false) {
        Err("ORDER_ASSET_UNTRADABLE"@)
    } else if !needs_fractional {
        Ok(uuid_of(asset, "id"@)->0)
    } else if flag_of(asset, "fractionable"@) is None {
        Err("PROVIDER_RESPONSE_INVALID"@)
    } else if flag_of(asset, "fractionable"@) == Some(false) {
        Err("ORDER_ASSET_NOT_FRACTIONABLE"@)
    } else {
        Ok(uuid_of(asset, "id"@)->0)
    }
}

/// Checks an asset record before an order in it (see `asset_check`).
pub fn validate_alpaca_asset(asset: &JsonValue, symbol: &str, needs_fractional: bool) -> (r: Result<String, TradeXError>)
    ensures
        match asset_check(*asset, symbol@, needs_fractional) {
            Ok(id) => r matches Ok(t) && t@ == id,
            Err(code) => r matches Err(e) && e.code@ == code,
        },
{
    let asset_id = id_field(asset, "id")?;
    let sym = text_field(asset, "symbol", 64)?;
    if !str_eq(sym.as_str(), symbol) {
        return invalid_as();
    }
    let class = text_field(asset, "class", 32)?;
    if !str_eq(class.as_str(), "us_equity") {
        return invalid_as();
    }
    let status = text_field(asset, "status", 32)?;
    if !str_eq(status.as_str(), "active") || !flag_field(asset, "tradable")? {
        return Err(TradeXError::new("ORDER_ASSET_UNTRADABLE"));
    }
    if needs_fractional && !flag_field(asset, "fractionable")? {
        return Err(TradeXError::new("ORDER_ASSET_NOT_FRACTIONABLE"));
    }
    Ok(asset_id)
}

/// What a position record says of selling `quantity` of an asset: refused
/// when unreadable or naming another asset, symbol or class; insufficient
/// when not long or holding less available quantity.
pub open spec fn sell_position_check(position: JsonValue, symbol: Seq<char>, asset_id: Seq<char>, quantity: Seq<char>) -> Result<(), Seq<char>> {
    if uuid_of(position, "asset_id"@) != Some(asset_id) || text_of(position, "symbol"@, 64) != Some(
        symbol,
    ) || text_of(position, "asset_class"@, 32) != Some("us_equity"@) || text_of(position, "side"@, 16) is None {
        Err("PROVIDER_RESPONSE_INVALID"@)
    } else if text_of(position, "side"@, 16) != Some("long"@) {
        Err("ORDER_INSUFFICIENT_POSITION"@)
    } else {
        match decimal_value(field_of(position, "qty_available"@)) {
            None => Err("PROVIDER_RESPONSE_INVALID"@),
            Some(available) => match decimal_order(quantity, available) {
                None => Err("PROVIDER_RESPONSE_INVALID"@),
                Some(Comparison::Greater) => Err("ORDER_INSUFFICIENT_POSITION"@),
                Some(_) => Ok(()),
            },
        }
    }
}

/// Checks a held position before a sell of `quantity` (see
/// `sell_position_check`).
pub fn validate_alpaca_sell_position(position: &JsonValue, symbol: &str, asset_id: &str, quantity: &str) -> (r: Result<(), TradeXError>)
    ensures
        match sell_position_check(*position, symbol@, asset_id@, quantity@) {
            Ok(()) => r is Ok,
            Err(code) => r matches Err(e) && e.code@ == code,
        },
{
    let held = id_field(position, "asset_id")?;
    if !str_eq(held.as_str(), asset_id) {
        return invalid_as();
    }
    let sym = text_field(position, "symbol", 64)?;
    if !str_eq(sym.as_str(), symbol) {
        return invalid_as();
    }
    let class = text_field(position, "asset_class", 32)?;
    if !str_eq(class.as_str(), "us_equity") {
        return invalid_as();
    }
    let side = text_field(position, "side", 16)?;
    if !str_eq(side.as_str(), "long") {
        return Err(TradeXError::new("ORDER_INSUFFICIENT_POSITION"));
    }
    let available = decimal_member(get(position, "qty_available"))?;
    match decimal_cmp(quantity, available.as_str())? {
        Comparison::Greater => Err(TradeXError::new("ORDER_INSUFFICIENT_POSITION")),
        _ => Ok(()),
    }
}

/// Two orders agree on everything the book merge reads: identity, update
/// time and quantity.
pub open spec fn order_key_eq(a: AlpacaPaperOrder, b: AlpacaPaperOrder) -> bool {
    &&& same_identity(a, b)
    &&& opt_text(a.provider_updated_at) == opt_text(b.provider_updated_at)
}

/// Two fills agree on everything the fill merge reads.
pub open spec fn fill_key_eq(a: AlpacaPaperFill, b: AlpacaPaperFill) -> bool {
    &&& a.activity_id@ == b.activity_id@
    &&& a.source == b.source
    &&& same_fill(a, b)
}

proof fn lemma_replaced_congruent(orders: Seq<AlpacaPaperOrder>, a: AlpacaPaperOrder, b: AlpacaPaperOrder)
    requires
        order_key_eq(a, b),
    ensures
        (replaced(orders, a) is Ok) == (replaced(orders, b) is Ok),
        replaced(orders, a) matches Ok(v) ==> replaced(orders, b)->Ok_0.len() == v.len(),
{
    lemma_order_index_found(orders, a.provider_order_id@, 0);
}

proof fn lemma_fill_inserted_congruent(fills: Seq<AlpacaPaperFill>, a: AlpacaPaperFill, b: AlpacaPaperFill)
    requires
        fill_key_eq(a, b),
    ensures
        (fill_inserted(fills, a) is Ok) == (fill_inserted(fills, b) is Ok),
        fill_inserted(fills, a) matches Ok(v) ==> fill_inserted(fills, b)->Ok_0.len() == v.len(),
{
    match fill_exec_id(a.activity_id@, a.source) {
        Some(e) => {
            lemma_fill_scan_found(fills, e, 0);
        },
        None => {},
    }
}

proof fn lemma_update_order_key(a: AlpacaPaperOrder, b: AlpacaPaperOrder, value: JsonValue, observed_at: Seq<char>, instrument_id: Option<String>)
    requires
        update_order(a, value, observed_at, instrument_id),
        update_order(b, value, observed_at, instrument_id),
    ensures
        order_key_eq(a, b),
{
    let d = field_of(value, "data"@)->0;
    let o = field_of(d, "order"@)->0;
    let pa = choose|p: AlpacaPaperOrder|
        order_parsed(p, o, observed_at, instrument_id) && a == AlpacaPaperOrder { provider_updated_at: a.provider_updated_at, ..p };
    let pb = choose|p: AlpacaPaperOrder|
        order_parsed(p, o, observed_at, instrument_id) && b == AlpacaPaperOrder { provider_updated_at: b.provider_updated_at, ..p };
    assert(opt_text(pa.quantity) == opt_text(pb.quantity));
    assert(opt_eq(a.quantity, b.quantity));
    assert(opt_eq(a.instrument_id, b.instrument_id));
}

proof fn lemma_update_fill_key(
    f: AlpacaPaperFill,
    g: AlpacaPaperFill,
    a: AlpacaPaperOrder,
    b: AlpacaPaperOrder,
    value: JsonValue,
    observed_at: Seq<char>,
    instrument_id: Option<String>,
)
    requires
        update_fill(f, a, value, observed_at, instrument_id),
        update_fill(g, b, value, observed_at, instrument_id),
        order_key_eq(a, b),
    ensures
        fill_key_eq(f, g),
{
    assert(str_of(Some(JsonValue::Str(a.provider_order_id))) == str_of(Some(JsonValue::Str(b.provider_order_id))));
    assert(str_of(Some(JsonValue::Str(a.symbol))) == str_of(Some(JsonValue::Str(b.symbol))));
    assert(str_of(Some(JsonValue::Str(a.side))) == str_of(Some(JsonValue::Str(b.side))));
    assert(opt_eq(f.instrument_id, g.instrument_id));
}

/// Two order lists agree, position by position, on what the merge reads.
pub open spec fn order_keys_eq(a: Seq<AlpacaPaperOrder>, b: Seq<AlpacaPaperOrder>) -> bool {
    a.len() == b.len() && forall|i: int| 0 <= i < a.len() ==> order_key_eq(#[trigger] a[i], b[i])
}

/// Two fill lists agree, position by position, on what the merge reads.
pub open spec fn fill_keys_eq(a: Seq<AlpacaPaperFill>, b: Seq<AlpacaPaperFill>) -> bool {
    a.len() == b.len() && forall|i: int| 0 <= i < a.len() ==> fill_key_eq(#[trigger] a[i], b[i])
}

proof fn lemma_order_index_keys(o1: Seq<AlpacaPaperOrder>, o2: Seq<AlpacaPaperOrder>, id: Seq<char>, k: int)
    requires
        order_keys_eq(o1, o2),
        0 <= k,
    ensures
        order_index_from(o1, id, k) == order_index_from(o2, id, k),
    decreases o1.len() - k,
{
    if k < o1.len() {
        assert(order_key_eq(o1[k], o2[k]));
        lemma_order_index_keys(o1, o2, id, k + 1);
    }
}

proof fn lemma_fill_scan_keys(f1: Seq<AlpacaPaperFill>, f2: Seq<AlpacaPaperFill>, e: Seq<char>, k: int)
    requires
        fill_keys_eq(f1, f2),
        0 <= k,
    ensures
        fill_scan(f1, e, k) == fill_scan(f2, e, k),
    decreases f1.len() - k,
{
    if k < f1.len() {
        assert(fill_key_eq(f1[k], f2[k]));
        lemma_fill_scan_keys(f1, f2, e, k + 1);
    }
}

/// Merging key-equal orders into key-equal lists gives the same outcome and
/// key-equal lists.
pub proof fn lemma_replaced_keys(o1: Seq<AlpacaPaperOrder>, o2: Seq<AlpacaPaperOrder>, a: AlpacaPaperOrder, b: AlpacaPaperOrder)
    requires
        order_keys_eq(o1, o2),
        order_key_eq(a, b),
    ensures
        match (replaced(o1, a), replaced(o2, b)) {
            (Ok(v1), Ok(v2)) => order_keys_eq(v1, v2),
            (Err(c1), Err(c2)) => c1 == c2,
            _ => false,
        },
{
    lemma_order_index_keys(o1, o2, a.provider_order_id@, 0);
    lemma_order_index_found(o1, a.provider_order_id@, 0);
    match order_index_from(o1, a.provider_order_id@, 0) {
        None => {
            assert(order_keys_eq(o1.push(a), o2.push(b))) by {
                assert forall|i: int| 0 <= i < o1.push(a).len() implies order_key_eq(#[trigger] o1.push(a)[i], o2.push(b)[i]) by {
                    if i < o1.len() {
                        assert(order_key_eq(o1[i], o2[i]));
                    }
                }
            }
        },
        Some(i) => {
            assert(order_key_eq(o1[i], o2[i]));
            let p1 = preserved(a, o1[i]);
            let p2 = preserved(b, o2[i]);
            assert(order_key_eq(p1, p2));
            assert(order_keys_eq(o1.update(i, p1), o2.update(i, p2))) by {
                assert forall|j: int| 0 <= j < o1.len() implies order_key_eq(#[trigger] o1.update(i, p1)[j], o2.update(i, p2)[j]) by {
                    if j != i {
                        assert(order_key_eq(o1[j], o2[j]));
                    }
                }
            }
        },
    }
}

/// Merging key-equal fills into key-equal lists gives the same outcome and
/// key-equal lists.
pub proof fn lemma_fill_inserted_keys(f1: Seq<AlpacaPaperFill>, f2: Seq<AlpacaPaperFill>, a: AlpacaPaperFill, b: AlpacaPaperFill)
    requires
        fill_keys_eq(f1, f2),
        fill_key_eq(a, b),
    ensures
        match (fill_inserted(f1, a), fill_inserted(f2, b)) {
            (Ok(v1), Ok(v2)) => fill_keys_eq(v1, v2),
            (Err(c1), Err(c2)) => c1 == c2,
            _ => false,
        },
{
    match fill_exec_id(a.activity_id@, a.source) {
        Some(e) => {
            lemma_fill_scan_keys(f1, f2, e, 0);
            lemma_fill_scan_found(f1, e, 0);
            match fill_scan(f1, e, 0) {
                Ok(None) => {
                    assert(fill_keys_eq(f1.push(a), f2.push(b))) by {
                        assert forall|i: int| 0 <= i < f1.push(a).len() implies fill_key_eq(#[trigger] f1.push(a)[i], f2.push(b)[i]) by {
                            if i < f1.len() {
                                assert(fill_key_eq(f1[i], f2[i]));
                            }
                        }
                    }
                },
                Ok(Some(i)) => {
                    assert(fill_key_eq(f1[i], f2[i]));
                    assert(fill_keys_eq(f1.update(i, a), f2.update(i, b))) by {
                        assert forall|j: int| 0 <= j < f1.len() implies fill_key_eq(#[trigger] f1.update(i, a)[j], f2.update(i, b)[j]) by {
                            if j != i {
                                assert(fill_key_eq(f1[j], f2[j]));
                            }
                        }
                    }
                },
                Err(_) => {},
            }
        },
        None => {},
    }
}

/// Orders read from the same object agree on what the merge reads.
pub proof fn lemma_parsed_order_key(a: AlpacaPaperOrder, b: AlpacaPaperOrder, v: JsonValue, observed_at: Seq<char>, instrument_id: Option<String>)
    requires
        order_parsed(a, v, observed_at, instrument_id),
        order_parsed(b, v, observed_at, instrument_id),
    ensures
        order_key_eq(a, b),
{
    assert(opt_eq(a.quantity, b.quantity));
    assert(opt_eq(a.instrument_id, b.instrument_id));
}

/// Fills read from the same members agree on what the merge reads.
pub proof fn lemma_parsed_fill_key(
    a: AlpacaPaperFill,
    b: AlpacaPaperFill,
    id: Option<JsonValue>,
    order_id: Option<JsonValue>,
    symbol: Option<JsonValue>,
    side: Option<JsonValue>,
    qty: Option<JsonValue>,
    price: Option<JsonValue>,
    time: Option<JsonValue>,
    observed_at: Seq<char>,
    source: AlpacaPaperFillSource,
    instrument_id: Option<String>,
)
    requires
        fill_parsed(a, id, order_id, symbol, side, qty, price, time, observed_at, source, instrument_id),
        fill_parsed(b, id, order_id, symbol, side, qty, price, time, observed_at, source, instrument_id),
    ensures
        fill_key_eq(a, b),
{
    assert(opt_eq(a.instrument_id, b.instrument_id));
}

/// The frame is a trade update whose order (and, for a fill event, whose
/// fill) can be read.
pub open spec fn update_readable(value: JsonValue) -> bool {
    let d = field_of(value, "data"@)->0;
    let o = field_of(d, "order"@)->0;
    &&& order_accepted(o)
    &&& !(field_of(d, "timestamp"@) is Some && timestamp_of(d, "timestamp"@) is None)
    &&& (is_fill_event(text_of(d, "event"@, 64)->0) ==> (text_of(d, "execution_id"@, 128) matches Some(x)
        && activity_token_ok(x) && fill_accepted(
        field_of(d, "execution_id"@),
        field_of(o, "id"@),
        field_of(o, "symbol"@),
        field_of(o, "side"@),
        field_of(d, "qty"@),
        field_of(d, "price"@),
        field_of(d, "timestamp"@),
        AlpacaPaperFillSource::TradeUpdate,
    )))
}

/// The frame's order merges into `orders` leaving at most 500, and for a
/// fill event its fill merges into `fills` leaving at most 1000 (otherwise
/// `fills` holds at most 1000).
pub open spec fn update_merges(
    orders: Seq<AlpacaPaperOrder>,
    fills: Seq<AlpacaPaperFill>,
    order: AlpacaPaperOrder,
    value: JsonValue,
    observed_at: Seq<char>,
    instrument_id: Option<String>,
) -> bool {
    &&& replaced(orders, order) matches Ok(v) && v.len() <= 500
    &&& if is_fill_event(text_of(field_of(value, "data"@)->0, "event"@, 64)->0) {
        exists|fill: AlpacaPaperFill|
            #![trigger update_fill(fill, order, value, observed_at, instrument_id)]
            update_fill(fill, order, value, observed_at, instrument_id) && (fill_inserted(fills, fill) matches Ok(
                w,
            ) && w.len() <= 1000)
    } else {
        fills.len() <= 1000
    }
}

/// The code a readable trade update fails with when `order` is its order:
/// the order's merge code; else, for a fill event, the code of every fill
/// it reports, whose merge fails; else `PROVIDER_RESPONSE_INCOMPLETE` (the
/// book would exceed its limits).
pub open spec fn merge_fails_with(
    orders: Seq<AlpacaPaperOrder>,
    fills: Seq<AlpacaPaperFill>,
    order: AlpacaPaperOrder,
    value: JsonValue,
    observed_at: Seq<char>,
    instrument_id: Option<String>,
    code: Seq<char>,
) -> bool {
    match replaced(orders, order) {
        Err(c) => code == c,
        Ok(_) => if is_fill_event(text_of(field_of(value, "data"@)->0, "event"@, 64)->0) {
            forall|f: AlpacaPaperFill|
                #![trigger fill_inserted(fills, f)]
                update_fill(f, order, value, observed_at, instrument_id) ==> match fill_inserted(fills, f) {
                    Err(c) => code == c,
                    Ok(_) => code == "PROVIDER_RESPONSE_INCOMPLETE"@,
                }
        } else {
            code == "PROVIDER_RESPONSE_INCOMPLETE"@
        },
    }
}

/// A trade-update frame applies to the book: the book is the account's,
/// the frame is a readable trade update for it, and its order and fill
/// merge within the size limits.
pub open spec fn update_applies(
    b: AlpacaPaperOrderBook,
    value: JsonValue,
    remote_account_id: Seq<char>,
    secrets: Seq<String>,
    observed_at: Seq<char>,
    instrument_id: Option<String>,
) -> bool {
    &&& b.remote_account_id@ == remote_account_id
    &&& update_frame_error(value, remote_account_id, secrets) is None
    &&& update_readable(value)
    &&& exists|order: AlpacaPaperOrder|
        #![trigger update_order(order, value, observed_at, instrument_id)]
        update_order(order, value, observed_at, instrument_id) && update_merges(
            b.orders@,
            b.fills@,
            order,
            value,
            observed_at,
            instrument_id,
        )
}

/// Applies a trade-update frame to the order book: the frame's order
/// replaces or joins the book, its fill (if any) joins the fills, and the
/// book turns stale until the next REST reconciliation. It succeeds exactly
/// when the frame applies (see `update_applies`); it is refused when the
/// book belongs to another account, the frame is unreadable, the merge
/// refuses it, or the book would exceed 500 orders or 1000 fills.
pub fn apply_alpaca_trade_update(
    book: &mut AlpacaPaperOrderBook,
    value: &JsonValue,
    remote_account_id: &str,
    observed_at: String,
    secrets: &Vec<String>,
    instrument_id: Option<String>,
) -> (r: Result<(), TradeXError>)
    ensures
        r is Ok <==> update_applies(*old(book), *value, remote_account_id@, secrets@, observed_at@, instrument_id),
        old(book).remote_account_id@ != remote_account_id@ ==> (r matches Err(e) && e.code@
            == "PROVIDER_IDENTITY_CHANGED"@),
        old(book).remote_account_id@ == remote_account_id@ ==> (update_frame_error(
            *value,
            remote_account_id@,
            secrets@,
        ) matches Some(code) ==> (r matches Err(e) && e.code@ == code)),
        old(book).remote_account_id@ == remote_account_id@ && update_frame_error(*value, remote_account_id@, secrets@)
            is None && !update_readable(*value) ==> (r matches Err(e) && e.code@ == "PROVIDER_RESPONSE_INVALID"@),
        old(book).remote_account_id@ == remote_account_id@ && update_frame_error(*value, remote_account_id@, secrets@)
            is None && update_readable(*value) && r is Err ==> forall|order: AlpacaPaperOrder|
            #![trigger update_order(order, *value, observed_at@, instrument_id)]
            update_order(order, *value, observed_at@, instrument_id) ==> merge_fails_with(
                old(book).orders@,
                old(book).fills@,
                order,
                *value,
                observed_at@,
                instrument_id,
                r->Err_0.code@,
            ),
        r is Ok ==> {
            &&& final(book).status == AlpacaPaperOrderBookStatus::Stale
            &&& opt_text(final(book).reason) == Some("STREAM_UPDATE_REQUIRES_RECONCILIATION"@)
            &&& final(book).observed_at@ == observed_at@
            &&& final(book).orders@.len() <= 500
            &&& final(book).fills@.len() <= 1000
            &&& exists|order: AlpacaPaperOrder|
                #![trigger replaced(old(book).orders@, order)]
                update_order(order, *value, observed_at@, instrument_id) && replaced(old(book).orders@, order)
                    == Ok::<Seq<AlpacaPaperOrder>, Seq<char>>(final(book).orders@) && if is_fill_event(
                    text_of(field_of(*value, "data"@)->0, "event"@, 64)->0,
                ) {
                    exists|fill: AlpacaPaperFill|
                        #![trigger fill_inserted(old(book).fills@, fill)]
                        update_fill(fill, order, *value, observed_at@, instrument_id) && fill_inserted(
                            old(book).fills@,
                            fill,
                        ) == Ok::<Seq<AlpacaPaperFill>, Seq<char>>(final(book).fills@)
                } else {
                    final(book).fills@ == old(book).fills@
                }
            &&& final(book).workspace_id == old(book).workspace_id
            &&& final(book).connection_id == old(book).connection_id
            &&& final(book).remote_account_id == old(book).remote_account_id
            &&& final(book).state_version == old(book).state_version
            &&& final(book).last_successful_sync_at == old(book).last_successful_sync_at
        },
{
    let ghost b0 = *book;
    let ghost obs = observed_at@;
    let ghost iid = instrument_id;
    let ghost d = field_of(*value, "data"@)->0;
    let ghost fill_event = is_fill_event(text_of(d, "event"@, 64)->0);
    if !str_eq(book.remote_account_id.as_str(), remote_account_id) {
        return Err(TradeXError::new("PROVIDER_IDENTITY_CHANGED"));
    }
    let (order, fill) = match parse_alpaca_trade_update(value, remote_account_id, observed_at.as_str(), secrets, instrument_id) {
        Ok(x) => x,
        Err(e) => {
            return Err(e);
        },
    };
    let ghost o = order;
    let ghost orders_before = book.orders@;
    let ghost fills_before = book.fills@;
    match replace_order(&mut book.orders, order) {
        Ok(()) => {},
        Err(e) => {
            proof {
                assert forall|x: AlpacaPaperOrder| update_order(x, *value, obs, iid) implies !update_merges(
                    b0.orders@,
                    b0.fills@,
                    x,
                    *value,
                    obs,
                    iid,
                ) by {
                    lemma_update_order_key(x, o, *value, obs, iid);
                    lemma_replaced_congruent(orders_before, x, o);
                }
            }
            return Err(e);
        },
    }
    assert(replaced(orders_before, o) == Ok::<Seq<AlpacaPaperOrder>, Seq<char>>(book.orders@));
    match fill {
        Some(x) => {
            let ghost fx = x;
            match insert_fill(&mut book.fills, x) {
                Ok(()) => {},
                Err(e) => {
                    proof {
                        assert forall|y: AlpacaPaperOrder| update_order(y, *value, obs, iid) implies !update_merges(
                            b0.orders@,
                            b0.fills@,
                            y,
                            *value,
                            obs,
                            iid,
                        ) by {
                            lemma_update_order_key(y, o, *value, obs, iid);
                            assert forall|g: AlpacaPaperFill| update_fill(g, y, *value, obs, iid) implies !(fill_inserted(
                                fills_before,
                                g,
                            ) is Ok) by {
                                lemma_update_fill_key(g, fx, y, o, *value, obs, iid);
                                lemma_fill_inserted_congruent(fills_before, g, fx);
                            }
                        }
                    }
                    return Err(e);
                },
            }
            assert(fill_inserted(fills_before, fx) == Ok::<Seq<AlpacaPaperFill>, Seq<char>>(book.fills@));
        },
        None => {},
    }
    if book.orders.len() > 500 || book.fills.len() > 1000 {
        let ghost orders_fit = book.orders@.len() <= 500;
        proof {
            assert forall|y: AlpacaPaperOrder| update_order(y, *value, obs, iid) implies !update_merges(
                b0.orders@,
                b0.fills@,
                y,
                *value,
                obs,
                iid,
            ) by {
                lemma_update_order_key(y, o, *value, obs, iid);
                lemma_replaced_congruent(orders_before, o, y);
                if fill_event && orders_fit {
                    let fx = fill->0;
                    assert forall|g: AlpacaPaperFill| update_fill(g, y, *value, obs, iid) implies !(fill_inserted(
                        fills_before,
                        g,
                    ) matches Ok(w) && w.len() <= 1000) by {
                        lemma_update_fill_key(g, fx, y, o, *value, obs, iid);
                        lemma_fill_inserted_congruent(fills_before, fx, g);
                    }
                }
            }
        }
        return Err(incomplete());
    }
    book.status = AlpacaPaperOrderBookStatus::Stale;
    book.reason = Some(owned("STREAM_UPDATE_REQUIRES_RECONCILIATION"));
    book.observed_at = observed_at;
    proof {
        assert(update_order(o, *value, obs, iid));
        assert(update_merges(b0.orders@, b0.fills@, o, *value, obs, iid));
    }
    Ok(())
}

/// The members of an object whose values are all strings, as texts.
pub open spec fn text_members(v: JsonValue) -> Option<Seq<(Seq<char>, Seq<char>)>> {
    match v {
        JsonValue::Object(ms) => if forall|i: int| 0 <= i < ms@.len() ==> (#[trigger] ms@[i]).1 is Str {
            Some(ms@.map_values(|m: (String, JsonValue)| (m.0@, m.1->Str_0@)))
        } else {
            None
        },
        _ => None,
    }
}

/// A broker symbol an order may be sent for: upper-case letters, digits,
/// `.` and `-`.
pub open spec fn order_symbol_ok(s: Seq<char>) -> bool {
    s.len() > 0 && forall|i: int| 0 <= i < s.len() ==> symbol_char(#[trigger] s[i])
}

/// Why a proposal cannot be sent as a paper-broker order for the attempt:
/// not approved or consumed, another environment, account or proposal, or
/// a spend cap (`ORDER_PROPOSAL_NOT_ELIGIBLE`); no usable broker symbol
/// (`ORDER_INSTRUMENT_PROVIDER_UNSUPPORTED`); an order type, time in force,
/// fractional or notional form the broker does not take
/// (`ORDER_CAPABILITY_UNSUPPORTED`); more than nine fractional digits or a
/// limit order without a price (`ORDER_AMOUNT_INVALID`).
pub open spec fn order_request_error(p: OrderProposal, a: AlpacaPaperOrderAttempt, symbol: Option<Seq<char>>) -> Option<Seq<char>> {
    request_error_for(p, a.connection_id@, a.proposal_id@, a.proposal_hash@, symbol)
}

/// `order_request_error` for an attempt on connection `connection_id` that
/// names proposal `proposal_id` with hash `proposal_hash`.
pub open spec fn request_error_for(
    p: OrderProposal,
    connection_id: Seq<char>,
    proposal_id: Seq<char>,
    proposal_hash: Seq<char>,
    symbol: Option<Seq<char>>,
) -> Option<Seq<char>> {
    let f = p.fields;
    let fraction = fraction_of(f.quantity.value@);
    if !(p.status == OrderProposalStatus::NeedsApproval || p.status == OrderProposalStatus::Consumed)
        || f.environment != ExecutionContext::AlpacaPaper || opt_text(f.account_id) != Some(connection_id)
        || proposal_id != p.proposal_id@ || proposal_hash != p.proposal_hash@ || f.maximum_spend is Some {
        Some("ORDER_PROPOSAL_NOT_ELIGIBLE"@)
    } else if !(symbol matches Some(s) && order_symbol_ok(s)) {
        Some("ORDER_INSTRUMENT_PROVIDER_UNSUPPORTED"@)
    } else if !(f.time_in_force == TimeInForce::Day || (f.order_type == OrderType::Limit && f.time_in_force == TimeInForce::Gtc)) {
        Some("ORDER_CAPABILITY_UNSUPPORTED"@)
    } else if f.quantity.quantity_type == OrderQuantityType::Base && utf8_len(fraction) > 9 {
        Some("ORDER_AMOUNT_INVALID"@)
    } else if f.quantity.quantity_type == OrderQuantityType::Base && fraction.len() > 0 && (f.order_type != OrderType::Market
        || f.time_in_force != TimeInForce::Day) {
        Some("ORDER_CAPABILITY_UNSUPPORTED"@)
    } else if f.quantity.quantity_type == OrderQuantityType::Quote && (f.side != OrderSide::Buy || f.order_type
        != OrderType::Market || f.time_in_force != TimeInForce::Day || utf8_len(fraction) > 2) {
        Some("ORDER_CAPABILITY_UNSUPPORTED"@)
    } else if f.order_type == OrderType::Limit && f.limit_price is None {
        Some("ORDER_AMOUNT_INVALID"@)
    } else if f.order_type == OrderType::Market && f.limit_price is Some {
        Some("ORDER_CAPABILITY_UNSUPPORTED"@)
    } else {
        None
    }
}

/// The order body: client order id, limit price (limit orders), quantity or
/// notional, side, symbol, time in force and type, all as strings, keys in
/// order.
pub open spec fn request_members(p: OrderProposal, a: AlpacaPaperOrderAttempt, symbol: Seq<char>) -> Seq<(Seq<char>, Seq<char>)> {
    let f = p.fields;
    seq![("client_order_id"@, a.client_order_id@)] + (if f.order_type == OrderType::Limit {
        seq![("limit_price"@, f.limit_price->0@)]
    } else {
        Seq::empty()
    }) + seq![
        (if f.quantity.quantity_type == OrderQuantityType::Base { "qty"@ } else { "notional"@ }, f.quantity.value@),
        ("side"@, if f.side == OrderSide::Buy { "buy"@ } else { "sell"@ }),
        ("symbol"@, symbol),
        ("time_in_force"@, if f.time_in_force == TimeInForce::Gtc { "gtc"@ } else { "day"@ }),
        ("type"@, if f.order_type == OrderType::Market { "market"@ } else { "limit"@ }),
    ]
}

/// The order needs a fractionable asset: a quantity with non-zero
/// fractional digits, or a notional amount.
pub open spec fn needs_fractional(p: OrderProposal) -> bool {
    p.fields.quantity.quantity_type == OrderQuantityType::Quote || trim_end(
        fraction_of(p.fields.quantity.value@),
        '0',
    ).len() > 0
}

fn text_member_pair(key: &str, value: String) -> (r: (String, JsonValue))
    ensures
        r.0@ == key@,
        r.1 == JsonValue::Str(value),
{
    (owned(key), JsonValue::Str(value))
}

/// The paper-broker order body for an approved proposal and its attempt;
/// `symbol` is the broker symbol of the proposal's instrument when the
/// instrument catalogue lists it as an equity with a mapping for the
/// broker. Returns the symbol, the body and whether the order needs a
/// fractionable asset (see `order_request_error`, `request_members`).
#[verifier::loop_isolation(false)]
pub fn alpaca_order_request(
    proposal: &OrderProposal,
    attempt: &AlpacaPaperOrderAttempt,
    symbol: Option<&str>,
) -> (r: Result<(String, JsonValue, bool), TradeXError>)
    ensures
        match order_request_error(*proposal, *attempt, match symbol {
            Some(s) => Some(s@),
            None => None,
        }) {
            Some(code) => r matches Err(e) && e.code@ == code,
            None => r matches Ok(res) && res.0@ == symbol->0@ && text_members(res.1) == Some(
                request_members(*proposal, *attempt, symbol->0@),
            ) && res.2 == needs_fractional(*proposal),
        },
{
    let f = &proposal.fields;
    let eligible_status = match proposal.status {
        OrderProposalStatus::NeedsApproval | OrderProposalStatus::Consumed => true,
        _ => false,
    };
    let same_account = match &f.account_id {
        Some(a) => str_eq(a.as_str(), attempt.connection_id.as_str()),
        None => false,
    };
    if !eligible_status || f.environment != ExecutionContext::AlpacaPaper || !same_account || !str_eq(
        attempt.proposal_id.as_str(),
        proposal.proposal_id.as_str(),
    ) || !str_eq(attempt.proposal_hash.as_str(), proposal.proposal_hash.as_str()) || f.maximum_spend.is_some() {
        return Err(TradeXError::new("ORDER_PROPOSAL_NOT_ELIGIBLE"));
    }
    let sym = match symbol {
        Some(s) => s,
        None => {
            return Err(TradeXError::new("ORDER_INSTRUMENT_PROVIDER_UNSUPPORTED"));
        },
    };
    let sv = chars(sym);
    if sv.len() == 0 {
        assert(!order_symbol_ok(sym@));
        return Err(TradeXError::new("ORDER_INSTRUMENT_PROVIDER_UNSUPPORTED"));
    }
    let mut i: usize = 0;
    while i < sv.len()
        invariant
            sv@ == sym@,
            i <= sv@.len(),
            forall|k: int| 0 <= k < i ==> symbol_char(#[trigger] sv@[k]),
        decreases sv@.len() - i,
    {
        let c = sv[i];
        if !(('A' <= c && c <= 'Z') || ('0' <= c && c <= '9') || c == '.' || c == '-') {
            assert(!symbol_char(sym@[i as int]));
            return Err(TradeXError::new("ORDER_INSTRUMENT_PROVIDER_UNSUPPORTED"));
        }
        i = i + 1;
    }
    let order_kind = match f.order_type {
        OrderType::Market => "market",
        OrderType::Limit => "limit",
    };
    let time_in_force = match (f.order_type, f.time_in_force) {
        (OrderType::Market, TimeInForce::Day) => "day",
        (OrderType::Limit, TimeInForce::Day) => "day",
        (OrderType::Limit, TimeInForce::Gtc) => "gtc",
        _ => {
            return Err(TradeXError::new("ORDER_CAPABILITY_UNSUPPORTED"));
        },
    };
    let value = chars(f.quantity.value.as_str());
    let (_, fraction) = split_or_whole(&value, '.');
    assert(fraction@ == fraction_of(f.quantity.value@));
    let (amount_key, fractional) = match f.quantity.quantity_type {
        OrderQuantityType::Base => {
            if utf8_length(&fraction) > 9 {
                return Err(TradeXError::new("ORDER_AMOUNT_INVALID"));
            }
            if fraction.len() > 0 && (f.order_type != OrderType::Market || f.time_in_force
                != TimeInForce::Day) {
                return Err(TradeXError::new("ORDER_CAPABILITY_UNSUPPORTED"));
            }
            ("qty", trim_end_char(&fraction, '0').len() > 0)
        },
        OrderQuantityType::Quote => {
            if f.side != OrderSide::Buy || f.order_type != OrderType::Market || f.time_in_force
                != TimeInForce::Day || utf8_length(&fraction) > 2 {
                return Err(TradeXError::new("ORDER_CAPABILITY_UNSUPPORTED"));
            }
            ("notional", true)
        },
    };
    let mut members: Vec<(String, JsonValue)> = Vec::new();
    members.push(text_member_pair("client_order_id", attempt.client_order_id.clone()));
    match f.order_type {
        OrderType::Limit => {
            match &f.limit_price {
                Some(lp) => {
                    members.push(text_member_pair("limit_price", lp.clone()));
                },
                None => {
                    return Err(TradeXError::new("ORDER_AMOUNT_INVALID"));
                },
            }
        },
        OrderType::Market => {
            if f.limit_price.is_some() {
                return Err(TradeXError::new("ORDER_CAPABILITY_UNSUPPORTED"));
            }
        },
    }
    members.push(text_member_pair(amount_key, f.quantity.value.clone()));
    members.push(
        text_member_pair(
            "side",
            owned(
                match f.side {
                    OrderSide::Buy => "buy",
                    OrderSide::Sell => "sell",
                },
            ),
        ),
    );
    members.push(text_member_pair("symbol", owned(sym)));
    members.push(text_member_pair("time_in_force", owned(time_in_force)));
    members.push(text_member_pair("type", owned(order_kind)));
    let body = JsonValue::Object(members);
    proof {
        let want = request_members(*proposal, *attempt, sym@);
        assert(forall|k: int| 0 <= k < members@.len() ==> (#[trigger] members@[k]).1 is Str);
        assert(members@.map_values(|m: (String, JsonValue)| (m.0@, m.1->Str_0@)) =~= want);
    }
    Ok((owned(sym), body, fractional))
}

/// Checks, before any broker call, that the proposal could be sent as a
/// paper-broker order from connection `connection_id`: the same rules as
/// `alpaca_order_request` for an attempt on that connection naming the
/// proposal itself.
pub fn validate_alpaca_paper_proposal(
    proposal: &OrderProposal,
    connection_id: &str,
    symbol: Option<&str>,
) -> (r: Result<(), TradeXError>)
    ensures
        match request_error_for(*proposal, connection_id@, proposal.proposal_id@, proposal.proposal_hash@,
            match symbol {
                Some(s) => Some(s@),
                None => None,
            }) {
            Some(code) => r matches Err(e) && e.code@ == code,
            None => r is Ok,
        },
{
    let attempt = AlpacaPaperOrderAttempt {
        attempt_id: owned("preflight"),
        workspace_id: proposal.workspace_id.clone(),
        connection_id: owned(connection_id),
        remote_account_id: owned("preflight"),
        proposal_id: proposal.proposal_id.clone(),
        proposal_hash: proposal.proposal_hash.clone(),
        client_order_id: owned("tradex-preflight"),
        state: AlpacaPaperOrderAttemptState::Submitting,
        provider_order_id: None,
        provider_status: None,
        error_code: None,
        reason: owned("preflight"),
        state_version: owned("preflight"),
        created_at: owned("preflight"),
        updated_at: owned("preflight"),
    };
    match alpaca_order_request(proposal, &attempt, symbol) {
        Ok(_) => Ok(()),
        Err(e) => Err(e),
    }
}
/// Where the instrument catalogue places a proposal's equity instrument for
/// a broker: its listing exchange, and the broker's symbol for it when the
/// catalogue maps the instrument to that broker.
pub struct ProviderListing {
    pub exchange: Option<String>,
    pub provider_symbol: Option<String>,
}

pub open spec fn deref_listing(l: Option<&ProviderListing>) -> Option<ProviderListing> {
    match l {
        Some(x) => Some(*x),
        None => None,
    }
}

pub open spec fn ticker_char(c: char) -> bool {
    is_upper(c) || is_digit(c) || c == '_'
}

/// A demo-broker ticker: one to 64 upper-case letters, digits or `_`.
pub open spec fn ticker_ok(t: Seq<char>) -> bool {
    0 < t.len() <= 64 && forall|i: int| 0 <= i < t.len() ==> ticker_char(#[trigger] t[i])
}

/// The quantity as sent: negative for a sell.
pub open spec fn signed_quantity(q: Seq<char>, side: OrderSide) -> Seq<char> {
    if side == OrderSide::Buy {
        q
    } else {
        seq!['-'] + q
    }
}

/// Why a decimal text is no positive amount: not a decimal or negative
/// (`PROVIDER_RESPONSE_INVALID`), zero (`ORDER_AMOUNT_INVALID`).
pub open spec fn positive_amount_error(t: Seq<char>) -> Option<Seq<char>> {
    if !decimal_accepts(t) {
        Some("PROVIDER_RESPONSE_INVALID"@)
    } else {
        match decimal_order(decimal_normal(t), "0"@) {
            None => Some("PROVIDER_RESPONSE_INVALID"@),
            Some(c) => if c != Comparison::Greater {
                Some("ORDER_AMOUNT_INVALID"@)
            } else {
                None
            },
        }
    }
}

/// Why a proposal cannot be sent as a demo-broker order from connection
/// `connection_id`: not approved or consumed, another environment or
/// account, a quote quantity or a spend cap (`ORDER_PROPOSAL_NOT_ELIGIBLE`);
/// no equity listing or no usable ticker
/// (`ORDER_INSTRUMENT_PROVIDER_UNSUPPORTED`); a listing on another exchange
/// than the proposal's venue (`ORDER_VENUE_INVALID`); a quantity or limit
/// price that is no positive decimal; a limit order without a price
/// (`ORDER_LIMIT_PRICE_REQUIRED`); any other order type and time in force
/// than a day market order or a day or good-till-cancel limit order
/// (`ORDER_CAPABILITY_UNSUPPORTED`).
pub open spec fn demo_request_error(p: OrderProposal, connection_id: Seq<char>, listing: Option<ProviderListing>) -> Option<Seq<char>> {
    let f = p.fields;
    if !(p.status == OrderProposalStatus::NeedsApproval || p.status == OrderProposalStatus::Consumed)
        || f.environment != ExecutionContext::Trading212Demo || opt_text(f.account_id) != Some(connection_id)
        || f.quantity.quantity_type != OrderQuantityType::Base || f.maximum_spend is Some {
        Some("ORDER_PROPOSAL_NOT_ELIGIBLE"@)
    } else if listing is None {
        Some("ORDER_INSTRUMENT_PROVIDER_UNSUPPORTED"@)
    } else if opt_text(listing->0.exchange) != Some(f.venue@) {
        Some("ORDER_VENUE_INVALID"@)
    } else if !(listing->0.provider_symbol matches Some(t) && ticker_ok(t@)) {
        Some("ORDER_INSTRUMENT_PROVIDER_UNSUPPORTED"@)
    } else if positive_amount_error(f.quantity.value@) is Some {
        positive_amount_error(f.quantity.value@)
    } else if f.order_type == OrderType::Market && f.time_in_force == TimeInForce::Day && f.limit_price is None {
        None
    } else if f.order_type == OrderType::Limit && (f.time_in_force == TimeInForce::Day || f.time_in_force
        == TimeInForce::Gtc) {
        match f.limit_price {
            None => Some("ORDER_LIMIT_PRICE_REQUIRED"@),
            Some(lp) => positive_amount_error(lp@),
        }
    } else {
        Some("ORDER_CAPABILITY_UNSUPPORTED"@)
    }
}

/// The JSON text of a number value.
pub open spec fn number_text(v: JsonValue) -> Option<Seq<char>> {
    match v {
        JsonValue::Number(n) => Some(n@),
        _ => None,
    }
}

/// The demo-broker order path for an accepted proposal.
pub open spec fn demo_request_path(p: OrderProposal) -> Seq<char> {
    if p.fields.order_type == OrderType::Market {
        "/api/v0/equity/orders/market"@
    } else {
        "/api/v0/equity/orders/limit"@
    }
}

/// The demo-broker order body, keys in order: a market order has
/// `extendedHours` false, the signed quantity as a number and the ticker; a
/// limit order has the limit price as a number, the signed quantity, the
/// ticker and its time validity.
pub open spec fn demo_body_ok(body: JsonValue, p: OrderProposal, ticker: Seq<char>) -> bool {
    let f = p.fields;
    let q = signed_quantity(decimal_normal(f.quantity.value@), f.side);
    body matches JsonValue::Object(ms) && if f.order_type == OrderType::Market {
        &&& ms@.len() == 3
        &&& ms@[0].0@ == "extendedHours"@ && ms@[0].1 == JsonValue::Bool(false)
        &&& ms@[1].0@ == "quantity"@ && number_text(ms@[1].1) == Some(q)
        &&& ms@[2].0@ == "ticker"@ && str_of(Some(ms@[2].1)) == Some(ticker)
    } else {
        &&& ms@.len() == 4
        &&& ms@[0].0@ == "limitPrice"@ && number_text(ms@[0].1) == Some(decimal_normal(f.limit_price->0@))
        &&& ms@[1].0@ == "quantity"@ && number_text(ms@[1].1) == Some(q)
        &&& ms@[2].0@ == "ticker"@ && str_of(Some(ms@[2].1)) == Some(ticker)
        &&& ms@[3].0@ == "timeValidity"@ && str_of(Some(ms@[3].1)) == Some(if f.time_in_force
            == TimeInForce::Day {
            "DAY"@
        } else {
            "GOOD_TILL_CANCEL"@
        })
    }
}

fn ticker_valid(t: &str) -> (r: bool)
    ensures
        r == ticker_ok(t@),
{
    let v = chars(t);
    if v.len() == 0 || v.len() > 64 {
        return false;
    }
    let mut i: usize = 0;
    while i < v.len()
        invariant
            i <= v.len(),
            v@ == t@,
            forall|k: int| 0 <= k < i ==> ticker_char(#[trigger] v@[k]),
        decreases v.len() - i,
    {
        let c = v[i];
        if !(('A' <= c && c <= 'Z') || ('0' <= c && c <= '9') || c == '_') {
            return false;
        }
        i = i + 1;
    }
    true
}

fn positive_amount(t: &str) -> (r: Result<String, TradeXError>)
    ensures
        match positive_amount_error(t@) {
            Some(code) => r matches Err(e) && e.code@ == code,
            None => r matches Ok(n) && n@ == decimal_normal(t@),
        },
{
    let n = match decimal_text(t) {
        Ok(n) => n,
        Err(e) => return Err(e),
    };
    match decimal_cmp(n.as_str(), "0") {
        Ok(Comparison::Greater) => Ok(n),
        Ok(_) => Err(TradeXError::new("ORDER_AMOUNT_INVALID")),
        Err(e) => Err(e),
    }
}

/// The demo-broker order path and body for an approved proposal sent from
/// connection `connection_id`; `listing` is where the instrument catalogue
/// places the proposal's instrument when it lists it as an equity.
pub fn trading212_demo_order_request(
    proposal: &OrderProposal,
    connection_id: &str,
    listing: Option<&ProviderListing>,
) -> (r: Result<(String, JsonValue), TradeXError>)
    ensures
        match demo_request_error(*proposal, connection_id@, deref_listing(listing)) {
            Some(code) => r matches Err(e) && e.code@ == code,
            None => r matches Ok(res) && res.0@ == demo_request_path(*proposal) && demo_body_ok(
                res.1,
                *proposal,
                listing->0.provider_symbol->0@,
            ),
        },
{
    let f = &proposal.fields;
    let eligible_status = match proposal.status {
        OrderProposalStatus::NeedsApproval | OrderProposalStatus::Consumed => true,
        _ => false,
    };
    let same_account = match &f.account_id {
        Some(a) => str_eq(a.as_str(), connection_id),
        None => false,
    };
    if !eligible_status || f.environment != ExecutionContext::Trading212Demo || !same_account
        || f.quantity.quantity_type != OrderQuantityType::Base || f.maximum_spend.is_some() {
        return Err(TradeXError::new("ORDER_PROPOSAL_NOT_ELIGIBLE"));
    }
    let l = match listing {
        Some(l) => l,
        None => return Err(TradeXError::new("ORDER_INSTRUMENT_PROVIDER_UNSUPPORTED")),
    };
    let same_venue = match &l.exchange {
        Some(x) => str_eq(x.as_str(), f.venue.as_str()),
        None => false,
    };
    if !same_venue {
        return Err(TradeXError::new("ORDER_VENUE_INVALID"));
    }
    let ticker = match &l.provider_symbol {
        Some(t) => if ticker_valid(t.as_str()) {
            t
        } else {
            return Err(TradeXError::new("ORDER_INSTRUMENT_PROVIDER_UNSUPPORTED"));
        },
        None => return Err(TradeXError::new("ORDER_INSTRUMENT_PROVIDER_UNSUPPORTED")),
    };
    let quantity = match positive_amount(f.quantity.value.as_str()) {
        Ok(q) => q,
        Err(e) => return Err(e),
    };
    let signed = match f.side {
        OrderSide::Buy => quantity,
        OrderSide::Sell => concat("-", quantity.as_str()),
    };
    proof {
        reveal_strlit("-");
    }
    let is_market_day = f.order_type == OrderType::Market && f.time_in_force == TimeInForce::Day
        && f.limit_price.is_none();
    if is_market_day {
        let mut ms: Vec<(String, JsonValue)> = Vec::new();
        ms.push((owned("extendedHours"), JsonValue::Bool(false)));
        ms.push((owned("quantity"), JsonValue::Number(signed)));
        ms.push((owned("ticker"), JsonValue::Str(ticker.clone())));
        let path = owned("/api/v0/equity/orders/market");
        let body = JsonValue::Object(ms);
        assert(number_text(ms@[1].1) == Some(signed_quantity(decimal_normal(f.quantity.value@), f.side)));
        assert(str_of(Some(ms@[2].1)) == Some(listing->0.provider_symbol->0@));
        assert(demo_body_ok(body, *proposal, listing->0.provider_symbol->0@));
        return Ok((path, body));
    }
    let is_limit = f.order_type == OrderType::Limit && (f.time_in_force == TimeInForce::Day
        || f.time_in_force == TimeInForce::Gtc);
    if !is_limit {
        return Err(TradeXError::new("ORDER_CAPABILITY_UNSUPPORTED"));
    }
    let raw_price = match &f.limit_price {
        Some(p) => p,
        None => return Err(TradeXError::new("ORDER_LIMIT_PRICE_REQUIRED")),
    };
    let price = match positive_amount(raw_price.as_str()) {
        Ok(p) => p,
        Err(e) => return Err(e),
    };
    let validity = if f.time_in_force == TimeInForce::Day {
        owned("DAY")
    } else {
        owned("GOOD_TILL_CANCEL")
    };
    let mut ms: Vec<(String, JsonValue)> = Vec::new();
    ms.push((owned("limitPrice"), JsonValue::Number(price)));
    ms.push((owned("quantity"), JsonValue::Number(signed)));
    ms.push((owned("ticker"), JsonValue::Str(ticker.clone())));
    ms.push((owned("timeValidity"), JsonValue::Str(validity)));
    let path = owned("/api/v0/equity/orders/limit");
    let body = JsonValue::Object(ms);
    assert(number_text(ms@[0].1) == Some(decimal_normal(f.limit_price->0@)));
    assert(number_text(ms@[1].1) == Some(signed_quantity(decimal_normal(f.quantity.value@), f.side)));
    assert(str_of(Some(ms@[2].1)) == Some(listing->0.provider_symbol->0@));
    assert(demo_body_ok(body, *proposal, listing->0.provider_symbol->0@));
    Ok((path, body))
}

/// Checks, before any broker call, that the proposal could be sent as a
/// demo-broker order from connection `connection_id` (see
/// `demo_request_error`).
pub fn validate_trading212_demo_proposal(
    proposal: &OrderProposal,
    connection_id: &str,
    listing: Option<&ProviderListing>,
) -> (r: Result<(), TradeXError>)
    ensures
        match demo_request_error(*proposal, connection_id@, deref_listing(listing)) {
            Some(code) => r matches Err(e) && e.code@ == code,
            None => r is Ok,
        },
{
    match trading212_demo_order_request(proposal, connection_id, listing) {
        Ok(_) => Ok(()),
        Err(e) => Err(e),
    }
}

/// The order's type as the broker writes it: `type`, or `order_type` when
/// there is no `type` member.
pub open spec fn reported_type(order: JsonValue) -> Option<Seq<char>> {
    if field_of(order, "type"@) is Some {
        str_of(field_of(order, "type"@))
    } else {
        str_of(field_of(order, "order_type"@))
    }
}

/// An amount the request carries is reported back exactly: the order's
/// normalized amount equals the request's text.
pub open spec fn amount_echoed(order: JsonValue, request: JsonValue, field: Seq<char>) -> bool {
    str_of(field_of(request, field)) is Some ==> optional_decimal_of(order, field) == Some(
        Some(str_of(field_of(request, field))->0),
    )
}

/// A broker order acknowledges the submission: a UUID id; the expected
/// asset, when one is given; the attempt's client order id; the symbol;
/// an equity; the request's side, type and time in force; each amount of
/// the request reported exactly; and a status.
pub open spec fn acknowledges(
    order: JsonValue,
    request: JsonValue,
    symbol: Seq<char>,
    expected_asset_id: Option<Seq<char>>,
    prior: AlpacaPaperOrderAttempt,
) -> bool {
    &&& uuid_of(order, "id"@) is Some
    &&& (expected_asset_id matches Some(a) ==> uuid_of(order, "asset_id"@) == Some(a))
    &&& text_of(order, "client_order_id"@, 128) == Some(prior.client_order_id@)
    &&& text_of(order, "symbol"@, 64) == Some(symbol)
    &&& text_of(order, "asset_class"@, 32) == Some("us_equity"@)
    &&& text_of(order, "side"@, 16) is Some
    &&& str_of(field_of(request, "side"@)) == text_of(order, "side"@, 16)
    &&& reported_type(order) == str_of(field_of(request, "type"@))
    &&& text_of(order, "time_in_force"@, 16) is Some
    &&& str_of(field_of(request, "time_in_force"@)) == text_of(order, "time_in_force"@, 16)
    &&& amount_echoed(order, request, "qty"@)
    &&& amount_echoed(order, request, "notional"@)
    &&& amount_echoed(order, request, "limit_price"@)
    &&& text_of(order, "status"@, 64) is Some
}

pub(crate) fn copy_attempt(a: &AlpacaPaperOrderAttempt) -> (r: AlpacaPaperOrderAttempt)
    ensures
        r == *a,
{
    AlpacaPaperOrderAttempt {
        attempt_id: a.attempt_id.clone(),
        workspace_id: a.workspace_id.clone(),
        connection_id: a.connection_id.clone(),
        remote_account_id: a.remote_account_id.clone(),
        proposal_id: a.proposal_id.clone(),
        proposal_hash: a.proposal_hash.clone(),
        client_order_id: a.client_order_id.clone(),
        state: a.state,
        provider_order_id: clone_option(&a.provider_order_id),
        provider_status: clone_option(&a.provider_status),
        error_code: clone_option(&a.error_code),
        reason: a.reason.clone(),
        state_version: a.state_version.clone(),
        created_at: a.created_at.clone(),
        updated_at: a.updated_at.clone(),
    }
}

fn request_text(request: &JsonValue, field: &str) -> (r: Result<String, TradeXError>)
    ensures
        match str_of(field_of(*request, field@)) {
            Some(s) => r matches Ok(t) && t@ == s,
            None => r matches Err(e) && e.code@ == "PROVIDER_RESPONSE_INVALID"@,
        },
{
    match as_text(get(request, field)) {
        Some(s) => Ok(s.clone()),
        None => invalid_as(),
    }
}

fn amount_echoed_exec(order: &JsonValue, request: &JsonValue, field: &str) -> (r: Result<bool, TradeXError>)
    ensures
        str_of(field_of(*request, field@)) is Some ==> match optional_decimal_of(*order, field@) {
            Some(_) => r == Ok::<bool, TradeXError>(amount_echoed(*order, *request, field@)),
            None => r matches Err(e) && e.code@ == "PROVIDER_RESPONSE_INVALID"@,
        },
        str_of(field_of(*request, field@)) is None ==> r == Ok::<bool, TradeXError>(true),
{
    match as_text(get(request, field)) {
        Some(expected) => {
            let reported = optional_decimal(order, field)?;
            match reported {
                Some(x) => Ok(str_eq(x.as_str(), expected.as_str())),
                None => Ok(false),
            }
        },
        None => Ok(true),
    }
}

/// Reads the broker's answer to an order submission (the order object it
/// returned) into the acknowledged attempt (see `acknowledges`).
#[verifier::loop_isolation(false)]
pub fn alpaca_acknowledgement(
    order: &JsonValue,
    request: &JsonValue,
    symbol: &str,
    expected_asset_id: Option<&str>,
    prior: &AlpacaPaperOrderAttempt,
) -> (r: Result<AlpacaPaperOrderAttempt, TradeXError>)
    ensures
        r is Ok <==> acknowledges(*order, *request, symbol@, match expected_asset_id {
            Some(a) => Some(a@),
            None => None,
        }, *prior),
        r matches Ok(a) ==> a == (AlpacaPaperOrderAttempt {
            state: AlpacaPaperOrderAttemptState::Acknowledged,
            provider_order_id: a.provider_order_id,
            provider_status: a.provider_status,
            error_code: None,
            reason: a.reason,
            ..*prior
        }) && opt_text(a.provider_order_id) == uuid_of(*order, "id"@) && opt_text(a.provider_status)
            == text_of(*order, "status"@, 64) && a.reason@
            == "Alpaca Paper acknowledged the order. This acknowledgement is not fill evidence."@,
        r matches Err(e) ==> e.code@ == "PROVIDER_RESPONSE_INVALID"@,
{
    let provider_order_id = id_field(order, "id")?;
    match expected_asset_id {
        Some(expected) => {
            let asset = id_field(order, "asset_id")?;
            if !str_eq(asset.as_str(), expected) {
                return invalid_as();
            }
        },
        None => {},
    }
    let client = text_field(order, "client_order_id", 128)?;
    if !str_eq(client.as_str(), prior.client_order_id.as_str()) {
        return invalid_as();
    }
    let sym = text_field(order, "symbol", 64)?;
    if !str_eq(sym.as_str(), symbol) {
        return invalid_as();
    }
    let class = text_field(order, "asset_class", 32)?;
    if !str_eq(class.as_str(), "us_equity") {
        return invalid_as();
    }
    let side = text_field(order, "side", 16)?;
    let wanted_side = request_text(request, "side")?;
    if !str_eq(side.as_str(), wanted_side.as_str()) {
        return invalid_as();
    }
    let reported = match get(order, "type") {
        Some(t) => as_text(Some(t)),
        None => as_text(get(order, "order_type")),
    };
    let wanted_type = as_text(get(request, "type"));
    let same_type = match (reported, wanted_type) {
        (Some(a), Some(b)) => str_eq(a.as_str(), b.as_str()),
        (None, None) => true,
        _ => false,
    };
    if !same_type {
        return invalid_as();
    }
    let tif = text_field(order, "time_in_force", 16)?;
    let wanted_tif = request_text(request, "time_in_force")?;
    if !str_eq(tif.as_str(), wanted_tif.as_str()) {
        return invalid_as();
    }
    if !amount_echoed_exec(order, request, "qty")? || !amount_echoed_exec(order, request, "notional")?
        || !amount_echoed_exec(order, request, "limit_price")? {
        return invalid_as();
    }
    let status = text_field(order, "status", 64)?;
    let base = copy_attempt(prior);
    Ok(AlpacaPaperOrderAttempt {
        state: AlpacaPaperOrderAttemptState::Acknowledged,
        provider_order_id: Some(provider_order_id),
        provider_status: Some(status),
        error_code: None,
        reason: owned("Alpaca Paper acknowledged the order. This acknowledgement is not fill evidence."),
        ..base
    })
}

// ----------------------------------------------------------------------------
// Read-rate reservations
// ----------------------------------------------------------------------------

/// The RFC 3339 text of a Unix timestamp, when `time` can represent and
/// format it.
pub uninterp spec fn rfc3339_of_unix(secs: int) -> Option<Seq<char>>;

/// `time::OffsetDateTime::from_unix_timestamp` formatted as RFC 3339
/// (`format` with the `Rfc3339` description); `None` when the instant is
/// out of the crate's range or cannot be formatted. Which instants those
/// are, and the text, are left to the crate (see `rfc3339_of_unix`).
#[verifier::external_body]
fn unix_rfc3339(value: i64) -> (r: Option<String>)
    ensures
        match rfc3339_of_unix(value as int) {
            Some(t) => r matches Some(s) && s@ == t,
            None => r is None,
        },
{
    match time::OffsetDateTime::from_unix_timestamp(value) {
        Ok(t) => t.format(&time::format_description::well_known::Rfc3339).ok(),
        Err(_) => None,
    }
}

/// The RFC 3339 text of a Unix timestamp; `PROVIDER_RESPONSE_INVALID` when
/// it has none.
fn unix_timestamp(value: i64) -> (r: Result<String, TradeXError>)
    ensures
        match rfc3339_of_unix(value as int) {
            Some(t) => r matches Ok(s) && s@ == t,
            None => r matches Err(e) && e.code@ == "PROVIDER_RESPONSE_INVALID"@,
        },
{
    match unix_rfc3339(value) {
        Some(t) => Ok(t),
        None => Err(invalid()),
    }
}

/// The Unix seconds of a stored deadline; zero when there is none or it
/// does not parse.
pub open spec fn deadline_secs(d: Option<String>) -> int {
    match d {
        Some(t) => match rfc3339_instant(t@) {
            Some((s, _)) => s,
            None => 0,
        },
        None => 0,
    }
}

fn deadline_secs_exec(d: &Option<String>) -> (r: i64)
    ensures
        r == deadline_secs(*d),
{
    match d {
        Some(t) => match parse_rfc3339(t.as_str()) {
            Some((s, _)) => s,
            None => 0,
        },
        None => 0,
    }
}

/// The stored retry deadline of a read endpoint.
pub open spec fn deadline_of(limits: Trading212DemoRateLimits, e: Trading212ReadEndpoint) -> Option<String> {
    match e {
        Trading212ReadEndpoint::PendingOrders => limits.pending_orders_retry_at,
        Trading212ReadEndpoint::OrderDetail => limits.order_detail_retry_at,
        Trading212ReadEndpoint::History => limits.history_retry_at,
    }
}

/// The limits with one endpoint's deadline replaced.
pub open spec fn with_deadline(limits: Trading212DemoRateLimits, e: Trading212ReadEndpoint, d: Option<String>) -> Trading212DemoRateLimits {
    match e {
        Trading212ReadEndpoint::PendingOrders => Trading212DemoRateLimits { pending_orders_retry_at: d, ..limits },
        Trading212ReadEndpoint::OrderDetail => Trading212DemoRateLimits { order_detail_retry_at: d, ..limits },
        Trading212ReadEndpoint::History => Trading212DemoRateLimits { history_retry_at: d, ..limits },
    }
}

fn set_deadline(book: &mut Trading212DemoOrderBook, e: Trading212ReadEndpoint, d: Option<String>)
    ensures
        *final(book) == (Trading212DemoOrderBook { rate_limits: with_deadline(old(book).rate_limits, e, d), ..*old(book) }),
{
    match e {
        Trading212ReadEndpoint::PendingOrders => {
            book.rate_limits.pending_orders_retry_at = d;
        },
        Trading212ReadEndpoint::OrderDetail => {
            book.rate_limits.order_detail_retry_at = d;
        },
        Trading212ReadEndpoint::History => {
            book.rate_limits.history_retry_at = d;
        },
    }
}

fn stored_deadline(book: &Trading212DemoOrderBook, e: Trading212ReadEndpoint) -> (r: i64)
    ensures
        r == deadline_secs(deadline_of(book.rate_limits, e)),
{
    match e {
        Trading212ReadEndpoint::PendingOrders => deadline_secs_exec(&book.rate_limits.pending_orders_retry_at),
        Trading212ReadEndpoint::OrderDetail => deadline_secs_exec(&book.rate_limits.order_detail_retry_at),
        Trading212ReadEndpoint::History => deadline_secs_exec(&book.rate_limits.history_retry_at),
    }
}

pub open spec fn interval_of(e: Trading212ReadEndpoint) -> int {
    match e {
        Trading212ReadEndpoint::PendingOrders => 5,
        Trading212ReadEndpoint::OrderDetail => 1,
        Trading212ReadEndpoint::History => 10,
    }
}

/// The earliest instant (Unix seconds) a read of `endpoint` is allowed:
/// the later of the book's stored deadline and the process-wide one.
pub open spec fn read_allowed_from(book: Trading212DemoOrderBook, endpoint: Trading212ReadEndpoint, previous: i64) -> int {
    let stored = deadline_secs(deadline_of(book.rate_limits, endpoint));
    if stored >= previous {
        stored
    } else {
        previous as int
    }
}

/// The earliest next read after a read at `now`: its minimum interval
/// later, saturating.
pub open spec fn next_read_after(now: i64, endpoint: Trading212ReadEndpoint) -> int {
    if now + interval_of(endpoint) > i64::MAX {
        i64::MAX as int
    } else {
        now + interval_of(endpoint)
    }
}

/// Reads are spaced by the minimum interval: once a read is reserved at
/// `now`, a reservation of the same endpoint at any `later` instant before
/// the deadline that reservation returned is refused, whatever the book
/// then stores.
pub proof fn lemma_reads_are_spaced(
    book: Trading212DemoOrderBook,
    endpoint: Trading212ReadEndpoint,
    now: i64,
    previous: i64,
    later_book: Trading212DemoOrderBook,
    later: i64,
)
    requires
        now >= read_allowed_from(book, endpoint, previous),
        later < next_read_after(now, endpoint),
    ensures
        later < read_allowed_from(later_book, endpoint, next_read_after(now, endpoint) as i64),
{
}

/// Reserves a rate-limited read at `now` (Unix seconds), given the
/// process-wide earliest next read `previous` for the account and
/// endpoint. A read is allowed from the later of the stored deadline and
/// `previous`: before that, the deadline is stored and the read refused as
/// rate limited; from then, the next read is allowed `minimum_interval`
/// seconds later (saturating), which becomes the stored deadline and the
/// new process-wide value (the first component). An instant that cannot be
/// written as RFC 3339 is invalid.
pub fn reserve_trading212_read(
    book: &mut Trading212DemoOrderBook,
    endpoint: Trading212ReadEndpoint,
    now: i64,
    previous: i64,
) -> (r: (Option<i64>, Result<String, TradeXError>))
    ensures
        ({
            let allowed = read_allowed_from(*old(book), endpoint, previous);
            let next = next_read_after(now, endpoint);
            if now < allowed {
                &&& r.0 is None
                &&& match rfc3339_of_unix(allowed) {
                    Some(t) => (r.1 matches Err(e) && e.code@ == "PROVIDER_RATE_LIMITED"@)
                        && opt_text(deadline_of(final(book).rate_limits, endpoint)) == Some(t)
                        && *final(book) == (Trading212DemoOrderBook {
                            rate_limits: with_deadline(old(book).rate_limits, endpoint, deadline_of(final(book).rate_limits, endpoint)),
                            ..*old(book)
                        }),
                    None => (r.1 matches Err(e) && e.code@ == "PROVIDER_RESPONSE_INVALID"@) && *final(book) == *old(book),
                }
            } else {
                &&& r.0 == Some(next as i64)
                &&& match rfc3339_of_unix(next) {
                    Some(t) => (r.1 matches Ok(s) && s@ == t)
                        && opt_text(deadline_of(final(book).rate_limits, endpoint)) == Some(t)
                        && *final(book) == (Trading212DemoOrderBook {
                            rate_limits: with_deadline(old(book).rate_limits, endpoint, deadline_of(final(book).rate_limits, endpoint)),
                            ..*old(book)
                        }),
                    None => (r.1 matches Err(e) && e.code@ == "PROVIDER_RESPONSE_INVALID"@) && *final(book) == *old(book),
                }
            }
        }),
{
    let stored = stored_deadline(book, endpoint);
    let allowed = if stored >= previous {
        stored
    } else {
        previous
    };
    if now < allowed {
        let retry_at = match unix_timestamp(allowed) {
            Ok(t) => t,
            Err(e) => {
                return (None, Err(e));
            },
        };
        let ghost t = retry_at;
        set_deadline(book, endpoint, Some(retry_at));
        return (None, Err(TradeXError::new("PROVIDER_RATE_LIMITED")));
    }
    let interval = endpoint.minimum_interval();
    let next = if now > i64::MAX - interval {
        i64::MAX
    } else {
        now + interval
    };
    let retry_at = match unix_timestamp(next) {
        Ok(t) => t,
        Err(e) => {
            return (Some(next), Err(e));
        },
    };
    set_deadline(book, endpoint, Some(retry_at.clone()));
    (Some(next), Ok(retry_at))
}

/// Records the rate-limit headers of a read: when none remain, the reset
/// instant pushes the stored deadline later. A positive deadline is stored
/// and becomes the process-wide value for the account and endpoint (the
/// first component); an instant that cannot be written as RFC 3339 is
/// invalid.
pub fn record_trading212_rate_limit(
    book: &mut Trading212DemoOrderBook,
    endpoint: Trading212ReadEndpoint,
    headers: Option<ProviderRateLimit>,
) -> (r: (Option<i64>, Result<(), TradeXError>))
    ensures
        ({
            let stored = deadline_secs(deadline_of(old(book).rate_limits, endpoint));
            let reset = match headers {
                Some(h) => if h.remaining == Some(0u64) {
                    match h.reset_at {
                        Some(t) => match rfc3339_instant(t@) {
                            Some((s, _)) => Some(s),
                            None => None,
                        },
                        None => None,
                    }
                } else {
                    None
                },
                None => None,
            };
            let deadline = match reset {
                Some(s) => if s > stored { s } else { stored },
                None => stored,
            };
            if deadline <= 0 {
                r.0 is None && r.1 is Ok && *final(book) == *old(book)
            } else {
                match rfc3339_of_unix(deadline) {
                    Some(t) => r.0 == Some(deadline as i64) && r.1 is Ok && opt_text(
                        deadline_of(final(book).rate_limits, endpoint),
                    ) == Some(t) && *final(book) == (Trading212DemoOrderBook {
                        rate_limits: with_deadline(old(book).rate_limits, endpoint, deadline_of(final(book).rate_limits, endpoint)),
                        ..*old(book)
                    }),
                    None => r.0 is None && (r.1 matches Err(e) && e.code@ == "PROVIDER_RESPONSE_INVALID"@)
                        && *final(book) == *old(book),
                }
            }
        }),
{
    let mut deadline = stored_deadline(book, endpoint);
    match &headers {
        Some(h) => {
            if h.remaining == Some(0u64) {
                match &h.reset_at {
                    Some(t) => match parse_rfc3339(t.as_str()) {
                        Some((s, _)) => {
                            if s > deadline {
                                deadline = s;
                            }
                        },
                        None => {},
                    },
                    None => {},
                }
            }
        },
        None => {},
    }
    if deadline > 0 {
        let text = match unix_timestamp(deadline) {
            Ok(t) => t,
            Err(e) => {
                return (None, Err(e));
            },
        };
        set_deadline(book, endpoint, Some(text));
        return (Some(deadline), Ok(()));
    }
    (None, Ok(()))
}

/// The digits after an optional leading sign character `sign`.
pub open spec fn after_sign(s: Seq<char>, sign: char) -> Seq<char> {
    if s.len() > 0 && s[0] == sign {
        s.drop_first()
    } else {
        s
    }
}

/// `u64::from_str`: an optional `+` and at least one digit, at most
/// `u64::MAX`.
pub open spec fn u64_text_value(s: Seq<char>) -> Option<int> {
    let d = after_sign(s, '+');
    if d.len() > 0 && all_digits(d) && digits_value(d) <= u64::MAX {
        Some(digits_value(d))
    } else {
        None
    }
}

/// `i64::from_str`: an optional `+` or `-` and at least one digit, within
/// the range of `i64`.
pub open spec fn i64_text_value(s: Seq<char>) -> Option<int> {
    if s.len() > 0 && s[0] == '-' {
        let d = s.drop_first();
        if d.len() > 0 && all_digits(d) && digits_value(d) <= 0x8000_0000_0000_0000 {
            Some(-digits_value(d))
        } else {
            None
        }
    } else {
        let d = after_sign(s, '+');
        if d.len() > 0 && all_digits(d) && digits_value(d) <= i64::MAX {
            Some(digits_value(d))
        } else {
            None
        }
    }
}

/// The value of a digit string when it is at most `limit`.
fn digits_at_most(v: &Vec<char>, from: usize, limit: u128) -> (r: Option<u128>)
    requires
        from <= v@.len(),
        all_digits(v@.subrange(from as int, v@.len() as int)),
        limit <= u64::MAX as u128 + 1,
    ensures
        match r {
            Some(x) => x == digits_value(v@.subrange(from as int, v@.len() as int)) && x <= limit,
            None => digits_value(v@.subrange(from as int, v@.len() as int)) > limit,
        },
{
    let ghost d = v@.subrange(from as int, v@.len() as int);
    let mut acc: u128 = 0;
    let mut i: usize = from;
    while i < v.len()
        invariant
            from <= i <= v@.len(),
            d == v@.subrange(from as int, v@.len() as int),
            all_digits(d),
            acc == digits_value(v@.subrange(from as int, i as int)),
            acc <= limit,
            limit <= u64::MAX as u128 + 1,
        decreases v@.len() - i,
    {
        proof {
            assert(v@.subrange(from as int, i + 1).drop_last() =~= v@.subrange(from as int, i as int));
            assert(is_digit(d[i - from]));
            assert(d[i - from] == v@[i as int]);
        }
        let digit = (v[i] as u32 - '0' as u32) as u128;
        acc = acc * 10 + digit;
        i = i + 1;
        if acc > limit {
            proof {
                lemma_digit_prefix_at_most(d, i - from);
                assert(v@.subrange(from as int, i as int) =~= d.subrange(0, i - from));
            }
            return None;
        }
    }
    assert(v@.subrange(from as int, v@.len() as int) =~= d);
    Some(acc)
}

/// A digit prefix's value never exceeds the whole digit string's value.
proof fn lemma_digit_prefix_at_most(v: Seq<char>, i: int)
    requires
        all_digits(v),
        0 <= i <= v.len(),
    ensures
        digits_value(v.subrange(0, i)) <= digits_value(v),
    decreases v.len() - i,
{
    if i < v.len() {
        lemma_digit_prefix_at_most(v, i + 1);
        let p = v.subrange(0, i + 1);
        assert(p.drop_last() =~= v.subrange(0, i));
        crate::decimal::lemma_digits_value_bounds(v.subrange(0, i));
        assert(is_digit(p.last()));
        assert(digits_value(p) == digits_value(v.subrange(0, i)) * 10 + crate::decimal::digit_value(p.last()));
    } else {
        assert(v.subrange(0, i) =~= v);
    }
}

fn sign_skip(v: &Vec<char>, sign: char) -> (r: usize)
    ensures
        r <= v@.len(),
        v@.subrange(r as int, v@.len() as int) == after_sign(v@, sign),
{
    if v.len() > 0 && v[0] == sign {
        assert(v@.subrange(1, v@.len() as int) =~= v@.drop_first());
        1
    } else {
        assert(v@.subrange(0, v@.len() as int) =~= v@);
        0
    }
}

fn digits_from(v: &Vec<char>, from: usize) -> (r: bool)
    requires
        from <= v@.len(),
    ensures
        r == all_digits(v@.subrange(from as int, v@.len() as int)),
{
    let mut i = from;
    while i < v.len()
        invariant
            from <= i <= v@.len(),
            forall|k: int| from <= k < i ==> is_digit(#[trigger] v@[k]),
        decreases v@.len() - i,
    {
        if !('0' <= v[i] && v[i] <= '9') {
            assert(!is_digit(v@.subrange(from as int, v@.len() as int)[i - from]));
            return false;
        }
        i = i + 1;
    }
    assert forall|k: int| 0 <= k < v@.len() - from implies is_digit(#[trigger] v@.subrange(from as int, v@.len() as int)[k]) by {
        assert(v@.subrange(from as int, v@.len() as int)[k] == v@[from + k]);
    }
    true
}

/// Parses an unsigned 64-bit integer as `u64::from_str` does.
pub fn parse_u64_text(s: &str) -> (r: Option<u64>)
    ensures
        match r {
            Some(x) => u64_text_value(s@) == Some(x as int),
            None => u64_text_value(s@) is None,
        },
{
    let v = chars(s);
    let from = sign_skip(&v, '+');
    if from == v.len() || !digits_from(&v, from) {
        return None;
    }
    match digits_at_most(&v, from, u64::MAX as u128) {
        Some(x) => Some(x as u64),
        None => None,
    }
}

/// Parses a signed 64-bit integer as `i64::from_str` does.
pub fn parse_i64_text(s: &str) -> (r: Option<i64>)
    ensures
        match r {
            Some(x) => i64_text_value(s@) == Some(x as int),
            None => i64_text_value(s@) is None,
        },
{
    let v = chars(s);
    if v.len() > 0 && v[0] == '-' {
        assert(v@.subrange(1, v@.len() as int) =~= v@.drop_first());
        if v.len() == 1 || !digits_from(&v, 1) {
            return None;
        }
        return match digits_at_most(&v, 1, 0x8000_0000_0000_0000u128) {
            Some(x) => {
                if x == 0x8000_0000_0000_0000u128 {
                    Some(i64::MIN)
                } else {
                    Some(-(x as i64))
                }
            },
            None => None,
        };
    }
    let from = sign_skip(&v, '+');
    if from == v.len() || !digits_from(&v, from) {
        return None;
    }
    match digits_at_most(&v, from, i64::MAX as u128) {
        Some(x) => Some(x as i64),
        None => None,
    }
}

/// The rate-limit headers of a response, given the texts of its
/// `x-ratelimit-remaining` and `x-ratelimit-reset` headers: the remaining
/// count when it parses as `u64`, the reset instant (Unix seconds) written
/// as RFC 3339 when it parses as `i64` and `time` can write it; `None`
/// when neither is present.
pub fn rate_limit(remaining: Option<&str>, reset: Option<&str>) -> (r: Option<ProviderRateLimit>)
    ensures
        ({
            let rem = match remaining {
                Some(t) => u64_text_value(t@),
                None => None,
            };
            let at = match reset {
                Some(t) => match i64_text_value(t@) {
                    Some(v) => rfc3339_of_unix(v),
                    None => None,
                },
                None => None,
            };
            match r {
                Some(x) => (rem is Some || at is Some) && match x.remaining {
                    Some(n) => rem == Some(n as int),
                    None => rem is None,
                } && opt_text(x.reset_at) == at,
                None => rem is None && at is None,
            }
        }),
{
    let count = match remaining {
        Some(t) => parse_u64_text(t),
        None => None,
    };
    let reset_at = match reset {
        Some(t) => match parse_i64_text(t) {
            Some(v) => match unix_timestamp(v) {
                Ok(text) => Some(text),
                Err(_) => None,
            },
            None => None,
        },
        None => None,
    };
    if count.is_some() || reset_at.is_some() {
        Some(ProviderRateLimit { remaining: count, reset_at })
    } else {
        None
    }
}

// ----------------------------------------------------------------------------
// Provider jobs
// ----------------------------------------------------------------------------

/// What a provider job does.
#[derive(Clone, Copy, Debug, PartialEq, Eq, Structural)]
pub enum JobKind {
    Connect,
    Probe,
    Disconnect,
    Trading212DemoSubmit,
    Trading212DemoOrderBookPending,
    Trading212DemoOrderBookHistory,
    Trading212DemoOrderBookDetail,
    AlpacaPaperSubmit,
    AlpacaPaperReconcile,
    AlpacaPaperOrderBookRefresh,
    AlpacaPaperOrderReview,
    AlpacaPaperOrderCancel,
}

/// A unit of provider work for one account connection, with what it needs.
pub struct ProviderJob {
    pub account: AccountConnection,
    pub kind: JobKind,
    pub session: String,
    pub request_id: String,
    pub trading212_demo_attempt: Option<Trading212DemoOrderAttempt>,
    pub trading212_demo_proposal: Option<OrderProposal>,
    pub trading212_demo_order_book: Option<Trading212DemoOrderBook>,
    pub trading212_demo_order_id: Option<String>,
    pub alpaca_attempt: Option<AlpacaPaperOrderAttempt>,
    pub alpaca_proposal: Option<OrderProposal>,
    pub alpaca_order_book: Option<AlpacaPaperOrderBook>,
    pub alpaca_order_id: Option<String>,
    pub alpaca_expected_order: Option<AlpacaPaperOrder>,
}

impl ProviderJob {
    /// The account connection the job works on.
    pub fn connection(&self) -> (r: &AccountConnection)
        ensures
            *r == self.account,
    {
        &self.account
    }
}

} // verus!
