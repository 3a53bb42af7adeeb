//! The connection test and disconnection of an account, as a sequence of
//! steps. Each step takes what the caller saw (the credentials captured,
//! the vault's answer, a broker reply, and whether the workspace still
//! wants the job's result) and says what to do next; the caller performs
//! that action and hands back its event. A connection test only reads.
use vstd::prelude::*;
use crate::jobs::{
    checked_body, credential_state_of, endpoint_for, endpoint_of, job_route, observed_account_id,
    observed_credential_state, open_orders_page, page_ids, page_rows_error, JobRoute, ProviderOutcome,
    OPEN_ORDER_LIMIT,
};
use crate::json::JsonValue;
use crate::protocol::TradeXError;
use crate::provider_io::{
    alpaca, alpaca_error, array_of, endpoint_allows, holds_secret, observation_parsed, uuid_of, JobKind,
    Observation, ProviderEndpoint, ProviderJob,
};
use crate::providers::{definition, definition_ok, supported_label, ProviderDefinition};
use crate::text::{concat, owned};

verus! {

/// The largest response body a read takes.
pub const MAX_RESPONSE: u64 = 2097152;

/// The first read of the paper broker's open orders.
pub open spec fn open_orders_path() -> Seq<char> {
    "/v2/orders?status=open&limit=500&direction=asc&nested=false"@
}

/// The read of the paper broker's open orders after the order `id`.
pub open spec fn open_orders_after(id: Seq<char>) -> Seq<char> {
    "/v2/orders?status=open&limit=500&direction=asc&nested=false&after_order_id="@ + id
}

/// Where a connection test or disconnection stands.
#[derive(Clone, Copy, Debug, PartialEq, Eq, Structural)]
pub enum ConnectionStage {
    /// Nothing done yet.
    Start,
    /// The user is asked for the credentials.
    Capturing,
    /// The captured credentials are stored.
    Storing,
    /// The stored credentials are read.
    Loading,
    /// The account is read.
    Account,
    /// The positions are read.
    Positions,
    /// A page of open orders is read.
    Orders,
    /// The credential is removed.
    Removing,
    /// The job has finished.
    Done,
}

/// What a connection test has gathered so far.
pub struct ConnectionTest {
    pub stage: ConnectionStage,
    /// How many values the provider's credential has.
    pub fields: usize,
    /// Whether the stored credential was read.
    pub configured: bool,
    /// The credential's values; no reply may reflect them.
    pub secrets: Vec<String>,
    pub account: JsonValue,
    pub positions: JsonValue,
    /// The open orders read so far, and their identifiers.
    pub orders: Vec<JsonValue>,
    pub seen: Vec<String>,
    /// The result held while the credential of a connect the workspace no
    /// longer wants is removed.
    pub result: Option<Result<Observation, TradeXError>>,
}

/// What the caller saw after an action (`current`: whether the workspace
/// still wants the job's result, asked as the event is handed back).
pub enum ConnectionEvent {
    /// The job begins.
    Begin { current: bool },
    /// The user gave credentials with this many values, or the capture failed.
    Captured { count: Result<usize, TradeXError>, current: bool },
    /// The vault stored the captured credentials, or failed.
    Stored { result: Result<(), TradeXError>, current: bool },
    /// The vault's read of the stored credential failed (the outer error),
    /// or it gave the credential, whose values were decoded or not (the
    /// inner result).
    Loaded { values: Result<Result<Vec<String>, TradeXError>, TradeXError>, current: bool },
    /// A read's body (its size in bytes and its JSON document, if it is
    /// one), or the read's failure.
    Fetched { reply: Result<(u64, Option<JsonValue>), TradeXError>, current: bool },
    /// The vault removed the credential, or failed.
    Removed { result: Result<(), TradeXError> },
}

/// What the caller does next.
pub enum ConnectionAction {
    /// Ask the user for the credentials of this provider.
    CaptureCredentials(ProviderDefinition),
    /// Store the captured credentials under the connection's reference.
    VaultPut,
    /// Read the stored credential.
    VaultGet,
    /// Remove the stored credential.
    VaultRemove,
    /// Read `path` on the endpoint with the credential.
    HttpGet(ProviderEndpoint, String),
    /// The job is over with this outcome.
    Finish(ProviderOutcome),
}

impl ConnectionTest {
    /// A test that has not begun.
    pub fn new() -> (r: Self)
        ensures
            r.stage == ConnectionStage::Start,
            r.fields == 0,
            !r.configured,
            r.secrets@.len() == 0,
            r.account == JsonValue::Null,
            r.positions == JsonValue::Null,
            r.orders@.len() == 0,
            r.seen@.len() == 0,
            r.result is None,
    {
        ConnectionTest {
            stage: ConnectionStage::Start,
            fields: 0,
            configured: false,
            secrets: Vec::new(),
            account: JsonValue::Null,
            positions: JsonValue::Null,
            orders: Vec::new(),
            seen: Vec::new(),
            result: None,
        }
    }
}

/// The outcome of a job that ends with `result`: the credential's state
/// (see `credential_state_of`), the observation or the error.
pub open spec fn finished(o: ProviderOutcome, configured: bool, withdrawn: Option<bool>, result: Result<Observation, TradeXError>) -> bool {
    &&& o.credential@ == credential_state_of(
        configured,
        withdrawn,
        match result {
            Ok(_) => None,
            Err(e) => Some(e.code@),
        },
    )
    &&& o.observation == match result {
        Ok(x) => Some(x),
        Err(_) => None::<Observation>,
    }
    &&& o.error == match result {
        Ok(_) => None::<TradeXError>,
        Err(e) => Some(e),
    }
    &&& o.trading212_demo_attempt is None
    &&& o.trading212_demo_order_book is None
    &&& o.alpaca_paper_attempt is None
    &&& o.alpaca_paper_order_book is None
}

/// A connection test only reads: the broker is touched only by a GET on
/// the connection's own endpoint of a path that endpoint allows (there is
/// no action that writes to a broker).
pub open spec fn reads_only(job: ProviderJob, a: ConnectionAction) -> bool {
    match a {
        ConnectionAction::HttpGet(e, p) => Some(e) == endpoint_of(job.account.provider_id@, job.account.environment@)
            && endpoint_allows(e, p@),
        _ => true,
    }
}

/// An outcome a test finishes with holds an observation or an error, never
/// both; a refusal of the credentials (`PROVIDER_AUTH_FAILED`) leaves the
/// credential `INVALID` and no observation.
pub proof fn lemma_finished_outcome(
    o: ProviderOutcome,
    configured: bool,
    withdrawn: Option<bool>,
    result: Result<Observation, TradeXError>,
)
    requires
        finished(o, configured, withdrawn, result),
    ensures
        o.observation is Some ==> o.error is None,
        o.observation is Some || o.error is Some,
        (o.error matches Some(e) && e.code@ == "PROVIDER_AUTH_FAILED"@) ==> o.credential@ == "INVALID"@
            && o.observation is None,
{
}

/// The outcome of a disconnection whose removal gave `result`.
pub open spec fn disconnected(o: ProviderOutcome, result: Result<(), TradeXError>) -> bool {
    &&& o.credential@ == credential_state_of(false, Some(result is Ok), None)
    &&& o.observation is None
    &&& o.error == match result {
        Ok(_) => None::<TradeXError>,
        Err(e) => Some(e),
    }
    &&& o.trading212_demo_attempt is None
    &&& o.trading212_demo_order_book is None
    &&& o.alpaca_paper_attempt is None
    &&& o.alpaca_paper_order_book is None
}

/// The test ends with `result`: a connect the workspace no longer wants
/// first removes its credential, holding the result; any other job
/// finishes with it.
pub open spec fn ends_with(
    job: ProviderJob,
    configured: bool,
    current: bool,
    r: (ConnectionTest, ConnectionAction),
    result: Result<Observation, TradeXError>,
) -> bool {
    if job.kind == JobKind::Connect && !current {
        &&& r.1 is VaultRemove
        &&& r.0.stage == ConnectionStage::Removing
        &&& r.0.configured == configured
        &&& r.0.result == Some(result)
    } else {
        &&& r.0.stage == ConnectionStage::Done
        &&& r.1 matches ConnectionAction::Finish(o) && finished(o, configured, None, result)
    }
}

/// The test ends with an error of this code.
pub open spec fn ends_failing(
    job: ProviderJob,
    configured: bool,
    current: bool,
    r: (ConnectionTest, ConnectionAction),
    code: Seq<char>,
) -> bool {
    exists|e: TradeXError|
        e.code@ == code && #[trigger] ends_with(job, configured, current, r, Err::<Observation, TradeXError>(e))
}

/// The body of a read that may be used: a JSON document of at most
/// `MAX_RESPONSE` bytes that reflects no credential value.
pub open spec fn reply_body(reply: Result<(u64, Option<JsonValue>), TradeXError>, secrets: Seq<String>) -> Option<JsonValue> {
    match reply {
        Ok((size, Some(v))) => if size <= MAX_RESPONSE && !holds_secret(v, secrets) {
            Some(v)
        } else {
            None
        },
        _ => None,
    }
}

/// Why a read without a usable body fails: its own error, or
/// `PROVIDER_RESPONSE_INVALID`.
pub open spec fn reply_failure(reply: Result<(u64, Option<JsonValue>), TradeXError>, e: TradeXError) -> bool {
    match reply {
        Err(x) => e == x,
        Ok(_) => e.code@ == "PROVIDER_RESPONSE_INVALID"@,
    }
}

/// The test ends with the failure of a read.
pub open spec fn ends_on_reply(
    job: ProviderJob,
    configured: bool,
    current: bool,
    r: (ConnectionTest, ConnectionAction),
    reply: Result<(u64, Option<JsonValue>), TradeXError>,
) -> bool {
    exists|e: TradeXError|
        reply_failure(reply, e) && #[trigger] ends_with(job, configured, current, r, Err::<Observation, TradeXError>(e))
}

/// The account the connection already knew, if any.
pub open spec fn known_account(job: ProviderJob) -> Option<Seq<char>> {
    match job.account.data {
        Some(d) => Some(d.remote_account_id@),
        None => None,
    }
}

/// The next step reads `path` on the paper broker with the test's
/// gathered state carried over.
pub open spec fn reads(st: ConnectionTest, r: (ConnectionTest, ConnectionAction), stage: ConnectionStage, path: Seq<char>) -> bool {
    &&& r.0.stage == stage
    &&& r.1 matches ConnectionAction::HttpGet(e, p) && e == ProviderEndpoint::AlpacaPaper && p@ == path
    &&& r.0.fields == st.fields
    &&& r.0.secrets@ == st.secrets@
}

/// Which event each stage awaits: reads are of the paper broker; a removal
/// ends a disconnection or holds a result.
pub open spec fn event_fits(job: ProviderJob, st: ConnectionTest, ev: ConnectionEvent) -> bool {
    match st.stage {
        ConnectionStage::Start => ev is Begin,
        ConnectionStage::Capturing => ev is Captured,
        ConnectionStage::Storing => ev is Stored,
        ConnectionStage::Loading => ev is Loaded,
        ConnectionStage::Account | ConnectionStage::Positions | ConnectionStage::Orders => ev is Fetched && endpoint_of(
            job.account.provider_id@,
            job.account.environment@,
        ) == Some(ProviderEndpoint::AlpacaPaper),
        ConnectionStage::Removing => ev is Removed && (job.kind == JobKind::Disconnect || st.result is Some),
        ConnectionStage::Done => false,
    }
}

/// The last page of open orders has been read into `orders`: the account,
/// positions and orders are read as an observation (see `alpaca`), which
/// counts only if the workspace still wants it.
pub open spec fn orders_done(job: ProviderJob, st: ConnectionTest, current: bool, r: (ConnectionTest, ConnectionAction), orders: JsonValue) -> bool {
    match alpaca_error(st.account, st.positions, orders) {
        Some(code) => ends_failing(job, true, current, r, code),
        None => if !current {
            ends_failing(job, true, current, r, "STATE_VERSION_CONFLICT"@)
        } else {
            exists|obs: Observation|
                observation_parsed(obs, st.account, array_of(st.positions)->0, array_of(orders)->0)
                    && #[trigger] ends_with(job, true, current, r, Ok::<Observation, TradeXError>(obs))
        },
    }
}

/// The outcome of a job that ends with `result` (see `finished`).
fn outcome_for(configured: bool, withdrawn: Option<bool>, result: Result<Observation, TradeXError>) -> (o: ProviderOutcome)
    ensures
        finished(o, configured, withdrawn, result),
{
    let credential = match &result {
        Ok(_) => observed_credential_state(configured, withdrawn, None),
        Err(e) => observed_credential_state(configured, withdrawn, Some(e.code.as_str())),
    };
    let mut o = ProviderOutcome::with_credential(credential);
    match result {
        Ok(x) => {
            o.observation = Some(x);
        },
        Err(e) => {
            o.error = Some(e);
        },
    }
    o
}

fn conclude(
    job: &ProviderJob,
    state: ConnectionTest,
    configured: bool,
    result: Result<Observation, TradeXError>,
    current: bool,
) -> (r: (ConnectionTest, ConnectionAction))
    ensures
        ends_with(*job, configured, current, r, result),
        r.0.orders@ == state.orders@,
{
    let mut st = state;
    st.configured = configured;
    if job.kind == JobKind::Connect && !current {
        st.stage = ConnectionStage::Removing;
        st.result = Some(result);
        (st, ConnectionAction::VaultRemove)
    } else {
        st.stage = ConnectionStage::Done;
        (st, ConnectionAction::Finish(outcome_for(configured, None, result)))
    }
}

fn fail(job: &ProviderJob, state: ConnectionTest, configured: bool, code: &str, current: bool) -> (r: (
    ConnectionTest,
    ConnectionAction,
))
    ensures
        ends_failing(*job, configured, current, r, code@),
        r.0.orders@ == state.orders@,
{
    let e = TradeXError::new(code);
    let ghost g = e;
    let r = conclude(job, state, configured, Err(e), current);
    assert(ends_with(*job, configured, current, r, Err::<Observation, TradeXError>(g)));
    r
}

/// A read's body, if it may be used (see `reply_body`, `reply_failure`).
fn reply_document(reply: Result<(u64, Option<JsonValue>), TradeXError>, secrets: &Vec<String>) -> (r: Result<JsonValue, TradeXError>)
    ensures
        match reply_body(reply, secrets@) {
            Some(v) => r == Ok::<JsonValue, TradeXError>(v),
            None => r matches Err(e) && reply_failure(reply, e),
        },
{
    match reply {
        Err(e) => Err(e),
        Ok((size, body)) => {
            if size > MAX_RESPONSE {
                return Err(TradeXError::new("PROVIDER_RESPONSE_INVALID"));
            }
            checked_body(body, secrets)
        },
    }
}

/// A page of open orders arrived (see `connection_step`).
fn orders_step(job: &ProviderJob, state: ConnectionTest, page: JsonValue, current: bool) -> (r: (
    ConnectionTest,
    ConnectionAction,
))
    ensures
        match page {
            JsonValue::Array(rows) => if rows@.len() > 500 {
                ends_failing(*job, state.configured, current, r, "PROVIDER_RESPONSE_INVALID"@)
            } else {
                match page_rows_error(state.seen@.map_values(|t: String| t@), rows@) {
                    Some(c) => ends_failing(*job, state.configured, current, r, c),
                    None => {
                        let orders = state.orders@ + rows@;
                        let next = page_ids(rows@).last();
                        if rows@.len() < 500 {
                            r.0.orders@ == orders && orders_done(*job, state, current, r, JsonValue::Array(r.0.orders))
                        } else if orders.len() >= OPEN_ORDER_LIMIT {
                            ends_failing(*job, state.configured, current, r, "PROVIDER_DATA_INCOMPLETE"@)
                        } else if !current {
                            ends_failing(*job, state.configured, current, r, "STATE_VERSION_CONFLICT"@)
                        } else if !endpoint_allows(ProviderEndpoint::AlpacaPaper, open_orders_after(next)) {
                            ends_failing(*job, state.configured, current, r, "PROVIDER_UNSUPPORTED"@)
                        } else {
                            &&& reads(state, r, ConnectionStage::Orders, open_orders_after(next))
                            &&& r.0.configured == state.configured
                            &&& r.0.account == state.account
                            &&& r.0.positions == state.positions
                            &&& r.0.orders@ == orders
                            &&& r.0.seen@.map_values(|t: String| t@) == state.seen@.map_values(|t: String| t@)
                                + page_ids(rows@)
                        }
                    },
                }
            },
            _ => ends_failing(*job, state.configured, current, r, "PROVIDER_RESPONSE_INVALID"@),
        },
{
    let mut st = state;
    let configured = st.configured;
    let next = match open_orders_page(&mut st.orders, &mut st.seen, page) {
        Ok(n) => n,
        Err(e) => {
            let ghost g = e;
            let r = conclude(job, st, configured, Err(e), current);
            assert(ends_with(*job, configured, current, r, Err::<Observation, TradeXError>(g)));
            return r;
        },
    };
    match next {
        None => {
            let orders = JsonValue::Array(st.orders);
            let result = alpaca(&st.account, &st.positions, &orders);
            st.orders = match orders {
                JsonValue::Array(v) => v,
                _ => Vec::new(),
            };
            match result {
                Err(e) => {
                    let ghost g = e;
                    let r = conclude(job, st, true, Err(e), current);
                    assert(ends_with(*job, true, current, r, Err::<Observation, TradeXError>(g)));
                    r
                },
                Ok(obs) => if !current {
                    fail(job, st, true, "STATE_VERSION_CONFLICT", current)
                } else {
                    let ghost g = obs;
                    let r = conclude(job, st, true, Ok(obs), current);
                    assert(ends_with(*job, true, current, r, Ok::<Observation, TradeXError>(g)));
                    r
                },
            }
        },
        Some(id) => {
            if !current {
                return fail(job, st, configured, "STATE_VERSION_CONFLICT", current);
            }
            let path = concat("/v2/orders?status=open&limit=500&direction=asc&nested=false&after_order_id=", id.as_str());
            if !ProviderEndpoint::AlpacaPaper.allows(path.as_str()) {
                return fail(job, st, configured, "PROVIDER_UNSUPPORTED", current);
            }
            st.stage = ConnectionStage::Orders;
            (st, ConnectionAction::HttpGet(ProviderEndpoint::AlpacaPaper, path))
        },
    }
}

/// One step of a connection test (a connect or a probe) or of a
/// disconnection.
///
/// A disconnection removes the credential and ends: `MISSING` once it is
/// gone, `DELETE_PENDING` with the vault's error otherwise.
///
/// A test fails with `STATE_VERSION_CONFLICT` whenever the workspace no
/// longer wants it before a step; its provider must be available
/// (`PROVIDER_UNSUPPORTED`). A connect captures the credentials, which
/// must have as many values as the provider asks for
/// (`IPC_PAYLOAD_INVALID`), and stores them. The stored credential is
/// read (once the vault gives it, it counts as configured) and must have
/// that many values (`CREDENTIAL_UNAVAILABLE`); only the paper broker's account is
/// read (`PROVIDER_UNSUPPORTED`). Then the account (its identifier the
/// one the connection knew, see `observed_account_id`), the positions and
/// the open orders page by page (see `open_orders_page`) are read; every
/// body must be a JSON document of at most `MAX_RESPONSE` bytes that
/// reflects no credential value (`PROVIDER_RESPONSE_INVALID`). Only reads
/// the endpoint allows are made (`PROVIDER_UNSUPPORTED`). A connect the
/// workspace no longer wants at its end removes its credential.
pub fn connection_step(job: &ProviderJob, state: ConnectionTest, event: ConnectionEvent) -> (r: (ConnectionTest, ConnectionAction))
    requires
        job_route(job.kind) == JobRoute::Observe || job_route(job.kind) == JobRoute::Disconnect,
        event_fits(*job, state, event),
    ensures
        reads_only(*job, r.1),
        ({
            let pid = job.account.provider_id@;
            let env = job.account.environment@;
            let conflict = "STATE_VERSION_CONFLICT"@;
            match event {
                ConnectionEvent::Begin { current } => if job.kind == JobKind::Disconnect {
                    r.0.stage == ConnectionStage::Removing && r.1 is VaultRemove
                } else if !current {
                    ends_failing(*job, state.configured, current, r, conflict)
                } else {
                    match supported_label(pid, env) {
                        None => ends_failing(*job, state.configured, current, r, "PROVIDER_UNSUPPORTED"@),
                        Some(label) => if endpoint_of(pid, env) is None {
                            ends_failing(*job, state.configured, current, r, "PROVIDER_UNSUPPORTED"@)
                        } else {
                            &&& r.0.configured == state.configured
                            &&& if job.kind == JobKind::Connect {
                                &&& r.0.stage == ConnectionStage::Capturing
                                &&& r.1 matches ConnectionAction::CaptureCredentials(d) && definition_ok(d, pid, label, env)
                                    && r.0.fields == d.fields@.len()
                            } else {
                                &&& r.0.stage == ConnectionStage::Loading
                                &&& r.1 is VaultGet
                                &&& exists|d: ProviderDefinition|
                                    #[trigger] definition_ok(d, pid, label, env) && r.0.fields == d.fields@.len()
                            }
                        },
                    }
                },
                ConnectionEvent::Captured { count, current } => match count {
                    Err(e) => ends_with(*job, state.configured, current, r, Err(e)),
                    Ok(n) => if n != state.fields {
                        ends_failing(*job, state.configured, current, r, "IPC_PAYLOAD_INVALID"@)
                    } else if !current {
                        ends_failing(*job, state.configured, current, r, conflict)
                    } else {
                        r.0.stage == ConnectionStage::Storing && r.1 is VaultPut && r.0.fields == state.fields
                            && r.0.configured == state.configured
                    },
                },
                ConnectionEvent::Stored { result, current } => match result {
                    Err(e) => ends_with(*job, state.configured, current, r, Err(e)),
                    Ok(_) => r.0.stage == ConnectionStage::Loading && r.1 is VaultGet && r.0.fields == state.fields
                        && r.0.configured == state.configured,
                },
                ConnectionEvent::Loaded { values, current } => match values {
                    Err(e) => ends_with(*job, state.configured, current, r, Err(e)),
                    Ok(Err(e)) => ends_with(*job, true, current, r, Err(e)),
                    Ok(Ok(v)) => if v@.len() != state.fields {
                        ends_failing(*job, true, current, r, "CREDENTIAL_UNAVAILABLE"@)
                    } else if endpoint_of(pid, env) != Some(ProviderEndpoint::AlpacaPaper) {
                        ends_failing(*job, true, current, r, "PROVIDER_UNSUPPORTED"@)
                    } else if !current {
                        ends_failing(*job, true, current, r, conflict)
                    } else {
                        &&& r.0.stage == ConnectionStage::Account
                        &&& r.1 matches ConnectionAction::HttpGet(e, p) && e == ProviderEndpoint::AlpacaPaper && p@
                            == "/v2/account"@
                        &&& r.0.configured
                        &&& r.0.fields == state.fields
                        &&& r.0.secrets@ == v@
                        &&& r.0.orders@.len() == 0
                        &&& r.0.seen@.len() == 0
                    },
                },
                ConnectionEvent::Fetched { reply, current } => match reply_body(reply, state.secrets@) {
                    None => ends_on_reply(*job, state.configured, current, r, reply),
                    Some(doc) => match state.stage {
                        ConnectionStage::Account => match uuid_of(doc, "id"@) {
                            None => ends_failing(*job, state.configured, current, r, "PROVIDER_RESPONSE_INVALID"@),
                            Some(id) => if known_account(*job) matches Some(k) && k != id {
                                ends_failing(*job, state.configured, current, r, "PROVIDER_IDENTITY_CHANGED"@)
                            } else if !current {
                                ends_failing(*job, state.configured, current, r, conflict)
                            } else {
                                &&& reads(state, r, ConnectionStage::Positions, "/v2/positions"@)
                                &&& r.0.configured == state.configured
                                &&& r.0.account == doc
                                &&& r.0.orders@ == state.orders@
                                &&& r.0.seen@ == state.seen@
                            },
                        },
                        ConnectionStage::Positions => if !current {
                            ends_failing(*job, state.configured, current, r, conflict)
                        } else {
                            &&& reads(state, r, ConnectionStage::Orders, open_orders_path())
                            &&& r.0.configured == state.configured
                            &&& r.0.account == state.account
                            &&& r.0.positions == doc
                            &&& r.0.orders@ == state.orders@
                            &&& r.0.seen@ == state.seen@
                        },
                        _ => match doc {
                            JsonValue::Array(rows) => if rows@.len() > 500 {
                                ends_failing(*job, state.configured, current, r, "PROVIDER_RESPONSE_INVALID"@)
                            } else {
                                match page_rows_error(state.seen@.map_values(|t: String| t@), rows@) {
                                    Some(c) => ends_failing(*job, state.configured, current, r, c),
                                    None => {
                                        let orders = state.orders@ + rows@;
                                        let next = page_ids(rows@).last();
                                        if rows@.len() < 500 {
                                            r.0.orders@ == orders && orders_done(
                                                *job,
                                                state,
                                                current,
                                                r,
                                                JsonValue::Array(r.0.orders),
                                            )
                                        } else if orders.len() >= OPEN_ORDER_LIMIT {
                                            ends_failing(*job, state.configured, current, r, "PROVIDER_DATA_INCOMPLETE"@)
                                        } else if !current {
                                            ends_failing(*job, state.configured, current, r, conflict)
                                        } else if !endpoint_allows(ProviderEndpoint::AlpacaPaper, open_orders_after(next)) {
                                            ends_failing(*job, state.configured, current, r, "PROVIDER_UNSUPPORTED"@)
                                        } else {
                                            &&& reads(state, r, ConnectionStage::Orders, open_orders_after(next))
                                            &&& r.0.configured == state.configured
                                            &&& r.0.account == state.account
                                            &&& r.0.positions == state.positions
                                            &&& r.0.orders@ == orders
                                            &&& r.0.seen@.map_values(|t: String| t@) == state.seen@.map_values(
                                                |t: String| t@,
                                            ) + page_ids(rows@)
                                        }
                                    },
                                }
                            },
                            _ => ends_failing(*job, state.configured, current, r, "PROVIDER_RESPONSE_INVALID"@),
                        },
                    },
                },
                ConnectionEvent::Removed { result } => {
                    &&& r.0.stage == ConnectionStage::Done
                    &&& if job.kind == JobKind::Disconnect {
                        r.1 matches ConnectionAction::Finish(o) && disconnected(o, result)
                    } else {
                        r.1 matches ConnectionAction::Finish(o) && finished(
                            o,
                            state.configured,
                            Some(result is Ok),
                            state.result->0,
                        )
                    }
                },
            }
        }),
{
    let mut st = state;
    match event {
        ConnectionEvent::Begin { current } => {
            if job.kind == JobKind::Disconnect {
                st.stage = ConnectionStage::Removing;
                return (st, ConnectionAction::VaultRemove);
            }
            if !current {
                let configured = st.configured;
                return fail(job, st, configured, "STATE_VERSION_CONFLICT", current);
            }
            let d = match definition(job.account.provider_id.as_str(), job.account.environment.as_str()) {
                Ok(d) => d,
                Err(e) => {
                    let configured = st.configured;
                    return conclude(job, st, configured, Err(e), current);
                },
            };
            match endpoint_for(job.account.provider_id.as_str(), job.account.environment.as_str()) {
                Ok(_) => {},
                Err(e) => {
                    let configured = st.configured;
                    return conclude(job, st, configured, Err(e), current);
                },
            }
            st.fields = d.fields.len();
            if job.kind == JobKind::Connect {
                st.stage = ConnectionStage::Capturing;
                (st, ConnectionAction::CaptureCredentials(d))
            } else {
                st.stage = ConnectionStage::Loading;
                (st, ConnectionAction::VaultGet)
            }
        },
        ConnectionEvent::Captured { count, current } => {
            let configured = st.configured;
            match count {
                Err(e) => conclude(job, st, configured, Err(e), current),
                Ok(n) => if n != st.fields {
                    fail(job, st, configured, "IPC_PAYLOAD_INVALID", current)
                } else if !current {
                    fail(job, st, configured, "STATE_VERSION_CONFLICT", current)
                } else {
                    st.stage = ConnectionStage::Storing;
                    (st, ConnectionAction::VaultPut)
                },
            }
        },
        ConnectionEvent::Stored { result, current } => {
            let configured = st.configured;
            match result {
                Err(e) => conclude(job, st, configured, Err(e), current),
                Ok(()) => {
                    st.stage = ConnectionStage::Loading;
                    (st, ConnectionAction::VaultGet)
                },
            }
        },
        ConnectionEvent::Loaded { values, current } => {
            let configured = st.configured;
            match values {
                Err(e) => conclude(job, st, configured, Err(e), current),
                Ok(Err(e)) => conclude(job, st, true, Err(e), current),
                Ok(Ok(v)) => {
                    if v.len() != st.fields {
                        return fail(job, st, true, "CREDENTIAL_UNAVAILABLE", current);
                    }
                    let paper = match endpoint_for(job.account.provider_id.as_str(), job.account.environment.as_str()) {
                        Ok(ProviderEndpoint::AlpacaPaper) => true,
                        _ => false,
                    };
                    if !paper {
                        return fail(job, st, true, "PROVIDER_UNSUPPORTED", current);
                    }
                    if !current {
                        return fail(job, st, true, "STATE_VERSION_CONFLICT", current);
                    }
                    st.configured = true;
                    st.secrets = v;
                    st.orders = Vec::new();
                    st.seen = Vec::new();
                    st.stage = ConnectionStage::Account;
                    (st, ConnectionAction::HttpGet(ProviderEndpoint::AlpacaPaper, owned("/v2/account")))
                },
            }
        },
        ConnectionEvent::Fetched { reply, current } => {
            let configured = st.configured;
            let doc = match reply_document(reply, &st.secrets) {
                Ok(doc) => doc,
                Err(e) => {
                    return conclude(job, st, configured, Err(e), current);
                },
            };
            match st.stage {
                ConnectionStage::Account => {
                    let known: Option<&str> = match &job.account.data {
                        Some(d) => Some(d.remote_account_id.as_str()),
                        None => None,
                    };
                    match observed_account_id(&doc, known) {
                        Ok(_) => {},
                        Err(e) => {
                            return conclude(job, st, configured, Err(e), current);
                        },
                    }
                    if !current {
                        return fail(job, st, configured, "STATE_VERSION_CONFLICT", current);
                    }
                    st.account = doc;
                    st.stage = ConnectionStage::Positions;
                    (st, ConnectionAction::HttpGet(ProviderEndpoint::AlpacaPaper, owned("/v2/positions")))
                },
                ConnectionStage::Positions => {
                    if !current {
                        return fail(job, st, configured, "STATE_VERSION_CONFLICT", current);
                    }
                    st.positions = doc;
                    st.stage = ConnectionStage::Orders;
                    (
                        st,
                        ConnectionAction::HttpGet(
                            ProviderEndpoint::AlpacaPaper,
                            owned("/v2/orders?status=open&limit=500&direction=asc&nested=false"),
                        ),
                    )
                },
                _ => orders_step(job, st, doc, current),
            }
        },
        ConnectionEvent::Removed { result } => {
            if job.kind == JobKind::Disconnect {
                let ok = result.is_ok();
                let mut o = ProviderOutcome::with_credential(observed_credential_state(false, Some(ok), None));
                o.error = match result {
                    Ok(()) => None,
                    Err(e) => Some(e),
                };
                st.stage = ConnectionStage::Done;
                return (st, ConnectionAction::Finish(o));
            }
            let configured = st.configured;
            let held = match st.result.take() {
                Some(x) => x,
                None => {
                    proof {
                        assert(false);
                    }
                    Err(TradeXError::new("STATE_VERSION_CONFLICT"))
                },
            };
            let o = outcome_for(configured, Some(result.is_ok()), held);
            st.stage = ConnectionStage::Done;
            (st, ConnectionAction::Finish(o))
        },
    }
}

} // verus!
