//! Research tools: the request identity hash, the tool registry check and
//! the sanitized research result a turn receives.
use vstd::prelude::*;
use crate::capability::{CapabilityDecision, ResearchToolId};
use crate::protocol::{
    AgentMode, DataSourceEntry, DataSourceStatus, ExecutionContext, ResearchFinding, ResearchFocus,
    ResearchFreshness, ResearchProvenance, ResearchQuality, ResearchResultState,
    ResearchToolInvocation, ResearchToolPayload, ResearchToolRequest, ResearchToolResult,
    ThreadContextRef, TradeXError,
};
use crate::text::{any_control, chars, has_control, owned, push_char, str_eq, trim_whitespace, trim_ws};
use crate::decimal::push_chars;

verus! {

/// The lowercase hexadecimal digit of a value below sixteen.
pub open spec fn hex_digit(n: int) -> char {
    if n < 10 {
        (n + 48) as char
    } else {
        (n + 87) as char
    }
}

/// Lowercase hexadecimal text of bytes, high nibble first.
pub open spec fn hex_text(b: Seq<u8>) -> Seq<char>
    decreases b.len(),
{
    if b.len() == 0 {
        Seq::empty()
    } else {
        hex_text(b.drop_last()) + seq![hex_digit(b.last() as int / 16), hex_digit(b.last() as int % 16)]
    }
}

/// The SHA-256 digest of the UTF-8 encoding of a text.
pub uninterp spec fn sha256_digest(text: Seq<char>) -> Seq<u8>;

/// `sha2::Sha256::digest` of the text's UTF-8 bytes; the digest is 32 bytes
/// long. Which bytes it holds is not stated here.
#[verifier::external_body]
pub(crate) fn sha256_of_text(text: &str) -> (r: Vec<u8>)
    ensures
        r@ == sha256_digest(text@),
        r@.len() == 32,
{
    <sha2::Sha256 as sha2::Digest>::digest(text.as_bytes()).to_vec()
}

/// `hex::encode`: two lowercase hexadecimal digits per byte, high nibble
/// first.
#[verifier::external_body]
pub(crate) fn hex_encode(bytes: &[u8]) -> (r: String)
    ensures
        r@ == hex_text(bytes@),
{
    hex::encode(bytes)
}

pub proof fn lemma_hex_text_len(b: Seq<u8>)
    ensures
        hex_text(b).len() == 2 * b.len(),
    decreases b.len(),
{
    if b.len() > 0 {
        lemma_hex_text_len(b.drop_last());
    }
}

pub open spec fn mode_text(m: AgentMode) -> Seq<char> {
    match m {
        AgentMode::Ask => "ASK"@,
        AgentMode::Research => "RESEARCH"@,
        AgentMode::Backtest => "BACKTEST"@,
        AgentMode::Trade => "TRADE"@,
    }
}

fn mode_name(mode: AgentMode) -> (r: &'static str)
    ensures
        r@ == mode_text(mode),
{
    match mode {
        AgentMode::Ask => "ASK",
        AgentMode::Research => "RESEARCH",
        AgentMode::Backtest => "BACKTEST",
        AgentMode::Trade => "TRADE",
    }
}

pub open spec fn context_text(c: ExecutionContext) -> Seq<char> {
    match c {
        ExecutionContext::NoneReadOnly => "NONE_READ_ONLY"@,
        ExecutionContext::HistoricalSimulation => "HISTORICAL_SIMULATION"@,
        ExecutionContext::LocalPaper => "LOCAL_PAPER"@,
        ExecutionContext::AlpacaPaper => "ALPACA_PAPER"@,
        ExecutionContext::Trading212Demo => "TRADING212_DEMO"@,
        ExecutionContext::Trading212Live => "TRADING212_LIVE"@,
        ExecutionContext::BinanceTestnet => "BINANCE_TESTNET"@,
        ExecutionContext::BinanceLive => "BINANCE_LIVE"@,
        ExecutionContext::BitgetDemo => "BITGET_DEMO"@,
        ExecutionContext::BitgetLive => "BITGET_LIVE"@,
    }
}

fn context_name(context: ExecutionContext) -> (r: &'static str)
    ensures
        r@ == context_text(context),
{
    match context {
        ExecutionContext::NoneReadOnly => "NONE_READ_ONLY",
        ExecutionContext::HistoricalSimulation => "HISTORICAL_SIMULATION",
        ExecutionContext::LocalPaper => "LOCAL_PAPER",
        ExecutionContext::AlpacaPaper => "ALPACA_PAPER",
        ExecutionContext::Trading212Demo => "TRADING212_DEMO",
        ExecutionContext::Trading212Live => "TRADING212_LIVE",
        ExecutionContext::BinanceTestnet => "BINANCE_TESTNET",
        ExecutionContext::BinanceLive => "BINANCE_LIVE",
        ExecutionContext::BitgetDemo => "BITGET_DEMO",
        ExecutionContext::BitgetLive => "BITGET_LIVE",
    }
}

pub open spec fn focus_text(f: Option<ResearchFocus>) -> Seq<char> {
    match f {
        Some(ResearchFocus::Equity) => "EQUITY"@,
        Some(ResearchFocus::CryptoSpot) => "CRYPTO_SPOT"@,
        _ => "GENERAL"@,
    }
}

fn focus_name(focus: Option<ResearchFocus>) -> (r: &'static str)
    ensures
        r@ == focus_text(focus),
{
    match focus {
        Some(ResearchFocus::Equity) => "EQUITY",
        Some(ResearchFocus::CryptoSpot) => "CRYPTO_SPOT",
        _ => "GENERAL",
    }
}

pub open spec fn tool_text(t: ResearchToolId) -> Seq<char> {
    match t {
        ResearchToolId::PublicMarketRead => "public_market_read"@,
        ResearchToolId::AccountRead => "account_read"@,
        ResearchToolId::HistoricalSimulation => "historical_simulation"@,
    }
}

fn tool_name(tool: ResearchToolId) -> (r: &'static str)
    ensures
        r@ == tool_text(tool),
{
    match tool {
        ResearchToolId::PublicMarketRead => "public_market_read",
        ResearchToolId::AccountRead => "account_read",
        ResearchToolId::HistoricalSimulation => "historical_simulation",
    }
}

/// `kind:id:hash` of one attached context.
pub open spec fn context_line(c: ThreadContextRef) -> Seq<char> {
    c.kind@ + seq![':'] + c.id@ + seq![':'] + c.hash@
}

/// The attached contexts' lines joined by `|`.
pub open spec fn joined_contexts(v: Seq<ThreadContextRef>) -> Seq<char>
    decreases v.len(),
{
    if v.len() == 0 {
        Seq::empty()
    } else if v.len() == 1 {
        context_line(v[0])
    } else {
        joined_contexts(v.drop_last()) + seq!['|'] + context_line(v.last())
    }
}

/// The text whose digest identifies a research request: its fields joined
/// by NUL characters, the query last.
pub open spec fn request_material(r: ResearchToolRequest) -> Seq<char> {
    let z = seq!['\0'];
    let account = match r.account_id {
        Some(a) => a@,
        None => Seq::empty(),
    };
    r.workspace_id@ + z + mode_text(r.agent_mode) + z + context_text(r.execution_context) + z
        + account + z + focus_text(r.focus) + z + tool_text(r.tool_id) + z + joined_contexts(
        r.attached_contexts@,
    ) + z + r.query@
}

/// The hexadecimal digest of a request.
pub open spec fn request_digest(r: ResearchToolRequest) -> Seq<char> {
    hex_text(sha256_digest(request_material(r)))
}

fn canonical_contexts(v: &Vec<ThreadContextRef>) -> (r: String)
    ensures
        r@ == joined_contexts(v@),
{
    let mut out = String::new();
    let mut i: usize = 0;
    while i < v.len()
        invariant
            i <= v@.len(),
            out@ == joined_contexts(v@.subrange(0, i as int)),
        decreases v@.len() - i,
    {
        if i > 0 {
            push_char(&mut out, '|');
        }
        push_chars(&mut out, &chars(v[i].kind.as_str()));
        push_char(&mut out, ':');
        push_chars(&mut out, &chars(v[i].id.as_str()));
        push_char(&mut out, ':');
        push_chars(&mut out, &chars(v[i].hash.as_str()));
        proof {
            let next = v@.subrange(0, i + 1);
            assert(next.drop_last() =~= v@.subrange(0, i as int));
            if i == 0 {
                assert(out@ =~= context_line(next[0]));
            } else {
                assert(out@ =~= joined_contexts(v@.subrange(0, i as int)) + seq!['|'] + context_line(
                    next.last(),
                ));
            }
        }
        i = i + 1;
    }
    assert(v@.subrange(0, v@.len() as int) =~= v@);
    out
}

fn hex_digest(request: &ResearchToolRequest) -> (r: String)
    ensures
        r@ == request_digest(*request),
        r@.len() == 64,
{
    let mut material = owned(request.workspace_id.as_str());
    push_char(&mut material, '\0');
    push_chars(&mut material, &chars(mode_name(request.agent_mode)));
    push_char(&mut material, '\0');
    push_chars(&mut material, &chars(context_name(request.execution_context)));
    push_char(&mut material, '\0');
    match &request.account_id {
        Some(a) => push_chars(&mut material, &chars(a.as_str())),
        None => {},
    }
    push_char(&mut material, '\0');
    push_chars(&mut material, &chars(focus_name(request.focus)));
    push_char(&mut material, '\0');
    push_chars(&mut material, &chars(tool_name(request.tool_id)));
    push_char(&mut material, '\0');
    push_chars(&mut material, &chars(canonical_contexts(&request.attached_contexts).as_str()));
    push_char(&mut material, '\0');
    push_chars(&mut material, &chars(request.query.as_str()));
    assert(material@ =~= request_material(*request));
    let digest = sha256_of_text(material.as_str());
    let text = hex_encode(digest.as_slice());
    proof {
        lemma_hex_text_len(digest@);
    }
    text
}

/// The identity of a research request: `sha256:` and the lowercase hex
/// digest of its material.
pub fn request_hash(request: &ResearchToolRequest) -> (r: Result<String, TradeXError>)
    ensures
        r matches Ok(h) && h@ == "sha256:"@ + request_digest(*request),
{
    let mut h = owned("sha256:");
    push_chars(&mut h, &chars(hex_digest(request).as_str()));
    Ok(h)
}

/// The data source a research tool reads, if it has one.
pub open spec fn tool_source(t: ResearchToolId) -> Option<Seq<char>> {
    match t {
        ResearchToolId::PublicMarketRead => Some("OD-001"@),
        ResearchToolId::HistoricalSimulation => Some("OD-002"@),
        ResearchToolId::AccountRead => None,
    }
}

pub fn source_id_for(tool: ResearchToolId) -> (r: Option<&'static str>)
    ensures
        match r {
            Some(s) => tool_source(tool) == Some(s@),
            None => tool_source(tool) is None,
        },
{
    match tool {
        ResearchToolId::PublicMarketRead => Some("OD-001"),
        ResearchToolId::HistoricalSimulation => Some("OD-002"),
        ResearchToolId::AccountRead => None,
    }
}

pub open spec fn default_source(t: ResearchToolId) -> Seq<char> {
    match tool_source(t) {
        Some(s) => s,
        None => "control-plane:account"@,
    }
}

fn default_source_id(tool: ResearchToolId) -> (r: &'static str)
    ensures
        r@ == default_source(tool),
{
    match source_id_for(tool) {
        Some(s) => s,
        None => "control-plane:account",
    }
}

pub open spec fn status_text(s: DataSourceStatus) -> Seq<char> {
    match s {
        DataSourceStatus::Available => "AVAILABLE"@,
        DataSourceStatus::Unavailable => "UNAVAILABLE"@,
        DataSourceStatus::BlockedExternal => "BLOCKED_EXTERNAL"@,
        DataSourceStatus::Unverified => "UNVERIFIED"@,
    }
}

fn status_name(status: DataSourceStatus) -> (r: &'static str)
    ensures
        r@ == status_text(status),
{
    match status {
        DataSourceStatus::Available => "AVAILABLE",
        DataSourceStatus::Unavailable => "UNAVAILABLE",
        DataSourceStatus::BlockedExternal => "BLOCKED_EXTERNAL",
        DataSourceStatus::Unverified => "UNVERIFIED",
    }
}

/// The state of a research result: an available source degrades without
/// provider facts (or is available for fixtures); every other source status
/// is unavailable, fixtures included; no source is available only for
/// fixtures.
pub open spec fn state_for(source: Option<DataSourceStatus>, fixture: bool) -> ResearchResultState {
    match source {
        Some(DataSourceStatus::Available) => if fixture {
            ResearchResultState::Available
        } else {
            ResearchResultState::Degraded
        },
        Some(_) => ResearchResultState::Unavailable,
        None => if fixture {
            ResearchResultState::Available
        } else {
            ResearchResultState::Unavailable
        },
    }
}

pub open spec fn source_status(source: Option<&DataSourceEntry>) -> Option<DataSourceStatus> {
    match source {
        Some(e) => Some(e.status),
        None => None,
    }
}

pub fn result_state(source: Option<&DataSourceEntry>, fixture: bool) -> (r: ResearchResultState)
    ensures
        r == state_for(source_status(source), fixture),
{
    match source {
        Some(entry) => match entry.status {
            DataSourceStatus::Available => if fixture {
                ResearchResultState::Available
            } else {
                ResearchResultState::Degraded
            },
            _ => ResearchResultState::Unavailable,
        },
        None => if fixture {
            ResearchResultState::Available
        } else {
            ResearchResultState::Unavailable
        },
    }
}

/// Why a tool has no provider facts.
pub open spec fn base_reason(t: ResearchToolId) -> Seq<char> {
    match t {
        ResearchToolId::PublicMarketRead => "No public market provider is connected in S05; S07 owns market data."@,
        ResearchToolId::AccountRead => "Account reads are gated by native account health; S05 exposes no provider facts."@,
        ResearchToolId::HistoricalSimulation => "No historical simulation provider is connected in S05; S15 owns backtests."@,
    }
}

fn base_reason_text(tool: ResearchToolId) -> (r: &'static str)
    ensures
        r@ == base_reason(tool),
{
    match tool {
        ResearchToolId::PublicMarketRead => "No public market provider is connected in S05; S07 owns market data.",
        ResearchToolId::AccountRead => "Account reads are gated by native account health; S05 exposes no provider facts.",
        ResearchToolId::HistoricalSimulation => "No historical simulation provider is connected in S05; S15 owns backtests.",
    }
}

/// A workspace identifier or query: not blank, at most `max` characters,
/// no control characters.
pub open spec fn request_text_ok(s: Seq<char>, max: nat) -> bool {
    trim_ws(s).len() > 0 && s.len() <= max && !any_control(s)
}

fn request_text_valid(s: &String, max: usize) -> (r: bool)
    ensures
        r == request_text_ok(s@, max as nat),
{
    let v = chars(s.as_str());
    trim_whitespace(&v).len() > 0 && v.len() <= max && !has_control(&v)
}

/// The tool is one of the turn's research tools.
pub open spec fn tool_granted(d: CapabilityDecision, t: ResearchToolId) -> bool {
    exists|i: int| 0 <= i < d.research_tools@.len() && (#[trigger] d.research_tools@[i]).id == t
}

/// The limitation reported with a result.
pub open spec fn limitation_text(source: Option<&DataSourceEntry>) -> Seq<char> {
    match source {
        Some(e) => if e.status == DataSourceStatus::Available {
            "Source metadata is available, but no provider facts are configured for this adapter."@
        } else {
            e.availability_reason@
        },
        None => "The Control Plane has no provider observation for this research tool."@,
    }
}

/// The reason reported with a result.
pub open spec fn reason_text(t: ResearchToolId, source: Option<&DataSourceEntry>) -> Seq<char> {
    match source {
        Some(e) => e.source_id@ + " is "@ + status_text(e.status) + "; "@ + base_reason(t),
        None => base_reason(t),
    }
}

/// The provenance reported with a result (no fixture: freshness is
/// unavailable and quality follows the source status).
pub open spec fn provenance_ok(
    p: ResearchProvenance,
    source_id: Seq<char>,
    source: Option<&DataSourceEntry>,
) -> bool {
    let status = match source {
        Some(e) => e.status,
        None => DataSourceStatus::Unavailable,
    };
    &&& p.source_id@ == source_id
    &&& p.provider@ == match source {
        Some(e) => e.provider@,
        None => "TradeX Control Plane"@,
    }
    &&& p.status == status
    &&& p.provider_timestamp == match source {
        Some(e) => e.observed_at,
        None => None,
    }
    &&& p.received_timestamp@ == "UNAVAILABLE"@
    &&& p.freshness == ResearchFreshness::Unavailable
    &&& p.quality == match status {
        DataSourceStatus::Available => ResearchQuality::Degraded,
        DataSourceStatus::Unverified => ResearchQuality::Unknown,
        _ => ResearchQuality::Unavailable,
    }
    &&& p.limitation matches Some(l) && l@ == limitation_text(source)
}

fn copy_option(o: &Option<String>) -> (r: Option<String>)
    ensures
        r == *o,
{
    match o {
        Some(s) => Some(s.clone()),
        None => None,
    }
}

fn provenance(source_id: &String, source: Option<&DataSourceEntry>, limitation: &String) -> (r:
    ResearchProvenance)
    requires
        limitation@ == limitation_text(source),
    ensures
        provenance_ok(r, source_id@, source),
{
    let (provider, status, observed) = match source {
        Some(e) => (owned(e.provider.as_str()), e.status, copy_option(&e.observed_at)),
        None => (owned("TradeX Control Plane"), DataSourceStatus::Unavailable, None),
    };
    let quality = match status {
        DataSourceStatus::Available => ResearchQuality::Degraded,
        DataSourceStatus::Unverified => ResearchQuality::Unknown,
        _ => ResearchQuality::Unavailable,
    };
    ResearchProvenance {
        source_id: owned(source_id.as_str()),
        provider,
        status,
        provider_timestamp: observed,
        received_timestamp: owned("UNAVAILABLE"),
        freshness: ResearchFreshness::Unavailable,
        quality,
        limitation: Some(owned(limitation.as_str())),
    }
}

pub open spec fn context_refs_view(v: Seq<ThreadContextRef>) -> Seq<(Seq<char>, Seq<char>, Seq<char>)> {
    v.map_values(|c: ThreadContextRef| (c.kind@, c.id@, c.hash@))
}

fn copy_contexts(v: &Vec<ThreadContextRef>) -> (r: Vec<ThreadContextRef>)
    ensures
        context_refs_view(r@) == context_refs_view(v@),
{
    let mut r: Vec<ThreadContextRef> = Vec::new();
    let mut i: usize = 0;
    while i < v.len()
        invariant
            i <= v@.len(),
            r@.len() == i,
            forall|k: int|
                0 <= k < i ==> (#[trigger] r@[k]).kind@ == v@[k].kind@ && r@[k].id@ == v@[k].id@
                    && r@[k].hash@ == v@[k].hash@,
        decreases v@.len() - i,
    {
        r.push(
            ThreadContextRef {
                kind: owned(v[i].kind.as_str()),
                id: owned(v[i].id.as_str()),
                hash: owned(v[i].hash.as_str()),
            },
        );
        i = i + 1;
    }
    assert(context_refs_view(r@) =~= context_refs_view(v@));
    r
}

/// A research result as returned for `request` from `source`: identified by
/// the request digest, carrying the request's contexts, focus and account,
/// and a sanitized payload that never repeats the query.
pub open spec fn result_ok(
    r: ResearchToolResult,
    request: ResearchToolRequest,
    source: Option<&DataSourceEntry>,
) -> bool {
    let digest = request_digest(request);
    let source_id = match source {
        Some(e) => e.source_id@,
        None => default_source(request.tool_id),
    };
    &&& r.result_id@ == "research-"@ + digest.subrange(0, 24)
    &&& r.tool_id == request.tool_id
    &&& r.source_id@ == source_id
    &&& r.account_id == request.account_id
    &&& r.request_hash@ == "sha256:"@ + digest
    &&& r.marker@ == "research:v1:sha256:"@ + digest
    &&& context_refs_view(r.context_refs@) == context_refs_view(request.attached_contexts@)
    &&& r.payload.state == state_for(source_status(source), false)
    &&& r.payload.reason@ == reason_text(request.tool_id, source)
    &&& r.payload.focus == request.focus
    &&& r.payload.conclusion is None
    &&& r.payload.findings@.len() == 0
    &&& r.payload.scenarios@.len() == 0
    &&& r.payload.evidence@.len() == 1
    &&& provenance_ok(r.payload.evidence@[0], source_id, source)
    &&& r.payload.limitations@.len() == 1
    &&& r.payload.limitations@[0]@ == limitation_text(source)
    &&& r.payload.instrument_refs@.len() == 0
    &&& r.payload.artifact_refs@.len() == 0
    &&& r.payload.market_snapshot_refs@.len() == 0
    &&& r.payload.dataset_refs@.len() == 0
    &&& r.payload.order_refs@.len() == 0
    &&& r.payload.spot_venues@.len() == 0
    &&& r.payload.fixture_label is None
}

/// Runs a research tool against a source: checks the request text, that the
/// tool is granted and that the source is the tool's own, and returns the
/// sanitized result.
pub fn run_with_source(
    request: &ResearchToolRequest,
    decision: &CapabilityDecision,
    source: Option<&DataSourceEntry>,
) -> (r: Result<ResearchToolResult, TradeXError>)
    ensures
        !(request_text_ok(request.workspace_id@, 128) && request_text_ok(request.query@, 100_000))
            ==> (r matches Err(e) && e.code@ == "IPC_PAYLOAD_INVALID"@),
        request_text_ok(request.workspace_id@, 128) && request_text_ok(request.query@, 100_000)
            && !tool_granted(*decision, request.tool_id) ==> (r matches Err(e) && e.code@
            == "UNSUPPORTED_CAPABILITY"@),
        request_text_ok(request.workspace_id@, 128) && request_text_ok(request.query@, 100_000)
            && tool_granted(*decision, request.tool_id) ==> match source {
            Some(e) => if tool_source(request.tool_id) == Some(e.source_id@) {
                r matches Ok(res) && result_ok(res, *request, source)
            } else {
                r matches Err(err) && err.code@ == "RESEARCH_RESULT_INVALID"@
            },
            None => r matches Ok(res) && result_ok(res, *request, source),
        },
{
    if !request_text_valid(&request.workspace_id, 128) || !request_text_valid(&request.query, 100_000) {
        return Err(TradeXError::new("IPC_PAYLOAD_INVALID"));
    }
    let mut granted = false;
    let mut i: usize = 0;
    while i < decision.research_tools.len()
        invariant
            i <= decision.research_tools@.len(),
            granted <==> exists|k: int| 0 <= k < i && (#[trigger] decision.research_tools@[k]).id == request.tool_id,
        decreases decision.research_tools@.len() - i,
    {
        if decision.research_tools[i].id == request.tool_id {
            granted = true;
        }
        i = i + 1;
    }
    if !granted {
        return Err(TradeXError::new("UNSUPPORTED_CAPABILITY"));
    }
    let digest = hex_digest(request);
    let mut request_hash = owned("sha256:");
    push_chars(&mut request_hash, &chars(digest.as_str()));
    let base = base_reason_text(request.tool_id);
    let source_id = match source {
        Some(e) => owned(e.source_id.as_str()),
        None => owned(default_source_id(request.tool_id)),
    };
    let reason = match source {
        Some(entry) => {
            let expected_ok = match source_id_for(request.tool_id) {
                Some(s) => str_eq(s, entry.source_id.as_str()),
                None => false,
            };
            if !expected_ok {
                return Err(TradeXError::new("RESEARCH_RESULT_INVALID"));
            }
            let mut t = owned(entry.source_id.as_str());
            push_chars(&mut t, &chars(" is "));
            push_chars(&mut t, &chars(status_name(entry.status)));
            push_chars(&mut t, &chars("; "));
            push_chars(&mut t, &chars(base));
            t
        },
        None => owned(base),
    };
    let state = result_state(source, false);
    let limitation = match source {
        Some(entry) => if entry.status == DataSourceStatus::Available {
            owned("Source metadata is available, but no provider facts are configured for this adapter.")
        } else {
            owned(entry.availability_reason.as_str())
        },
        None => owned("The Control Plane has no provider observation for this research tool."),
    };
    let evidence = provenance(&source_id, source, &limitation);
    let dv = chars(digest.as_str());
    let mut result_id = owned("research-");
    push_chars(&mut result_id, &crate::text::slice(&dv, 0, 24));
    let mut marker = owned("research:v1:sha256:");
    push_chars(&mut marker, &dv);
    let mut evidences: Vec<ResearchProvenance> = Vec::new();
    evidences.push(evidence);
    let mut limitations: Vec<String> = Vec::new();
    limitations.push(limitation);
    Ok(
        ResearchToolResult {
            result_id,
            tool_id: request.tool_id,
            source_id,
            account_id: copy_option(&request.account_id),
            request_hash,
            marker,
            context_refs: copy_contexts(&request.attached_contexts),
            payload: ResearchToolPayload {
                state,
                reason,
                focus: request.focus,
                conclusion: None,
                findings: Vec::new(),
                scenarios: Vec::new(),
                evidence: evidences,
                limitations,
                instrument_refs: Vec::new(),
                artifact_refs: Vec::new(),
                market_snapshot_refs: Vec::new(),
                dataset_refs: Vec::new(),
                order_refs: Vec::new(),
                spot_venues: Vec::new(),
                fixture_label: None,
            },
        },
    )
}

/// Runs a research tool with no source observation.
pub fn run(request: &ResearchToolRequest, decision: &CapabilityDecision) -> (r: Result<
    ResearchToolResult,
    TradeXError,
>)
    ensures
        !(request_text_ok(request.workspace_id@, 128) && request_text_ok(request.query@, 100_000))
            ==> (r matches Err(e) && e.code@ == "IPC_PAYLOAD_INVALID"@),
        request_text_ok(request.workspace_id@, 128) && request_text_ok(request.query@, 100_000)
            && !tool_granted(*decision, request.tool_id) ==> (r matches Err(e) && e.code@
            == "UNSUPPORTED_CAPABILITY"@),
        request_text_ok(request.workspace_id@, 128) && request_text_ok(request.query@, 100_000)
            && tool_granted(*decision, request.tool_id) ==> (r matches Ok(res) && result_ok(
            res,
            *request,
            None,
        )),
{
    run_with_source(request, decision, None)
}

/// The request a turn makes for a research tool invocation.
pub fn request_for_turn(
    workspace_id: String,
    mode: AgentMode,
    context: ExecutionContext,
    account_id: Option<String>,
    attached_contexts: Vec<ThreadContextRef>,
    invocation: &ResearchToolInvocation,
) -> (r: ResearchToolRequest)
    ensures
        r.workspace_id == workspace_id,
        r.agent_mode == mode,
        r.execution_context == context,
        r.account_id == account_id,
        r.focus == invocation.focus,
        r.attached_contexts == attached_contexts,
        r.tool_id == invocation.tool_id,
        r.query@ == invocation.query@,
{
    ResearchToolRequest {
        workspace_id,
        agent_mode: mode,
        execution_context: context,
        account_id,
        focus: invocation.focus,
        attached_contexts,
        tool_id: invocation.tool_id,
        query: owned(invocation.query.as_str()),
    }
}


/// An instrument reference that may be attached to a result.
pub open spec fn ref_ok(s: Seq<char>) -> bool {
    s.len() > 0 && s.len() <= 128 && !any_control(s)
}

/// The acceptable references, in order.
pub open spec fn kept_refs(v: Seq<Seq<char>>) -> Seq<Seq<char>>
    decreases v.len(),
{
    if v.len() == 0 {
        Seq::empty()
    } else if ref_ok(v.last()) {
        kept_refs(v.drop_last()).push(v.last())
    } else {
        kept_refs(v.drop_last())
    }
}

/// At most the first eight of a sequence.
pub open spec fn first_eight<A>(v: Seq<A>) -> Seq<A> {
    if v.len() <= 8 {
        v
    } else {
        v.subrange(0, 8)
    }
}

pub open spec fn text_views(v: Seq<String>) -> Seq<Seq<char>> {
    v.map_values(|s: String| s@)
}

/// A finding that may be added: titled, title within 120 characters,
/// detail within 512.
pub open spec fn finding_ok(f: ResearchFinding) -> bool {
    f.title@.len() > 0 && f.title@.len() <= 120 && f.detail@.len() <= 512
}

proof fn lemma_kept_refs_len(v: Seq<Seq<char>>)
    ensures
        kept_refs(v).len() <= v.len(),
    decreases v.len(),
{
    if v.len() > 0 {
        lemma_kept_refs_len(v.drop_last());
    }
}

/// Attaches instrument references and an optional finding to a result: the
/// first eight acceptable references replace the old ones, and the finding
/// is added when it is acceptable and fewer than eight are present.
pub fn enrich_result(
    result: &mut ResearchToolResult,
    instrument_refs: Vec<String>,
    finding: Option<ResearchFinding>,
)
    ensures
        text_views(final(result).payload.instrument_refs@) == first_eight(
            kept_refs(text_views(instrument_refs@)),
        ),
        match finding {
            Some(f) => if old(result).payload.findings@.len() < 8 && finding_ok(f) {
                final(result).payload.findings@ == old(result).payload.findings@.push(f)
            } else {
                final(result).payload.findings@ == old(result).payload.findings@
            },
            None => final(result).payload.findings@ == old(result).payload.findings@,
        },
        final(result).result_id == old(result).result_id,
        final(result).tool_id == old(result).tool_id,
        final(result).source_id == old(result).source_id,
        final(result).account_id == old(result).account_id,
        final(result).request_hash == old(result).request_hash,
        final(result).marker == old(result).marker,
        final(result).context_refs == old(result).context_refs,
        final(result).payload.state == old(result).payload.state,
        final(result).payload.reason == old(result).payload.reason,
        final(result).payload.evidence == old(result).payload.evidence,
        final(result).payload.limitations == old(result).payload.limitations,
        final(result).payload.focus == old(result).payload.focus,
        final(result).payload.conclusion == old(result).payload.conclusion,
        final(result).payload.scenarios == old(result).payload.scenarios,
        final(result).payload.artifact_refs == old(result).payload.artifact_refs,
        final(result).payload.market_snapshot_refs == old(result).payload.market_snapshot_refs,
        final(result).payload.dataset_refs == old(result).payload.dataset_refs,
        final(result).payload.order_refs == old(result).payload.order_refs,
        final(result).payload.spot_venues == old(result).payload.spot_venues,
        final(result).payload.fixture_label == old(result).payload.fixture_label,
{
    let mut kept: Vec<String> = Vec::new();
    let mut i: usize = 0;
    while i < instrument_refs.len()
        invariant
            i <= instrument_refs@.len(),
            text_views(kept@) == first_eight(kept_refs(text_views(instrument_refs@.subrange(0, i as int)))),
        decreases instrument_refs@.len() - i,
    {
        let v = chars(instrument_refs[i].as_str());
        let ok = v.len() > 0 && v.len() <= 128 && !has_control(&v);
        proof {
            let pre = text_views(instrument_refs@.subrange(0, i as int));
            let next = text_views(instrument_refs@.subrange(0, i + 1));
            assert(next.drop_last() =~= pre);
            assert(next.last() == instrument_refs@[i as int]@);
            lemma_kept_refs_len(pre);
        }
        let ghost before = kept@;
        if ok && kept.len() < 8 {
            kept.push(owned(instrument_refs[i].as_str()));
        }
        proof {
            let pre = text_views(instrument_refs@.subrange(0, i as int));
            let next = text_views(instrument_refs@.subrange(0, i + 1));
            let k = kept_refs(pre);
            let x = instrument_refs@[i as int]@;
            assert(text_views(before).len() == before.len());
            if ok {
                assert(kept_refs(next) == k.push(x));
                if before.len() < 8 {
                    assert(k.len() < 8);
                    assert(text_views(kept@) =~= text_views(before).push(x));
                    assert(text_views(kept@) =~= first_eight(k.push(x)));
                } else {
                    assert(k.len() >= 8);
                    assert(k.push(x).subrange(0, 8) =~= k.subrange(0, 8));
                    assert(text_views(kept@) =~= first_eight(kept_refs(next)));
                }
            } else {
                assert(kept_refs(next) == k);
                assert(text_views(kept@) =~= first_eight(kept_refs(next)));
            }
        }
        i = i + 1;
    }
    assert(instrument_refs@.subrange(0, instrument_refs@.len() as int) =~= instrument_refs@);
    result.payload.instrument_refs = kept;
    match finding {
        Some(f) => {
            if result.payload.findings.len() < 8 {
                let t = chars(f.title.as_str());
                let d = chars(f.detail.as_str());
                if t.len() > 0 && t.len() <= 120 && d.len() <= 512 {
                    result.payload.findings.push(f);
                }
            }
        },
        None => {},
    }
}

/// Two results for the same request and source agree on every observable
/// field: a research result is a function of the request alone.
pub proof fn lemma_result_deterministic(
    a: ResearchToolResult,
    b: ResearchToolResult,
    request: ResearchToolRequest,
    source: Option<&DataSourceEntry>,
)
    requires
        result_ok(a, request, source),
        result_ok(b, request, source),
    ensures
        a.result_id@ == b.result_id@,
        a.marker@ == b.marker@,
        a.request_hash@ == b.request_hash@,
        a.source_id@ == b.source_id@,
        a.payload.state == b.payload.state,
        a.payload.reason@ == b.payload.reason@,
        a.payload.limitations@[0]@ == b.payload.limitations@[0]@,
{
}

/// The reason of a result never depends on the query: requests that differ
/// only in their query get the same reason.
pub proof fn lemma_reason_ignores_query(
    a: ResearchToolResult,
    b: ResearchToolResult,
    ra: ResearchToolRequest,
    rb: ResearchToolRequest,
    source: Option<&DataSourceEntry>,
)
    requires
        result_ok(a, ra, source),
        result_ok(b, rb, source),
        ra.tool_id == rb.tool_id,
    ensures
        a.payload.reason@ == b.payload.reason@,
        a.payload.limitations@[0]@ == b.payload.limitations@[0]@,
{
}

/// Every source that is not available yields an unavailable result, for
/// fixtures too.
pub proof fn lemma_unavailable_sources(status: DataSourceStatus, fixture: bool)
    requires
        status != DataSourceStatus::Available,
    ensures
        state_for(Some(status), fixture) == ResearchResultState::Unavailable,
{
}

} // verus!
