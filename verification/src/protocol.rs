//! The wire protocol shared by the desktop shell and the control plane: every
//! command payload, projection and result type, and the error catalogue.
use vstd::prelude::*;
use crate::capability::ResearchToolId;
use crate::catalog::{catalog_lookup, catalog_text, category_of, error_category, error_retryable, retryable_code};
use crate::providers::{AccountConnection, AccountHealth, ConnectionState};
use crate::risk::{RiskDecision, RiskPolicyState};
use crate::text::owned;

verus! {

/// Largest sequence number an event may carry (the largest integer a JSON number holds exactly).
pub const MAX_SEQUENCE: u64 = 9_007_199_254_740_991;

pub type Result<T> = std::result::Result<T, TradeXError>;

pub struct OpenWorkspace {
    pub path: Option<String>,
    pub name: Option<String>,
    pub base_currency: Option<String>,
}

pub struct EmptyPayload {}

pub struct RuntimeComponent {
    pub id: String,
    pub status: String,
    pub message: String,
}

pub struct RuntimeStatus {
    pub components: Vec<RuntimeComponent>,
    pub model_available: bool,
    pub live_execution_available: bool,
}

#[derive(Clone, Copy, Debug, PartialEq, Eq, Structural)]
pub enum TimeConfidence {
    Trusted,
    ClockUncertain,
    Stale,
}

#[derive(Clone, Debug, PartialEq, Eq)]
pub struct TimeStatus {
    pub workspace_id: String,
    pub confidence: TimeConfidence,
    pub wall_clock: String,
    pub monotonic_ms: u64,
    pub provider_offset_ms: Option<i64>,
    pub observed_at: String,
    pub reason: String,
    pub remediation: Remediation,
}

pub struct Aggregate {
    pub aggregate_type: String,
    pub aggregate_id: String,
}

pub struct Subscribe {
    pub aggregate_type: String,
    pub aggregate_id: String,
    pub after_sequence: u64,
}

pub struct SubscriptionAck {
    pub aggregate_type: String,
    pub aggregate_id: String,
    pub after_sequence: u64,
    pub last_sequence: u64,
    pub replayed_count: u64,
}

#[derive(Clone, Debug, PartialEq, Eq)]
pub struct AccountDeletionReceipt {
    pub connection_id: String,
}

pub struct FailureEnvelope {
    pub request_id: String,
    pub schema_version: u32,
    pub ok: bool,
    pub error: TradeXError,
}

#[derive(Clone, Debug)]
pub struct Workspace {
    pub workspace_id: String,
    pub name: String,
    pub base_currency: String,
    pub path: String,
    pub created_at: String,
    pub last_opened_at: String,
    pub storage_schema_version: u32,
}

#[derive(Clone, Copy, Debug, PartialEq, Eq, Structural)]
pub enum AgentMode {
    Ask,
    Research,
    Backtest,
    Trade,
}

#[derive(Clone, Copy, Debug, PartialEq, Eq, Structural)]
pub enum ExecutionContext {
    NoneReadOnly,
    HistoricalSimulation,
    LocalPaper,
    AlpacaPaper,
    Trading212Demo,
    Trading212Live,
    BinanceTestnet,
    BinanceLive,
    BitgetDemo,
    BitgetLive,
}

#[derive(Clone, Copy, Debug, PartialEq, Eq, Structural)]
pub enum ThreadStatus {
    Active,
    Archived,
}

#[derive(Clone, Copy, Debug, PartialEq, Eq, Structural)]
pub enum TurnStatus {
    Running,
    Completed,
    Cancelled,
    Interrupted,
    Failed,
}

#[derive(Clone, Copy, Debug, PartialEq, Eq, Structural)]
pub enum ItemStatus {
    Started,
    Streaming,
    Completed,
    Failed,
}

#[derive(Clone, Debug, PartialEq, Eq)]
pub struct ThreadModel {
    pub provider: String,
    pub model_id: String,
    pub thinking_type: Option<String>,
}

#[derive(Clone, Debug, PartialEq, Eq)]
pub struct ThreadContextRef {
    pub kind: String,
    pub id: String,
    pub hash: String,
}

#[derive(Clone, Copy, Debug, PartialEq, Eq, Structural)]
pub enum ResearchResultState {
    Available,
    Degraded,
    Unavailable,
    BlockedExternal,
    Failed,
}

#[derive(Clone, Copy, Debug, PartialEq, Eq, Structural)]
pub enum ResearchFocus {
    General,
    Equity,
    CryptoSpot,
}

#[derive(Clone, Copy, Debug, PartialEq, Eq, Structural)]
pub enum ResearchSpotVenueId {
    Binance,
    Bitget,
}

#[derive(Clone, Copy, Debug, PartialEq, Eq, Structural)]
pub enum ResearchFreshness {
    Healthy,
    Stale,
    Unavailable,
}

#[derive(Clone, Copy, Debug, PartialEq, Eq, Structural)]
pub enum ResearchQuality {
    Verified,
    Degraded,
    Unknown,
    Unavailable,
}

#[derive(Clone, Debug, PartialEq, Eq)]
pub struct ResearchFinding {
    pub title: String,
    pub detail: String,
}

#[derive(Clone, Debug, PartialEq, Eq)]
pub struct ResearchScenario {
    pub title: String,
    pub detail: String,
}

#[derive(Clone, Debug, PartialEq, Eq)]
pub struct ResearchProvenance {
    pub source_id: String,
    pub provider: String,
    pub status: DataSourceStatus,
    pub provider_timestamp: Option<String>,
    pub received_timestamp: String,
    pub freshness: ResearchFreshness,
    pub quality: ResearchQuality,
    pub limitation: Option<String>,
}

#[derive(Clone, Debug, PartialEq, Eq)]
pub struct ResearchSpotVenue {
    pub venue: ResearchSpotVenueId,
    pub state: ResearchResultState,
    pub selected: bool,
    pub bid: Option<String>,
    pub ask: Option<String>,
    pub spread: Option<String>,
    pub depth: Option<String>,
    pub quote_age: Option<String>,
    pub provenance: ResearchProvenance,
    pub limitation: Option<String>,
}

#[derive(Clone, Debug, PartialEq, Eq)]
pub struct ResearchToolPayload {
    pub state: ResearchResultState,
    pub reason: String,
    pub focus: Option<ResearchFocus>,
    pub conclusion: Option<String>,
    pub findings: Vec<ResearchFinding>,
    pub scenarios: Vec<ResearchScenario>,
    pub evidence: Vec<ResearchProvenance>,
    pub limitations: Vec<String>,
    pub instrument_refs: Vec<String>,
    pub artifact_refs: Vec<String>,
    pub market_snapshot_refs: Vec<String>,
    pub dataset_refs: Vec<String>,
    pub order_refs: Vec<String>,
    pub spot_venues: Vec<ResearchSpotVenue>,
    pub fixture_label: Option<String>,
}

#[derive(Clone, Debug, PartialEq, Eq)]
pub struct ResearchToolRequest {
    pub workspace_id: String,
    pub agent_mode: AgentMode,
    pub execution_context: ExecutionContext,
    pub account_id: Option<String>,
    pub focus: Option<ResearchFocus>,
    pub attached_contexts: Vec<ThreadContextRef>,
    pub tool_id: ResearchToolId,
    pub query: String,
}

#[derive(Clone, Debug, PartialEq, Eq)]
pub struct ResearchToolInvocation {
    pub tool_id: ResearchToolId,
    pub focus: Option<ResearchFocus>,
    pub query: String,
}

#[derive(Clone, Debug, PartialEq, Eq)]
pub struct ResearchToolResult {
    pub result_id: String,
    pub tool_id: ResearchToolId,
    pub source_id: String,
    pub account_id: Option<String>,
    pub request_hash: String,
    pub marker: String,
    pub context_refs: Vec<ThreadContextRef>,
    pub payload: ResearchToolPayload,
}

#[derive(Clone, Copy, Debug, PartialEq, Eq, Structural)]
pub enum ScreenerOperation {
    Parse,
    Run,
}

#[derive(Clone, Copy, Debug, PartialEq, Eq, Structural)]
pub enum ScreenerResultState {
    Parsed,
    Running,
    Empty,
    Completed,
    BlockedExternal,
    Failed,
}

#[derive(Clone, Copy, Debug, PartialEq, Eq, Structural)]
pub enum ScreenerUniverse {
    UsEquities,
    UsLargeCapTechnology,
    CryptoSpot,
}

#[derive(Clone, Copy, Debug, PartialEq, Eq, Structural)]
pub enum ScreenerPredicateField {
    RevenueGrowth,
    EstimateRevision,
    Rsi,
    PriceChange,
}

#[derive(Clone, Copy, Debug, PartialEq, Eq, Structural)]
pub enum ScreenerOperator {
    GreaterThan,
    GreaterOrEqual,
    LessThan,
    LessOrEqual,
}

#[derive(Clone, Debug, PartialEq, Eq)]
pub struct ScreenerPredicate {
    pub field: ScreenerPredicateField,
    pub operator: ScreenerOperator,
    pub threshold: String,
}

#[derive(Clone, Debug, PartialEq, Eq)]
pub struct FilterSpec {
    pub universe: ScreenerUniverse,
    pub predicates: Vec<ScreenerPredicate>,
}

#[derive(Clone, Copy, Debug, PartialEq, Eq, Structural)]
pub enum ScreenerRankField {
    Quality,
    RevisionStrength,
    Momentum,
}

#[derive(Clone, Copy, Debug, PartialEq, Eq, Structural)]
pub enum ScreenerDirection {
    Asc,
    Desc,
}

#[derive(Clone, Debug, PartialEq, Eq)]
pub struct RankSpec {
    pub field: ScreenerRankField,
    pub direction: ScreenerDirection,
}

#[derive(Clone, Copy, Debug, PartialEq, Eq, Structural)]
pub enum ScreenerFeatureField {
    RevenueGrowth,
    EstimateRevision,
    Rsi,
    PriceChange,
    Quality,
    RevisionStrength,
    Momentum,
}

#[derive(Clone, Debug, PartialEq, Eq)]
pub struct ScreenerFeature {
    pub field: ScreenerFeatureField,
    pub value: String,
}

#[derive(Clone, Debug, PartialEq, Eq)]
pub struct ScreenerProvenance {
    pub source_id: String,
    pub provider_timestamp: Option<String>,
    pub received_timestamp: String,
    pub freshness: ResearchFreshness,
    pub quality: ResearchQuality,
}

#[derive(Clone, Debug, PartialEq, Eq)]
pub struct ScreenerCandidate {
    pub instrument_id: String,
    pub symbol: String,
    pub rank: u32,
    pub features: Vec<ScreenerFeature>,
    pub provenance: ScreenerProvenance,
    pub limitation: Option<String>,
}

#[derive(Clone, Debug, PartialEq, Eq)]
pub struct ScreenerRequest {
    pub workspace_id: String,
    pub operation: ScreenerOperation,
    pub natural_language: String,
    pub focus: Option<ResearchFocus>,
    pub filter_spec: Option<FilterSpec>,
    pub rank_spec: Option<RankSpec>,
    pub revision: Option<String>,
    pub limit: Option<u32>,
}

#[derive(Clone, Debug, PartialEq, Eq)]
pub struct ScreenerResult {
    pub workspace_id: String,
    pub operation: ScreenerOperation,
    pub state: ScreenerResultState,
    pub natural_language: String,
    pub focus: Option<ResearchFocus>,
    pub filter_spec: Option<FilterSpec>,
    pub rank_spec: Option<RankSpec>,
    pub revision: Option<String>,
    pub applied_conditions: Vec<String>,
    pub candidates: Vec<ScreenerCandidate>,
    pub candidate_count: u32,
    pub source_ids: Vec<String>,
    pub provider_timestamp: Option<String>,
    pub received_timestamp: String,
    pub availability_reason: String,
    pub limitations: Vec<String>,
    pub fixture_label: Option<String>,
}

#[derive(Clone, Debug, PartialEq, Eq)]
pub struct ScreenerDefinition {
    pub natural_language: String,
    pub focus: Option<ResearchFocus>,
    pub filter_spec: FilterSpec,
    pub rank_spec: RankSpec,
    pub revision: String,
    pub limit: u32,
}

#[derive(Clone, Debug, PartialEq, Eq)]
pub struct SavedScreener {
    pub screener_id: String,
    pub workspace_id: String,
    pub name: String,
    pub definition: ScreenerDefinition,
    pub state: ScreenerResultState,
    pub created_at: String,
    pub updated_at: String,
    pub state_version: String,
}

#[derive(Clone, Debug, PartialEq, Eq)]
pub struct ScreenerLibrary {
    pub workspace_id: String,
    pub state_version: String,
    pub screeners: Vec<SavedScreener>,
}

pub struct ScreenerSave {
    pub workspace_id: String,
    pub name: String,
    pub definition: ScreenerDefinition,
    pub state: ScreenerResultState,
    pub expected_state_version: String,
}

pub struct ScreenerUpdate {
    pub workspace_id: String,
    pub screener_id: String,
    pub name: String,
    pub definition: ScreenerDefinition,
    pub state: ScreenerResultState,
    pub expected_state_version: String,
}

pub struct ScreenerAttach {
    pub workspace_id: String,
    pub revision: String,
    pub selected_instrument_ids: Vec<String>,
}

#[derive(Clone, Debug, PartialEq, Eq)]
pub struct ScreenerAttachment {
    pub workspace_id: String,
    pub revision: String,
    pub context_refs: Vec<ThreadContextRef>,
}

#[derive(Clone, Copy, Debug, PartialEq, Eq, Structural)]
pub enum StrategyRunState {
    Queued,
    Running,
    Completed,
    Failed,
    Cancelled,
}

#[derive(Clone, Copy, Debug, PartialEq, Eq, Structural)]
pub enum StrategyDirection {
    Buy,
    Sell,
    Hold,
}

#[derive(Clone, Copy, Debug, PartialEq, Eq, Structural)]
pub enum StrategyFixtureScenario {
    Success,
    Failure,
    Cancelled,
}

#[derive(Clone, Debug, PartialEq, Eq)]
pub struct StrategyParameter {
    pub name: String,
    pub value: String,
}

#[derive(Clone, Debug, PartialEq, Eq)]
pub struct StrategyDefinition {
    pub name: String,
    pub source: String,
    pub language: String,
    pub runtime: String,
    pub parameters: Vec<StrategyParameter>,
}

#[derive(Clone, Debug, PartialEq, Eq)]
pub struct StrategyVersion {
    pub strategy_version_id: String,
    pub strategy_id: String,
    pub workspace_id: String,
    pub revision: u64,
    pub definition: StrategyDefinition,
    pub source_hash: String,
    pub created_at: String,
    pub state_version: String,
}

#[derive(Clone, Debug, PartialEq, Eq)]
pub struct StrategySignal {
    pub instrument_id: String,
    pub direction: StrategyDirection,
    pub desired_exposure: String,
    pub observed_at: String,
    pub strategy_version_id: String,
    pub source_ref: String,
    pub strategy_hash: String,
    pub dataset_id: String,
}

#[derive(Clone, Debug, PartialEq, Eq)]
pub struct StrategyFailure {
    pub code: String,
    pub reason: String,
    pub remediation: Vec<String>,
}

#[derive(Clone, Debug, PartialEq, Eq)]
pub struct StrategyRun {
    pub run_id: String,
    pub workspace_id: String,
    pub strategy_version_id: String,
    pub strategy_hash: String,
    pub instrument_id: String,
    pub dataset_id: String,
    pub start_at: String,
    pub end_at: String,
    pub observed_at: String,
    pub parameters: Vec<StrategyParameter>,
    pub state: StrategyRunState,
    pub signal: Option<StrategySignal>,
    pub failure: Option<StrategyFailure>,
    pub request_hash: String,
    pub fixture_label: Option<String>,
    pub created_at: String,
    pub updated_at: String,
    pub state_version: String,
}

#[derive(Clone, Debug, PartialEq, Eq)]
pub struct StrategyRunSummary {
    pub run_id: String,
    pub strategy_version_id: String,
    pub state: StrategyRunState,
    pub updated_at: String,
    pub failure_code: Option<String>,
}

#[derive(Clone, Debug, PartialEq, Eq)]
pub struct StrategyLibrary {
    pub workspace_id: String,
    pub state_version: String,
    pub versions: Vec<StrategyVersion>,
    pub runs: Vec<StrategyRunSummary>,
}

pub struct StrategySave {
    pub workspace_id: String,
    pub strategy_id: Option<String>,
    pub definition: StrategyDefinition,
}

pub struct StrategyQuery {
    pub workspace_id: String,
    pub strategy_version_id: String,
}

#[derive(Clone, Debug, PartialEq, Eq)]
pub struct StrategyRunQuery {
    pub workspace_id: String,
    pub run_id: String,
}

pub struct StrategyRunRequest {
    pub workspace_id: String,
    pub strategy_version_id: String,
    pub expected_strategy_hash: Option<String>,
    pub instrument_id: String,
    pub dataset_id: String,
    pub start_at: String,
    pub end_at: String,
    pub parameters: Vec<StrategyParameter>,
    pub fixture_scenario: Option<StrategyFixtureScenario>,
}

pub struct StrategyCancel {
    pub workspace_id: String,
    pub run_id: String,
}

#[derive(Clone, Copy, Debug, PartialEq, Eq, Structural)]
pub enum BacktestRunState {
    Queued,
    Running,
    Completed,
    Failed,
    Cancelled,
}

#[derive(Clone, Copy, Debug, PartialEq, Eq, Structural)]
pub enum BacktestFixtureScenario {
    Success,
    Failure,
    Cancelled,
    Lookahead,
    Survivorship,
    Split,
    Dividend,
    Timezone,
    DataGap,
    DatasetHashMismatch,
}

#[derive(Clone, Debug, PartialEq, Eq)]
pub struct BacktestFailure {
    pub code: String,
    pub reason: String,
    pub remediation: Vec<String>,
}

#[derive(Clone, Copy, Debug, PartialEq, Eq, Structural)]
pub enum BacktestGuardState {
    Passed,
}

#[derive(Clone, Debug, PartialEq, Eq)]
pub struct BacktestGuardCheck {
    pub name: String,
    pub state: BacktestGuardState,
    pub detail: String,
}

#[derive(Clone, Debug, PartialEq, Eq)]
pub struct BacktestManifest {
    pub strategy_version: String,
    pub strategy_hash: String,
    pub dataset_id: String,
    pub dataset_hash: String,
    pub data_provider: String,
    pub retrieved_at: String,
    pub start_at: String,
    pub end_at: String,
    pub adjustment_method: String,
    pub timezone: String,
    pub market_calendar_version: String,
    pub commission_model: String,
    pub commission: String,
    pub slippage_model: String,
    pub slippage: String,
    pub starting_cash: String,
    pub seed: String,
    pub parameters: Vec<StrategyParameter>,
    pub engine_version: String,
    pub runtime_version: String,
    pub guard_checks: Vec<BacktestGuardCheck>,
    pub manifest_hash: String,
}

#[derive(Clone, Debug, PartialEq, Eq)]
pub struct BacktestMetrics {
    pub return_pct: String,
    pub sharpe: String,
    pub sortino: String,
    pub max_drawdown: String,
    pub win_rate: String,
    pub profit_factor: String,
    pub turnover: String,
    pub trade_count: u32,
}

#[derive(Clone, Debug, PartialEq, Eq)]
pub struct EquityPoint {
    pub observed_at: String,
    pub equity: String,
    pub drawdown: String,
}

#[derive(Clone, Debug, PartialEq, Eq)]
pub struct TradeRecord {
    pub trade_id: String,
    pub instrument_id: String,
    pub side: String,
    pub quantity: String,
    pub price: String,
    pub gross_value: String,
    pub commission: String,
    pub slippage: String,
    pub realized_pnl: String,
    pub observed_at: String,
}

#[derive(Clone, Debug, PartialEq, Eq)]
pub struct BacktestResult {
    pub metrics: BacktestMetrics,
    pub equity_curve: Vec<EquityPoint>,
    pub trades: Vec<TradeRecord>,
    pub manifest: BacktestManifest,
    pub historical_simulation: bool,
    pub limitations: Vec<String>,
    pub result_hash: String,
}

#[derive(Clone, Debug, PartialEq, Eq)]
pub struct BacktestRun {
    pub run_id: String,
    pub workspace_id: String,
    pub strategy_version_id: String,
    pub strategy_hash: String,
    pub instrument_id: String,
    pub dataset_id: String,
    pub start_at: String,
    pub end_at: String,
    pub bar_interval: String,
    pub starting_cash: String,
    pub commission: String,
    pub slippage: String,
    pub portfolio_seed: Option<String>,
    pub parameters: Vec<StrategyParameter>,
    pub observed_at: String,
    pub state: BacktestRunState,
    pub failure: Option<BacktestFailure>,
    pub result: Option<BacktestResult>,
    pub request_hash: String,
    pub fixture_label: Option<String>,
    pub created_at: String,
    pub updated_at: String,
    pub state_version: String,
}

#[derive(Clone, Debug, PartialEq, Eq)]
pub struct BacktestRunSummary {
    pub run_id: String,
    pub strategy_version_id: String,
    pub strategy_hash: String,
    pub instrument_id: String,
    pub dataset_id: String,
    pub start_at: String,
    pub end_at: String,
    pub bar_interval: String,
    pub state: BacktestRunState,
    pub request_hash: String,
    pub updated_at: String,
    pub result_hash: Option<String>,
    pub trade_count: Option<u32>,
}

#[derive(Clone, Debug, PartialEq, Eq)]
pub struct BacktestLibrary {
    pub workspace_id: String,
    pub state_version: String,
    pub runs: Vec<BacktestRunSummary>,
}

pub struct BacktestCompareRequest {
    pub workspace_id: String,
    pub left_run_id: String,
    pub right_run_id: String,
}

#[derive(Clone, Debug, PartialEq, Eq)]
pub struct BacktestFieldDifference {
    pub field: String,
    pub left: String,
    pub right: String,
}

#[derive(Clone, Debug, PartialEq, Eq)]
pub struct BacktestMetricDelta {
    pub left: String,
    pub right: String,
    pub difference: String,
}

#[derive(Clone, Debug, PartialEq, Eq)]
pub struct BacktestMetricComparison {
    pub return_pct: BacktestMetricDelta,
    pub sharpe: BacktestMetricDelta,
    pub sortino: BacktestMetricDelta,
    pub max_drawdown: BacktestMetricDelta,
    pub win_rate: BacktestMetricDelta,
    pub profit_factor: BacktestMetricDelta,
    pub turnover: BacktestMetricDelta,
    pub trade_count: BacktestMetricDelta,
}

#[derive(Clone, Debug, PartialEq, Eq)]
pub struct BacktestCurveSummary {
    pub point_count: u32,
    pub start_at: String,
    pub end_at: String,
    pub start_equity: String,
    pub end_equity: String,
    pub max_drawdown: String,
}

#[derive(Clone, Debug, PartialEq, Eq)]
pub struct BacktestComparison {
    pub workspace_id: String,
    pub left: Box<BacktestRun>,
    pub right: Box<BacktestRun>,
    pub left_curve: BacktestCurveSummary,
    pub right_curve: BacktestCurveSummary,
    pub input_differences: Vec<BacktestFieldDifference>,
    pub manifest_differences: Vec<BacktestFieldDifference>,
    pub metrics: BacktestMetricComparison,
    pub historical_simulation: bool,
    pub limitations: Vec<String>,
}

pub struct BacktestRunRequest {
    pub workspace_id: String,
    pub strategy_version_id: String,
    pub expected_strategy_hash: Option<String>,
    pub instrument_id: String,
    pub dataset_id: String,
    pub start_at: String,
    pub end_at: String,
    pub bar_interval: String,
    pub starting_cash: String,
    pub commission: String,
    pub slippage: String,
    pub portfolio_seed: Option<String>,
    pub parameters: Vec<StrategyParameter>,
    pub fixture_scenario: Option<BacktestFixtureScenario>,
}

#[derive(Clone, Debug, PartialEq, Eq)]
pub struct BacktestRunQuery {
    pub workspace_id: String,
    pub run_id: String,
}

pub struct BacktestCancel {
    pub workspace_id: String,
    pub run_id: String,
    pub expected_state_version: String,
}

#[derive(Clone, Copy, Debug, PartialEq, Eq, Structural)]
pub enum DataSourceStatus {
    Available,
    Unavailable,
    BlockedExternal,
    Unverified,
}

#[derive(Clone, Copy, Debug, PartialEq, Eq, Structural)]
pub enum DataSourceProbeKind {
    PublicMetadata,
    CredentialedMetadata,
}

#[derive(Clone, Debug, PartialEq, Eq)]
pub struct DataSourceEntry {
    pub source_id: String,
    pub provider: String,
    pub capabilities: Vec<String>,
    pub coverage: String,
    pub latency: String,
    pub entitlement: String,
    pub retention: String,
    pub redistribution: String,
    pub commercial_use: String,
    pub jurisdictions: String,
    pub official_url: String,
    pub terms_url: String,
    pub reviewed_at: String,
    pub checked_at: Option<String>,
    pub observed_at: Option<String>,
    pub probe_kind: DataSourceProbeKind,
    pub status: DataSourceStatus,
    pub configured: bool,
    pub verified_at: Option<String>,
    pub availability_reason: String,
}

#[derive(Clone, Debug, PartialEq, Eq)]
pub struct DataSourceCatalog {
    pub workspace_id: String,
    pub state_version: String,
    pub sources: Vec<DataSourceEntry>,
}

#[derive(Clone, Debug, PartialEq, Eq, Default)]
pub enum MarketTier {
    #[default]    Census,
    Warm,
    Hot,
    Cold,
}

#[derive(Clone, Copy, Debug, PartialEq, Eq, Structural)]
pub enum MarketDataStatus {
    Available,
    Unavailable,
    BlockedExternal,
    Unverified,
}

#[derive(Clone, Copy, Debug, PartialEq, Eq, Structural)]
pub enum MarketSession {
    Open,
    Closed,
    ExtendedHours,
    Halted,
    Maintenance,
    Suspended,
    Degraded,
    Unknown,
}

#[derive(Clone, Copy, Debug, PartialEq, Eq, Structural)]
pub enum AdjustmentStatus {
    Adjusted,
    Unadjusted,
    Unknown,
    Unavailable,
}

#[derive(Clone, Copy, Debug, PartialEq, Eq, Structural)]
pub enum CorporateActionType {
    Split,
    Dividend,
    SymbolChange,
    Delisting,
}

#[derive(Clone, Copy, Debug, PartialEq, Eq, Structural)]
pub enum MarketEntitlement {
    Realtime,
    Delayed,
    Unknown,
}

#[derive(Clone, Copy, Debug, PartialEq, Eq, Structural)]
pub enum MarketFreshness {
    Healthy,
    Stale,
    ClockUncertain,
}

#[derive(Clone, Copy, Debug, PartialEq, Eq, Structural)]
pub enum AssetClass {
    Equity,
    CryptoSpot,
}

#[derive(Clone, Debug, PartialEq, Eq)]
pub struct InstrumentProviderMapping {
    pub provider_id: String,
    pub provider_symbol: String,
}

#[derive(Clone, Debug, PartialEq, Eq)]
pub struct Instrument {
    pub instrument_id: String,
    pub asset_class: AssetClass,
    pub symbol: String,
    pub base: Option<String>,
    pub quote: Option<String>,
    pub exchange: Option<String>,
    pub currency: String,
    pub display_name: String,
    pub providers: Vec<InstrumentProviderMapping>,
}

#[derive(Clone, Debug, PartialEq, Eq)]
pub struct MarketSnapshotProvenance {
    pub market_snapshot_id: String,
    pub source: String,
    pub venue: Option<String>,
    pub provider_timestamp: String,
    pub received_timestamp: String,
    pub entitlement: MarketEntitlement,
    pub freshness: MarketFreshness,
}

#[derive(Clone, Debug, PartialEq, Eq)]
pub struct MarketSnapshot {
    pub instrument_id: String,
    pub provenance: MarketSnapshotProvenance,
    pub last_price: Option<String>,
    pub bid: Option<String>,
    pub ask: Option<String>,
}

#[derive(Clone, Debug, PartialEq, Eq)]
pub struct MarketCatalog {
    pub workspace_id: String,
    pub query: String,
    pub tier: MarketTier,
    pub source_id: Option<String>,
    pub status: MarketDataStatus,
    pub availability_reason: String,
    pub instruments: Vec<Instrument>,
}

#[derive(Clone, Debug, PartialEq, Eq)]
pub struct MarketState {
    pub session: MarketSession,
    pub venue: String,
    pub source_id: Option<String>,
    pub source_status: MarketDataStatus,
    pub next_open: Option<String>,
    pub next_close: Option<String>,
    pub calendar_version: Option<String>,
    pub provider_time: Option<String>,
    pub observed_at: String,
    pub time_confidence: TimeConfidence,
    pub reason: String,
}

#[derive(Clone, Debug, PartialEq, Eq)]
pub struct CorporateAction {
    pub action_id: String,
    pub instrument_id: String,
    pub action_type: CorporateActionType,
    pub effective_at: String,
    pub announced_at: Option<String>,
    pub source_id: Option<String>,
    pub description: String,
    pub adjustment_status: AdjustmentStatus,
}

#[derive(Clone, Debug, PartialEq, Eq)]
pub struct MarketDetail {
    pub workspace_id: String,
    pub instrument: Instrument,
    pub tier: MarketTier,
    pub source_id: Option<String>,
    pub status: MarketDataStatus,
    pub availability_reason: String,
    pub snapshot: Option<MarketSnapshot>,
    pub market_state: MarketState,
    pub corporate_actions: Vec<CorporateAction>,
    pub adjustment_status: AdjustmentStatus,
}

pub struct DataSourceQuery {
    pub workspace_id: String,
}

#[derive(Clone, Debug)]
pub struct DataSourceProbe {
    pub workspace_id: String,
    pub source_id: String,
    pub expected_state_version: String,
}

#[derive(Clone, Debug)]
pub struct MarketCatalogQuery {
    pub workspace_id: String,
    pub query: String,
    pub tier: MarketTier,
}

#[derive(Clone, Debug)]
pub struct MarketGetQuery {
    pub workspace_id: String,
    pub instrument_id: String,
    pub tier: MarketTier,
}

pub struct PortfolioQuery {
    pub workspace_id: String,
}

#[derive(Clone, Copy, Debug, PartialEq, Eq, Structural)]
pub enum PortfolioStatus {
    Available,
    Degraded,
    Unavailable,
    BlockedExternal,
}

#[derive(Clone, Copy, Debug, PartialEq, Eq, Structural)]
pub enum FxFreshness {
    Healthy,
    Stale,
    Unavailable,
}

#[derive(Clone, Copy, Debug, PartialEq, Eq, Structural)]
pub enum FxQuality {
    Verified,
    Degraded,
    Unknown,
    Unavailable,
}

#[derive(Clone, Debug, PartialEq, Eq)]
pub struct FxProvenance {
    pub source_id: String,
    pub pair_path: String,
    pub rate: Option<String>,
    pub provider_timestamp: Option<String>,
    pub received_timestamp: String,
    pub freshness: FxFreshness,
    pub quality: FxQuality,
    pub depeg_warning: Option<String>,
}

#[derive(Clone, Debug, PartialEq, Eq)]
pub struct PortfolioValue {
    pub native_value: Option<String>,
    pub native_currency: Option<String>,
    pub account_value: Option<String>,
    pub account_currency: Option<String>,
    pub workspace_value: Option<String>,
    pub workspace_currency: String,
    pub fx_provenance: Option<FxProvenance>,
}

#[derive(Clone, Debug, PartialEq, Eq)]
pub struct PortfolioHolding {
    pub connection_id: String,
    pub account_label: String,
    pub provider_id: String,
    pub environment: String,
    pub venue: Option<String>,
    pub instrument_id: Option<String>,
    pub asset: String,
    pub quantity: Option<String>,
    pub value: PortfolioValue,
    pub unrealized_pnl: Option<PortfolioValue>,
    pub observed_at: String,
    pub health: AccountHealth,
}

#[derive(Clone, Debug, PartialEq, Eq)]
pub struct PortfolioOrder {
    pub connection_id: String,
    pub account_label: String,
    pub broker_order_id: String,
    pub instrument_id: Option<String>,
    pub asset: String,
    pub side: String,
    pub quantity: Option<String>,
    pub notional: Option<String>,
    pub currency: Option<String>,
    pub status: String,
    pub observed_at: String,
    pub health: AccountHealth,
}

#[derive(Clone, Debug, PartialEq, Eq)]
pub struct PortfolioFill {
    pub connection_id: String,
    pub account_label: String,
    pub fill_id: String,
    pub instrument_id: Option<String>,
    pub asset: String,
    pub quantity: String,
    pub value: PortfolioValue,
    pub observed_at: String,
    pub health: AccountHealth,
}

#[derive(Clone, Debug, PartialEq, Eq)]
pub struct PortfolioAccount {
    pub connection_id: String,
    pub label: String,
    pub provider_id: String,
    pub environment: String,
    pub connection_state: ConnectionState,
    pub health: AccountHealth,
    pub account_currency: Option<String>,
    pub equity: PortfolioValue,
    pub cash: PortfolioValue,
    pub positions_count: u32,
    pub open_orders_count: u32,
    pub fills_count: Option<u32>,
}

#[derive(Clone, Debug, PartialEq, Eq)]
pub struct PortfolioTotals {
    pub equity: PortfolioValue,
    pub cash: PortfolioValue,
    pub unrealized_pnl: PortfolioValue,
    pub realized_pnl: PortfolioValue,
    pub exposure: PortfolioValue,
}

#[derive(Clone, Debug, PartialEq, Eq)]
pub struct PortfolioLiveRisk {
    pub eligible: bool,
    pub reason: String,
}

#[derive(Clone, Debug, PartialEq, Eq)]
pub struct PortfolioSnapshot {
    pub workspace_id: String,
    pub base_currency: String,
    pub observed_at: String,
    pub status: PortfolioStatus,
    pub availability_reason: String,
    pub totals: PortfolioTotals,
    pub accounts: Vec<PortfolioAccount>,
    pub holdings: Vec<PortfolioHolding>,
    pub open_orders: Vec<PortfolioOrder>,
    pub fills: Option<Vec<PortfolioFill>>,
    pub fx_routes: Vec<FxProvenance>,
    pub live_risk: PortfolioLiveRisk,
}

#[derive(Clone, Debug, PartialEq, Eq)]
pub struct WatchlistItem {
    pub instrument_id: String,
}

#[derive(Clone, Debug, PartialEq, Eq)]
pub struct Watchlist {
    pub watchlist_id: String,
    pub workspace_id: String,
    pub name: String,
    pub state_version: String,
    pub items: Vec<WatchlistItem>,
}

#[derive(Clone, Debug, PartialEq, Eq)]
pub struct Watchlists {
    pub workspace_id: String,
    pub state_version: String,
    pub watchlists: Vec<Watchlist>,
}

pub struct WatchlistCreate {
    pub workspace_id: String,
    pub name: String,
}

pub struct WatchlistRename {
    pub workspace_id: String,
    pub watchlist_id: String,
    pub name: String,
    pub expected_state_version: String,
}

pub struct WatchlistDelete {
    pub workspace_id: String,
    pub watchlist_id: String,
    pub expected_state_version: String,
}

pub struct WatchlistInstrumentMutation {
    pub workspace_id: String,
    pub watchlist_id: String,
    pub instrument_id: String,
    pub expected_state_version: String,
}

#[derive(Clone, Debug, PartialEq, Eq)]
pub struct TurnSnapshot {
    pub turn_id: String,
    pub agent_mode: AgentMode,
    pub execution_context: ExecutionContext,
    pub account_id: Option<String>,
    pub account_environment: Option<String>,
    pub capability_level: String,
    pub model: Option<ThreadModel>,
    pub attached_contexts: Vec<ThreadContextRef>,
    pub started_at: String,
}

#[derive(Clone, Debug, PartialEq, Eq)]
pub struct ThreadItem {
    pub item_id: String,
    pub item_type: String,
    pub status: ItemStatus,
    pub content: String,
    pub source_id: Option<String>,
    pub research_result: Option<ResearchToolResult>,
    pub started_at: String,
    pub completed_at: Option<String>,
}

#[derive(Clone, Debug, PartialEq, Eq)]
pub struct ThreadProviderAttempt {
    pub attempt_id: String,
    pub provider: String,
    pub model_id: String,
    pub started_at: String,
    pub ended_at: Option<String>,
    pub outcome: String,
    pub error_code: Option<String>,
}

#[derive(Clone, Debug, PartialEq, Eq)]
pub struct ThreadTurn {
    pub turn_id: String,
    pub status: TurnStatus,
    pub snapshot: TurnSnapshot,
    pub items: Vec<ThreadItem>,
    pub provider_attempts: Vec<ThreadProviderAttempt>,
    pub started_at: String,
    pub completed_at: Option<String>,
    pub cancel_requested_at: Option<String>,
}

#[derive(Clone, Debug, PartialEq, Eq)]
pub struct Thread {
    pub thread_id: String,
    pub workspace_id: String,
    pub codex_thread_id: Option<String>,
    pub title: String,
    pub created_at: String,
    pub updated_at: String,
    pub state_version: String,
    pub default_agent_mode: AgentMode,
    pub default_execution_context: ExecutionContext,
    pub account_id: Option<String>,
    pub model: Option<ThreadModel>,
    pub linked_contexts: Vec<ThreadContextRef>,
    pub status: ThreadStatus,
    pub turns: Vec<ThreadTurn>,
}

#[derive(Clone, Copy, Debug, PartialEq, Eq, Structural)]
pub enum OrderSide {
    Buy,
    Sell,
}

#[derive(Clone, Copy, Debug, PartialEq, Eq, Structural)]
pub enum OrderType {
    Market,
    Limit,
}

#[derive(Clone, Copy, Debug, PartialEq, Eq, Structural)]
pub enum OrderQuantityType {
    Base,
    Quote,
}

#[derive(Clone, Copy, Debug, PartialEq, Eq, Structural)]
pub enum TimeInForce {
    Day,
    Gtc,
    Ioc,
    Fok,
}

#[derive(Clone, Debug, PartialEq, Eq)]
pub struct OrderQuantity {
    pub quantity_type: OrderQuantityType,
    pub value: String,
}

#[derive(Clone, Debug, PartialEq, Eq)]
pub struct OrderDraftFields {
    pub account_id: Option<String>,
    pub venue: String,
    pub environment: ExecutionContext,
    pub instrument_id: String,
    pub side: OrderSide,
    pub order_type: OrderType,
    pub quantity: OrderQuantity,
    pub limit_price: Option<String>,
    pub maximum_spend: Option<String>,
    pub time_in_force: TimeInForce,
    pub client_label: Option<String>,
}

#[derive(Clone, Debug, PartialEq, Eq)]
pub struct OrderDraft {
    pub draft_id: String,
    pub workspace_id: String,
    pub draft_version: u64,
    pub state_version: String,
    pub updated_at: String,
    pub fields: OrderDraftFields,
}

#[derive(Clone, Debug, PartialEq, Eq)]
pub struct OrderDraftSummary {
    pub draft_id: String,
    pub workspace_id: String,
    pub draft_version: u64,
    pub state_version: String,
    pub instrument_id: String,
    pub environment: ExecutionContext,
    pub updated_at: String,
}

#[derive(Clone, Debug, PartialEq, Eq)]
pub struct OrderDraftLibrary {
    pub workspace_id: String,
    pub state_version: String,
    pub drafts: Vec<OrderDraftSummary>,
}

pub struct OrderDraftSave {
    pub workspace_id: String,
    pub draft_id: Option<String>,
    pub expected_state_version: Option<String>,
    pub fields: OrderDraftFields,
}

pub struct OrderDraftQuery {
    pub workspace_id: String,
    pub draft_id: String,
}

#[derive(Clone, Copy, Debug, PartialEq, Eq, Structural)]
pub enum OrderProposalStatus {
    NeedsApproval,
    Consumed,
    Invalidated,
}

#[derive(Clone, Copy, Debug, PartialEq, Eq, Structural)]
pub enum ProposalReferenceStatus {
    Available,
    Unconfigured,
    Unavailable,
}

#[derive(Clone, Copy, Debug, PartialEq, Eq, Structural)]
pub enum OrderProposalHistoryEvent {
    Generated,
    DraftChanged,
    Refreshed,
    PolicyChanged,
    Consumed,
}

#[derive(Clone, Copy, Debug, PartialEq, Eq, Structural)]
pub enum OrderProposalRefreshStatus {
    Refreshed,
    Stale,
    Blocked,
    Unavailable,
}

#[derive(Clone, Debug, PartialEq, Eq)]
pub struct OrderProposalHistoryEntry {
    pub event: OrderProposalHistoryEvent,
    pub reason: Option<String>,
    pub occurred_at: String,
}

#[derive(Clone, Debug, PartialEq, Eq)]
pub struct OrderProposal {
    pub proposal_id: String,
    pub workspace_id: String,
    pub draft_id: String,
    pub draft_version: u64,
    pub proposal_hash: String,
    pub fields: OrderDraftFields,
    pub estimated_notional: Option<String>,
    pub estimated_notional_currency: Option<String>,
    pub estimated_notional_reason: Option<String>,
    pub policy_version: Option<u64>,
    pub policy_state_version: Option<String>,
    pub policy_status: ProposalReferenceStatus,
    pub policy_reference_reason: String,
    pub market_snapshot_id: Option<String>,
    pub market_status: MarketDataStatus,
    pub market_reference_reason: String,
    pub status: OrderProposalStatus,
    pub invalidation_reason: Option<String>,
    pub created_at: String,
    pub state_version: String,
    pub history: Vec<OrderProposalHistoryEntry>,
}

#[derive(Clone, Debug, PartialEq, Eq)]
pub struct OrderProposalSummary {
    pub proposal_id: String,
    pub workspace_id: String,
    pub draft_id: String,
    pub draft_version: u64,
    pub proposal_hash: String,
    pub status: OrderProposalStatus,
    pub invalidation_reason: Option<String>,
    pub created_at: String,
    pub state_version: String,
}

#[derive(Clone, Debug, PartialEq, Eq)]
pub struct OrderProposalLibrary {
    pub workspace_id: String,
    pub state_version: String,
    pub proposals: Vec<OrderProposalSummary>,
}

pub struct OrderProposalGenerate {
    pub workspace_id: String,
    pub draft_id: String,
    pub expected_draft_version: u64,
}

pub struct OrderProposalQuery {
    pub workspace_id: String,
    pub proposal_id: String,
}

pub struct OrderProposalRefresh {
    pub workspace_id: String,
    pub proposal_id: String,
    pub expected_state_version: String,
}

#[derive(Clone, Debug, PartialEq, Eq)]
pub struct OrderProposalRefreshResult {
    pub previous_proposal: Box<OrderProposal>,
    pub proposal: Box<OrderProposal>,
    pub refresh_status: OrderProposalRefreshStatus,
    pub invalidation_reason: String,
}

#[derive(Clone, Copy, Debug, PartialEq, Eq, Structural)]
pub enum Trading212DemoOrderAttemptState {
    Submitting,
    Acknowledged,
    UnknownReconciling,
    Rejected,
}

#[derive(Clone, Debug, PartialEq, Eq)]
pub struct Trading212DemoOrderAttempt {
    pub attempt_id: String,
    pub workspace_id: String,
    pub connection_id: String,
    pub remote_account_id: String,
    pub proposal_id: String,
    pub proposal_hash: String,
    pub state: Trading212DemoOrderAttemptState,
    pub provider_order_id: Option<String>,
    pub provider_status: Option<String>,
    pub error_code: Option<String>,
    pub reason: String,
    pub state_version: String,
    pub created_at: String,
    pub updated_at: String,
}

pub struct Trading212DemoOrderSubmit {
    pub workspace_id: String,
    pub connection_id: String,
    pub expected_connection_state_version: String,
    pub proposal_id: String,
    pub expected_proposal_state_version: String,
    pub proposal_hash: String,
    pub idempotency_key: String,
    pub confirmed_demo_order: bool,
}

pub struct Trading212DemoOrderAttemptQuery {
    pub workspace_id: String,
    pub proposal_id: String,
}

#[derive(Clone, Debug, PartialEq, Eq)]
pub struct Trading212DemoOrderAttemptQueryResult {
    pub attempt: Option<Trading212DemoOrderAttempt>,
}

#[derive(Clone, Copy, Debug, PartialEq, Eq, Structural)]
pub enum Trading212DemoOrderBookStatus {
    NeverSynced,
    Current,
    Degraded,
    Stale,
}

#[derive(Clone, Copy, Debug, PartialEq, Eq, Structural)]
pub enum Trading212DemoOrderOrigin {
    TradeX,
    External,
}

#[derive(Clone, Copy, Debug, PartialEq, Eq, Structural)]
pub enum Trading212DemoNormalizedOrderStatus {
    Local,
    Pending,
    Open,
    CancelPending,
    Cancelled,
    PartiallyFilled,
    Filled,
    Rejected,
    Replacing,
    Replaced,
    Expired,
}

#[derive(Clone, Copy, Debug, PartialEq, Eq, Default)]
pub enum Trading212DemoCancelState {
    #[default]
    NotRequested,
    Submitting,
    Pending,
}

#[derive(Clone, Copy, Debug, PartialEq, Eq, Structural)]
pub enum Trading212DemoOrderBookAction {
    Pending,
    History,
    Detail,
}

#[derive(Clone, Debug, PartialEq, Eq)]
pub struct Trading212DemoRateLimits {
    pub pending_orders_retry_at: Option<String>,
    pub order_detail_retry_at: Option<String>,
    pub history_retry_at: Option<String>,
    pub cancel_order_retry_at: Option<String>,
}

#[derive(Clone, Debug, PartialEq, Eq)]
pub struct Trading212DemoOrder {
    pub provider_order_id: String,
    pub symbol: String,
    pub side: String,
    pub order_type: String,
    pub time_in_force: String,
    pub provider_status: String,
    pub normalized_status: Trading212DemoNormalizedOrderStatus,
    pub pending: bool,
    pub quantity: Option<String>,
    pub filled_quantity: Option<String>,
    pub filled_value: Option<String>,
    pub currency: Option<String>,
    pub remaining_quantity: Option<String>,
    pub submitted_at: String,
    pub provider_updated_at: Option<String>,
    pub observed_at: String,
    pub origin: Trading212DemoOrderOrigin,
    pub cancel_state: Trading212DemoCancelState,
    pub cancel_idempotency_key: Option<String>,
    pub cancel_error: Option<String>,
    pub attempt_id: Option<String>,
}

#[derive(Clone, Debug, PartialEq, Eq)]
pub struct Trading212DemoOrderBook {
    pub workspace_id: String,
    pub connection_id: String,
    pub remote_account_id: String,
    pub environment: String,
    pub status: Trading212DemoOrderBookStatus,
    pub state_version: String,
    pub last_successful_sync_at: Option<String>,
    pub observed_at: String,
    pub reason: Option<String>,
    pub history_started: bool,
    pub history_complete: bool,
    pub history_page_count: u32,
    pub next_page_path: Option<String>,
    pub history_cursors: Vec<String>,
    pub rate_limits: Trading212DemoRateLimits,
    pub orders: Vec<Trading212DemoOrder>,
}

pub struct Trading212DemoOrderBookQuery {
    pub workspace_id: String,
    pub connection_id: String,
}

#[derive(Clone, Debug, PartialEq, Eq)]
pub struct Trading212DemoOrderBookQueryResult {
    pub book: Option<Trading212DemoOrderBook>,
}

pub struct Trading212DemoOrderBookRefresh {
    pub workspace_id: String,
    pub connection_id: String,
    pub expected_connection_state_version: String,
    pub action: Trading212DemoOrderBookAction,
    pub provider_order_id: Option<String>,
}

pub struct Trading212DemoOrderCancel {
    pub workspace_id: String,
    pub connection_id: String,
    pub expected_connection_state_version: String,
    pub provider_order_id: String,
    pub expected_book_state_version: String,
    pub idempotency_key: String,
    pub confirmed: bool,
}

#[derive(Clone, Copy, Debug, PartialEq, Eq, Structural)]
pub enum AlpacaPaperOrderAttemptState {
    Submitting,
    Acknowledged,
    UnknownReconciling,
    Rejected,
}

#[derive(Clone, Debug, PartialEq, Eq)]
pub struct AlpacaPaperOrderAttempt {
    pub attempt_id: String,
    pub workspace_id: String,
    pub connection_id: String,
    pub remote_account_id: String,
    pub proposal_id: String,
    pub proposal_hash: String,
    pub client_order_id: String,
    pub state: AlpacaPaperOrderAttemptState,
    pub provider_order_id: Option<String>,
    pub provider_status: Option<String>,
    pub error_code: Option<String>,
    pub reason: String,
    pub state_version: String,
    pub created_at: String,
    pub updated_at: String,
}

pub struct AlpacaPaperOrderSubmit {
    pub workspace_id: String,
    pub connection_id: String,
    pub expected_connection_state_version: String,
    pub proposal_id: String,
    pub expected_proposal_state_version: String,
    pub proposal_hash: String,
    pub idempotency_key: String,
    pub confirmed_paper_order: bool,
}

pub struct AlpacaPaperOrderAttemptQuery {
    pub workspace_id: String,
    pub proposal_id: String,
}

#[derive(Clone, Debug, PartialEq, Eq)]
pub struct AlpacaPaperOrderAttemptQueryResult {
    pub attempt: Option<AlpacaPaperOrderAttempt>,
}

#[derive(Clone, Copy, Debug, PartialEq, Eq, Structural)]
pub enum BinanceTestnetOrderAttemptState {
    Submitting,
    Acknowledged,
    UnknownReconciling,
    Rejected,
}

#[derive(Clone, Debug, PartialEq, Eq)]
pub struct BinanceTestnetOrderAttempt {
    pub attempt_id: String,
    pub workspace_id: String,
    pub connection_id: String,
    pub remote_account_id: String,
    pub proposal_id: String,
    pub proposal_hash: String,
    pub environment: String,
    pub client_order_id: String,
    pub state: BinanceTestnetOrderAttemptState,
    pub provider_order_id: Option<String>,
    pub provider_status: Option<String>,
    pub error_code: Option<String>,
    pub reason: String,
    pub state_version: String,
    pub created_at: String,
    pub updated_at: String,
}

pub struct BinanceTestnetOrderSubmit {
    pub workspace_id: String,
    pub connection_id: String,
    pub expected_connection_state_version: String,
    pub proposal_id: String,
    pub expected_proposal_state_version: String,
    pub proposal_hash: String,
    pub idempotency_key: String,
    pub confirmed_testnet_order: bool,
}

pub struct BinanceTestnetOrderAttemptQuery {
    pub workspace_id: String,
    pub proposal_id: String,
}

#[derive(Clone, Debug, PartialEq, Eq)]
pub struct BinanceTestnetOrderAttemptQueryResult {
    pub attempt: Option<BinanceTestnetOrderAttempt>,
}

pub struct BinanceTestnetOrderReconcile {
    pub workspace_id: String,
    pub connection_id: String,
    pub expected_connection_state_version: String,
    pub proposal_id: String,
}

#[derive(Clone, Copy, Debug, PartialEq, Eq, Structural)]
pub enum BitgetDemoOrderAttemptState {
    Submitting,
    Acknowledged,
    UnknownReconciling,
    Rejected,
}

#[derive(Clone, Debug, PartialEq, Eq)]
pub struct BitgetDemoOrderAttempt {
    pub attempt_id: String,
    pub workspace_id: String,
    pub connection_id: String,
    pub remote_account_id: String,
    pub proposal_id: String,
    pub proposal_hash: String,
    pub environment: String,
    pub client_oid: String,
    pub state: BitgetDemoOrderAttemptState,
    pub provider_order_id: Option<String>,
    pub provider_status: Option<String>,
    pub error_code: Option<String>,
    pub reason: String,
    pub state_version: String,
    pub created_at: String,
    pub updated_at: String,
}

pub struct BitgetDemoOrderSubmit {
    pub workspace_id: String,
    pub connection_id: String,
    pub expected_connection_state_version: String,
    pub proposal_id: String,
    pub expected_proposal_state_version: String,
    pub proposal_hash: String,
    pub idempotency_key: String,
    pub confirmed_demo_order: bool,
}

pub struct BitgetDemoOrderAttemptQuery {
    pub workspace_id: String,
    pub proposal_id: String,
}

#[derive(Clone, Debug, PartialEq, Eq)]
pub struct BitgetDemoOrderAttemptQueryResult {
    pub attempt: Option<BitgetDemoOrderAttempt>,
}

pub struct BitgetDemoOrderReconcile {
    pub workspace_id: String,
    pub connection_id: String,
    pub expected_connection_state_version: String,
    pub proposal_id: String,
}

#[derive(Clone, Copy, Debug, PartialEq, Eq, Structural)]
pub enum BinanceTestnetOrderBookStatus {
    NeverSynced,
    Current,
    Degraded,
    Stale,
}

#[derive(Clone, Copy, Debug, PartialEq, Eq, Structural)]
pub enum BinanceTestnetOrderOrigin {
    TradeX,
    External,
}

#[derive(Clone, Copy, Debug, PartialEq, Eq, Default)]
pub enum BinanceTestnetOrderCancelState {
    #[default]
    NotRequested,
    Submitting,
    Pending,
}

#[derive(Clone, Copy, Debug, PartialEq, Eq, Structural)]
pub enum BinanceTestnetOrderBookAction {
    Pending,
    Account,
    History,
    Detail,
}

#[derive(Clone, Debug, PartialEq, Eq)]
pub struct BinanceTestnetOrder {
    pub provider_order_id: String,
    pub symbol: String,
    pub client_order_id: String,
    pub side: String,
    pub order_type: String,
    pub time_in_force: String,
    pub provider_status: String,
    pub price: Option<String>,
    pub quantity: Option<String>,
    pub quote_quantity: Option<String>,
    pub filled_quantity: String,
    pub filled_quote_quantity: Option<String>,
    pub remaining_quantity: Option<String>,
    pub submitted_at_ms: u64,
    pub provider_updated_at_ms: u64,
    pub observed_at: String,
    pub pending: bool,
    pub origin: BinanceTestnetOrderOrigin,
    pub cancel_state: BinanceTestnetOrderCancelState,
    pub cancel_idempotency_key: Option<String>,
    pub cancel_error: Option<String>,
    pub attempt_id: Option<String>,
}

#[derive(Clone, Debug, PartialEq, Eq)]
pub struct BinanceTestnetFill {
    pub trade_id: String,
    pub provider_order_id: String,
    pub symbol: String,
    pub side: String,
    pub price: String,
    pub quantity: String,
    pub quote_quantity: String,
    pub commission: String,
    pub commission_asset: String,
    pub executed_at_ms: u64,
    pub observed_at: String,
}

#[derive(Clone, Debug, PartialEq, Eq)]
pub struct BinanceTestnetBalance {
    pub asset: String,
    pub free: String,
    pub locked: String,
    pub total: String,
}

#[derive(Clone, Debug, PartialEq, Eq)]
pub struct BinanceTestnetHistoryState {
    pub symbol: String,
    pub started: bool,
    pub complete: bool,
    pub page_count: u64,
    pub last_observed_at: Option<String>,
    pub next_order_id: Option<String>,
    pub next_trade_id: Option<String>,
}

#[derive(Clone, Debug, PartialEq, Eq)]
pub struct BinanceTestnetOrderBookRateLimits {
    pub pending_orders_retry_at: Option<String>,
    pub account_retry_at: Option<String>,
    pub history_retry_at: Option<String>,
    pub order_detail_retry_at: Option<String>,
}

#[derive(Clone, Debug, PartialEq, Eq)]
pub struct BinanceTestnetOrderBook {
    pub workspace_id: String,
    pub connection_id: String,
    pub remote_account_id: String,
    pub environment: String,
    pub status: BinanceTestnetOrderBookStatus,
    pub state_version: String,
    pub last_successful_sync_at: Option<String>,
    pub pending_orders_observed_at: Option<String>,
    pub balances_observed_at: Option<String>,
    pub private_stream_balance_update_at_ms: Option<u64>,
    pub observed_at: String,
    pub reason: Option<String>,
    pub rate_limits: BinanceTestnetOrderBookRateLimits,
    pub history: Vec<BinanceTestnetHistoryState>,
    pub orders: Vec<BinanceTestnetOrder>,
    pub fills: Vec<BinanceTestnetFill>,
    pub balances: Vec<BinanceTestnetBalance>,
}

pub struct BinanceTestnetOrderBookQuery {
    pub workspace_id: String,
    pub connection_id: String,
}

#[derive(Clone, Debug, PartialEq, Eq)]
pub struct BinanceTestnetOrderBookQueryResult {
    pub book: Option<BinanceTestnetOrderBook>,
}

pub struct BinanceTestnetOrderBookRefresh {
    pub workspace_id: String,
    pub connection_id: String,
    pub expected_connection_state_version: String,
    pub action: BinanceTestnetOrderBookAction,
    pub symbol: Option<String>,
    pub provider_order_id: Option<String>,
}

pub struct BinanceTestnetOrderCancel {
    pub workspace_id: String,
    pub connection_id: String,
    pub expected_connection_state_version: String,
    pub symbol: String,
    pub provider_order_id: String,
    pub expected_book_state_version: String,
    pub idempotency_key: String,
    pub confirmed: bool,
}

pub struct AlpacaPaperOrderReconcile {
    pub workspace_id: String,
    pub connection_id: String,
    pub expected_connection_state_version: String,
    pub proposal_id: String,
}

#[derive(Clone, Copy, Debug, PartialEq, Eq, Structural)]
pub enum AlpacaPaperOrderBookStatus {
    NeverSynced,
    Current,
    Degraded,
    Stale,
}

#[derive(Clone, Copy, Debug, PartialEq, Eq, Structural)]
pub enum AlpacaPaperOrderOrigin {
    TradeX,
    External,
}

#[derive(Clone, Copy, Debug, PartialEq, Eq, Structural)]
pub enum AlpacaPaperCancelState {
    NotRequested,
    Submitting,
    Pending,
}

#[derive(Clone, Debug, PartialEq, Eq)]
pub struct AlpacaPaperOrder {
    pub provider_order_id: String,
    pub client_order_id: String,
    pub symbol: String,
    pub instrument_id: Option<String>,
    pub side: String,
    pub order_type: String,
    pub time_in_force: String,
    pub provider_status: String,
    pub quantity: Option<String>,
    pub filled_quantity: String,
    pub remaining_quantity: Option<String>,
    pub submitted_at: String,
    pub provider_updated_at: Option<String>,
    pub observed_at: String,
    pub origin: AlpacaPaperOrderOrigin,
    pub cancel_state: AlpacaPaperCancelState,
    pub cancel_idempotency_key: Option<String>,
    pub cancel_error: Option<String>,
}

#[derive(Clone, Debug, PartialEq, Eq)]
pub struct AlpacaPaperFill {
    pub activity_id: String,
    pub provider_order_id: String,
    pub symbol: String,
    pub instrument_id: Option<String>,
    pub side: String,
    pub quantity: String,
    pub price: String,
    pub source: AlpacaPaperFillSource,
    pub executed_at: String,
    pub observed_at: String,
}

#[derive(Clone, Copy, Debug, PartialEq, Eq, Structural)]
pub enum AlpacaPaperFillSource {
    RestActivity,
    TradeUpdate,
}

#[derive(Clone, Debug, PartialEq, Eq)]
pub struct AlpacaPaperOrderBook {
    pub workspace_id: String,
    pub connection_id: String,
    pub remote_account_id: String,
    pub status: AlpacaPaperOrderBookStatus,
    pub state_version: String,
    pub last_successful_sync_at: Option<String>,
    pub observed_at: String,
    pub reason: Option<String>,
    pub orders: Vec<AlpacaPaperOrder>,
    pub fills: Vec<AlpacaPaperFill>,
}

pub struct AlpacaPaperOrderBookQuery {
    pub workspace_id: String,
    pub connection_id: String,
}

#[derive(Clone, Debug, PartialEq, Eq)]
pub struct AlpacaPaperOrderBookQueryResult {
    pub book: Option<AlpacaPaperOrderBook>,
}

pub struct AlpacaPaperOrderBookRefresh {
    pub workspace_id: String,
    pub connection_id: String,
    pub expected_connection_state_version: String,
}

pub struct AlpacaPaperOrderReview {
    pub workspace_id: String,
    pub connection_id: String,
    pub expected_connection_state_version: String,
    pub provider_order_id: String,
}

pub struct AlpacaPaperOrderCancel {
    pub workspace_id: String,
    pub connection_id: String,
    pub expected_connection_state_version: String,
    pub provider_order_id: String,
    pub expected_book_state_version: String,
    pub idempotency_key: String,
    pub confirmed: bool,
}

#[derive(Clone, Copy, Debug, PartialEq, Eq, Structural)]
pub enum ArtifactKind {
    Research,
    Decision,
}

#[derive(Clone, Debug, PartialEq, Eq)]
pub struct ArtifactContent {
    pub text: String,
    pub research_result: Option<ResearchToolResult>,
}

#[derive(Clone, Debug, PartialEq, Eq)]
pub struct ArtifactProvenance {
    pub workspace_id: String,
    pub thread_id: String,
    pub turn_id: String,
    pub item_id: String,
    pub turn_snapshot: TurnSnapshot,
    pub provider_attempts: Vec<ThreadProviderAttempt>,
    pub research_tool_id: Option<ResearchToolId>,
    pub research_result_id: Option<String>,
    pub sources: Vec<ResearchProvenance>,
    pub market_snapshot_hashes: Vec<String>,
    pub dataset_hashes: Vec<String>,
    pub related_order_ids: Vec<String>,
}

#[derive(Clone, Debug, PartialEq, Eq)]
pub struct Artifact {
    pub artifact_id: String,
    pub workspace_id: String,
    pub kind: ArtifactKind,
    pub title: String,
    pub version: u32,
    pub content_hash: String,
    pub state_version: String,
    pub created_at: String,
    pub updated_at: String,
    pub content: ArtifactContent,
    pub provenance: ArtifactProvenance,
}

#[derive(Clone, Debug, PartialEq, Eq)]
pub struct ArtifactSummary {
    pub artifact_id: String,
    pub workspace_id: String,
    pub kind: ArtifactKind,
    pub title: String,
    pub content_hash: String,
    pub state_version: String,
    pub created_at: String,
    pub updated_at: String,
    pub thread_id: String,
    pub turn_id: String,
    pub item_id: String,
}

#[derive(Clone, Debug, PartialEq, Eq)]
pub struct ArtifactLibrary {
    pub workspace_id: String,
    pub state_version: String,
    pub artifacts: Vec<ArtifactSummary>,
}

pub struct ArtifactSave {
    pub workspace_id: String,
    pub thread_id: String,
    pub turn_id: String,
    pub item_id: String,
    pub kind: ArtifactKind,
    pub title: String,
}

pub struct ArtifactQuery {
    pub workspace_id: String,
    pub artifact_id: String,
}

pub struct ArtifactExport {
    pub workspace_id: String,
    pub artifact_id: String,
    pub file_name: Option<String>,
    pub destination_path: Option<String>,
}

#[derive(Clone, Debug, PartialEq, Eq)]
pub struct ArtifactExportResult {
    pub artifact_id: String,
    pub path: String,
    pub content_hash: String,
    pub manifest_hash: String,
    pub bytes: u64,
}

#[derive(Clone, Debug, PartialEq, Eq)]
pub struct ThreadSummary {
    pub thread_id: String,
    pub workspace_id: String,
    pub title: String,
    pub updated_at: String,
    pub default_agent_mode: AgentMode,
    pub default_execution_context: ExecutionContext,
    pub status: ThreadStatus,
}

#[derive(Clone, Debug, PartialEq, Eq)]
pub struct ThreadList {
    pub threads: Vec<ThreadSummary>,
}

pub struct ThreadCreate {
    pub workspace_id: String,
    pub expected_state_version: Option<String>,
    pub title: String,
    pub default_agent_mode: AgentMode,
    pub default_execution_context: ExecutionContext,
    pub account_id: Option<String>,
    pub model: Option<ThreadModel>,
    pub linked_contexts: Vec<ThreadContextRef>,
}

pub struct ThreadQuery {
    pub workspace_id: String,
    pub thread_id: String,
}

pub struct TurnStart {
    pub workspace_id: String,
    pub thread_id: String,
    pub expected_state_version: String,
    pub message: String,
    pub agent_mode: AgentMode,
    pub execution_context: ExecutionContext,
    pub account_id: Option<String>,
    pub model: Option<ThreadModel>,
    pub attached_contexts: Option<Vec<ThreadContextRef>>,
    pub research_invocation: Option<ResearchToolInvocation>,
    pub research_result: Option<ResearchToolResult>,
}

pub struct TurnCancel {
    pub workspace_id: String,
    pub thread_id: String,
    pub turn_id: String,
    pub expected_state_version: String,
}

pub struct TurnRetry {
    pub workspace_id: String,
    pub thread_id: String,
    pub turn_id: String,
    pub expected_state_version: String,
}

#[derive(Clone)]
pub struct DomainEvent {
    pub event_id: String,
    pub event_type: String,
    pub schema_version: u32,
    pub occurred_at: String,
    pub aggregate_type: String,
    pub aggregate_id: String,
    pub sequence: u64,
    pub payload: DomainProjection,
}

pub struct Snapshot {
    pub aggregate_type: String,
    pub aggregate_id: String,
    pub projection: DomainProjection,
    pub last_sequence: u64,
}

#[derive(Clone, Debug, PartialEq, Eq)]
pub struct Remediation {
    pub id: String,
    pub label: String,
}

#[derive(Clone, Debug, PartialEq, Eq)]
pub struct LocalPaperMoney {
    pub value: String,
    pub currency: String,
}

#[derive(Clone, Debug, PartialEq, Eq)]
pub struct LocalPaperProfile {
    pub base_currency: String,
    pub starting_cash: String,
    pub quote_source: String,
    pub scenario_id: String,
    pub engine_version: String,
    pub scenario_seed: String,
    pub scenario_version: String,
    pub fee_policy: String,
    pub slippage_policy: String,
    pub fill_policy: String,
    pub quote_price: Option<String>,
    pub quote_freshness: Option<String>,
    pub quote_observed_at: Option<String>,
}

#[derive(Clone, Debug, PartialEq, Eq)]
pub struct LocalPaperQuote {
    pub quote_id: String,
    pub instrument_id: String,
    pub price: String,
    pub currency: String,
    pub observed_at: String,
    pub scenario_id: String,
    pub source: String,
    pub freshness: String,
}

#[derive(Clone, Copy, Debug, PartialEq, Eq, Structural)]
pub enum LocalPaperOrderState {
    Proposed,
    Accepted,
    PartiallyFilled,
    Filled,
    Rejected,
    CancelPending,
    Cancelled,
}

#[derive(Clone, Debug, PartialEq, Eq)]
pub struct LocalPaperBalance {
    pub asset: String,
    pub available: String,
    pub total: String,
    pub reserved: String,
}

#[derive(Clone, Debug, PartialEq, Eq)]
pub struct LocalPaperPosition {
    pub instrument_id: String,
    pub quantity: String,
    pub average_entry_price: String,
    pub market_value: Option<String>,
    pub currency: String,
    pub unrealized_pnl: Option<String>,
}

#[derive(Clone, Debug, PartialEq, Eq)]
pub struct LocalPaperOrder {
    pub order_id: String,
    pub proposal_id: String,
    pub proposal_hash: String,
    pub instrument_id: String,
    pub side: OrderSide,
    pub order_type: OrderType,
    pub state: LocalPaperOrderState,
    pub requested_quantity: String,
    pub filled_quantity: String,
    pub remaining_quantity: String,
    pub quantity_type: Option<OrderQuantityType>,
    pub time_in_force: Option<TimeInForce>,
    pub limit_price: Option<String>,
    pub average_fill_price: Option<String>,
    pub quote: Option<LocalPaperQuote>,
    pub idempotency_key: Option<String>,
    pub cancel_idempotency_key: Option<String>,
    pub event_sequence: Option<u64>,
    pub created_at: String,
    pub updated_at: String,
}

#[derive(Clone, Debug, PartialEq, Eq)]
pub struct LocalPaperFill {
    pub fill_id: String,
    pub order_id: String,
    pub instrument_id: String,
    pub side: OrderSide,
    pub quantity: String,
    pub price: String,
    pub value: String,
    pub currency: String,
    pub observed_at: String,
}

#[derive(Clone, Copy, Debug, PartialEq, Eq, Structural)]
pub enum LocalPaperEventKind {
    Accepted,
    PartiallyFilled,
    Filled,
    Rejected,
    Cancelled,
    ScenarioChanged,
    QuoteRefreshed,
}

#[derive(Clone, Debug, PartialEq, Eq)]
pub struct LocalPaperEvent {
    pub event_id: String,
    pub sequence: u64,
    pub kind: LocalPaperEventKind,
    pub order_id: String,
    pub fill_id: Option<String>,
    pub occurred_at: String,
    pub state_version: String,
}

#[derive(Clone, Debug, PartialEq, Eq)]
pub struct LocalPaperState {
    pub workspace_id: String,
    pub account_id: String,
    pub provider_id: String,
    pub environment: String,
    pub account_label: String,
    pub profile: LocalPaperProfile,
    pub cash: LocalPaperMoney,
    pub reserved_cash: LocalPaperMoney,
    pub equity: LocalPaperMoney,
    pub realized_pnl: LocalPaperMoney,
    pub unrealized_pnl: LocalPaperMoney,
    pub exposure: LocalPaperMoney,
    pub balances: Vec<LocalPaperBalance>,
    pub orders: Vec<LocalPaperOrder>,
    pub positions: Vec<LocalPaperPosition>,
    pub open_orders: Vec<LocalPaperOrder>,
    pub fills: Vec<LocalPaperFill>,
    pub events: Vec<LocalPaperEvent>,
    pub event_cursor: u64,
    pub state_version: String,
    pub updated_at: String,
    pub disclosure: String,
}

pub struct PaperOrderSubmit {
    pub workspace_id: String,
    pub proposal_id: String,
    pub expected_proposal_state_version: String,
    pub idempotency_key: String,
}

pub struct PaperOrderCancel {
    pub workspace_id: String,
    pub order_id: String,
    pub expected_state_version: String,
    pub idempotency_key: String,
}

pub struct PaperQuoteRefresh {
    pub workspace_id: String,
    pub expected_state_version: String,
}

pub struct PaperScenarioSet {
    pub workspace_id: String,
    pub expected_state_version: String,
    pub profile: LocalPaperProfile,
}

#[derive(Clone, Debug, PartialEq, Eq)]
pub struct PaperOrderResult {
    pub workspace_id: String,
    pub account_id: String,
    pub environment: String,
    pub proposal_id: String,
    pub proposal_hash: String,
    pub order: LocalPaperOrder,
    pub fill: Option<LocalPaperFill>,
    pub quote: LocalPaperQuote,
    pub proposal_state_version: String,
    pub state_version: String,
    pub event_sequence: u64,
    pub disclosure: String,
    pub paper_state: Box<LocalPaperState>,
}

/// A safe, user-facing error: what went wrong, whether it may be retried and
/// how the user can recover.
#[derive(Clone, Debug)]
pub struct TradeXError {
    pub category: String,
    pub code: String,
    pub message: String,
    pub retryable: bool,
    pub blocking: bool,
    pub field: Option<String>,
    pub remediation_actions: Vec<Remediation>,
}

/// `e` is the catalogue error for `code`, without a field.
pub open spec fn is_catalog_error(e: TradeXError, code: Seq<char>) -> bool {
    &&& e.code@ == code
    &&& e.category@ == category_of(code)
    &&& e.message@ == catalog_text(code).0
    &&& e.retryable == retryable_code(code)
    &&& e.blocking
    &&& e.field is None
    &&& e.remediation_actions@.len() == 1
    &&& e.remediation_actions@[0].id@ == catalog_text(code).1
    &&& e.remediation_actions@[0].label@ == catalog_text(code).2
}

/// The error code of a failed result, if it failed.
pub open spec fn error_code<T>(r: Result<T>) -> Option<Seq<char>> {
    match r {
        Ok(_) => None,
        Err(e) => Some(e.code@),
    }
}

impl TradeXError {
    /// The catalogue error for `code`: its category, message, retry flag and
    /// single remediation action; blocking, with no field.
    pub fn new(code: &str) -> (e: Self)
        ensures
            is_catalog_error(e, code@),
    {
        let (message, action, label) = catalog_lookup(code);
        let mut actions: Vec<Remediation> = Vec::new();
        actions.push(Remediation { id: owned(action), label: owned(label) });
        TradeXError {
            category: error_category(code),
            code: owned(code),
            message: owned(message),
            retryable: error_retryable(code),
            blocking: true,
            remediation_actions: actions,
            field: None,
        }
    }

    /// The same error, naming the request field it concerns.
    pub fn with_field(self, field: &str) -> (e: Self)
        ensures
            e.category == self.category,
            e.code == self.code,
            e.message == self.message,
            e.retryable == self.retryable,
            e.blocking == self.blocking,
            e.remediation_actions == self.remediation_actions,
            e.field matches Some(f) && f@ == field@,
    {
        let mut e = self;
        e.field = Some(owned(field));
        e
    }
}

/// The state of one aggregate as projected onto the event stream.
#[derive(Clone)]
pub enum DomainProjection {
    Workspace(Workspace),
    Account(Box<AccountConnection>),
    Risk(Box<RiskPolicyState>),
    RiskDecision(Box<RiskDecision>),
    Thread(Box<Thread>),
    Trading212DemoOrderAttempt(Box<Trading212DemoOrderAttempt>),
    AlpacaPaperOrderAttempt(Box<AlpacaPaperOrderAttempt>),
    AlpacaPaperOrderBook(Box<AlpacaPaperOrderBook>),
    BinanceTestnetOrderAttempt(Box<BinanceTestnetOrderAttempt>),
    BitgetDemoOrderAttempt(Box<BitgetDemoOrderAttempt>),
    Trading212DemoOrderBook(Box<Trading212DemoOrderBook>),
    BinanceTestnetOrderBook(Box<BinanceTestnetOrderBook>),
}

/// The identifier of the aggregate a projection belongs to.
pub open spec fn projection_id(p: DomainProjection) -> Seq<char> {
    match p {
        DomainProjection::Workspace(w) => w.workspace_id@,
        DomainProjection::Account(a) => a.connection_id@,
        DomainProjection::Risk(r) => r.workspace_id@,
        DomainProjection::RiskDecision(d) => d.proposal_id@,
        DomainProjection::Thread(t) => t.thread_id@,
        DomainProjection::Trading212DemoOrderAttempt(a) => a.attempt_id@,
        DomainProjection::AlpacaPaperOrderAttempt(a) => a.attempt_id@,
        DomainProjection::AlpacaPaperOrderBook(b) => b.connection_id@,
        DomainProjection::BinanceTestnetOrderAttempt(a) => a.attempt_id@,
        DomainProjection::BitgetDemoOrderAttempt(a) => a.attempt_id@,
        DomainProjection::Trading212DemoOrderBook(b) => b.connection_id@,
        DomainProjection::BinanceTestnetOrderBook(b) => b.connection_id@,
    }
}

/// The aggregate type name of a projection.
pub open spec fn projection_kind(p: DomainProjection) -> Seq<char> {
    match p {
        DomainProjection::Workspace(_) => "workspace"@,
        DomainProjection::Account(_) => "account"@,
        DomainProjection::Risk(_) => "risk"@,
        DomainProjection::RiskDecision(_) => "risk-decision"@,
        DomainProjection::Thread(_) => "thread"@,
        DomainProjection::Trading212DemoOrderAttempt(_) => "trading212-demo-order-attempt"@,
        DomainProjection::AlpacaPaperOrderAttempt(_) => "alpaca-paper-order-attempt"@,
        DomainProjection::AlpacaPaperOrderBook(_) => "alpaca-paper-order-book"@,
        DomainProjection::BinanceTestnetOrderAttempt(_) => "binance-testnet-order-attempt"@,
        DomainProjection::BitgetDemoOrderAttempt(_) => "bitget-demo-order-attempt"@,
        DomainProjection::Trading212DemoOrderBook(_) => "trading212-demo-order-book"@,
        DomainProjection::BinanceTestnetOrderBook(_) => "binance-testnet-order-book"@,
    }
}

impl DomainProjection {
    /// The identifier of the aggregate this projection belongs to.
    pub fn id(&self) -> (r: &str)
        ensures
            r@ == projection_id(*self),
    {
        match self {
            DomainProjection::Workspace(w) => w.workspace_id.as_str(),
            DomainProjection::Account(a) => a.connection_id.as_str(),
            DomainProjection::Risk(r) => r.workspace_id.as_str(),
            DomainProjection::RiskDecision(d) => d.proposal_id.as_str(),
            DomainProjection::Thread(t) => t.thread_id.as_str(),
            DomainProjection::Trading212DemoOrderAttempt(a) => a.attempt_id.as_str(),
            DomainProjection::AlpacaPaperOrderAttempt(a) => a.attempt_id.as_str(),
            DomainProjection::AlpacaPaperOrderBook(b) => b.connection_id.as_str(),
            DomainProjection::BinanceTestnetOrderAttempt(a) => a.attempt_id.as_str(),
            DomainProjection::BitgetDemoOrderAttempt(a) => a.attempt_id.as_str(),
            DomainProjection::Trading212DemoOrderBook(b) => b.connection_id.as_str(),
            DomainProjection::BinanceTestnetOrderBook(b) => b.connection_id.as_str(),
        }
    }

    /// The aggregate type name of this projection.
    pub fn kind(&self) -> (r: &'static str)
        ensures
            r@ == projection_kind(*self),
    {
        match self {
            DomainProjection::Workspace(_) => "workspace",
            DomainProjection::Account(_) => "account",
            DomainProjection::Risk(_) => "risk",
            DomainProjection::RiskDecision(_) => "risk-decision",
            DomainProjection::Thread(_) => "thread",
            DomainProjection::Trading212DemoOrderAttempt(_) => "trading212-demo-order-attempt",
            DomainProjection::AlpacaPaperOrderAttempt(_) => "alpaca-paper-order-attempt",
            DomainProjection::AlpacaPaperOrderBook(_) => "alpaca-paper-order-book",
            DomainProjection::BinanceTestnetOrderAttempt(_) => "binance-testnet-order-attempt",
            DomainProjection::BitgetDemoOrderAttempt(_) => "bitget-demo-order-attempt",
            DomainProjection::Trading212DemoOrderBook(_) => "trading212-demo-order-book",
            DomainProjection::BinanceTestnetOrderBook(_) => "binance-testnet-order-book",
        }
    }
}

} // verus!
