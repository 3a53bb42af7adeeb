//! Research tool capabilities granted to a turn.
use vstd::prelude::*;

verus! {

/// A research tool the agent may invoke.
#[derive(Clone, Copy, Debug, PartialEq, Eq, Structural)]
pub enum ResearchToolId {
    PublicMarketRead,
    AccountRead,
    HistoricalSimulation,
}

/// The capability level of a turn.
#[derive(Clone, Copy, Debug, PartialEq, Eq, Structural)]
pub enum CapabilityLevel {
    C0,
}

/// A tool the agent may call in a turn.
#[derive(Clone, Copy, Debug, PartialEq, Eq, Structural)]
pub enum ToolId {
    PublicMarketRead,
}

/// A research tool offered to the agent.
#[derive(Clone, Debug, PartialEq, Eq)]
pub struct ResearchToolDefinition {
    pub id: ResearchToolId,
    pub label: String,
    pub read_only: bool,
    pub description: String,
}

/// What a turn may do: its level, its tools and research tools, and whether
/// it may execute orders.
#[derive(Clone, Debug, PartialEq, Eq)]
pub struct CapabilityDecision {
    pub level: CapabilityLevel,
    pub allowed_tools: Vec<ToolId>,
    pub research_tools: Vec<ResearchToolDefinition>,
    pub execution_allowed: bool,
    pub reason: Option<String>,
}

} // verus!
