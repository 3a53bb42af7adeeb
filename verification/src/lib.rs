//! Verified core of a desktop trading workspace: the shared protocol types and
//! error catalogue, exact decimal arithmetic, provider route and payload
//! validation, risk policy validation and decisions, research tool results and
//! the natural-language screener.
use vstd::prelude::*;

pub mod amount;
pub mod capability;
pub mod catalog;
pub mod connection;
pub mod decimal;
pub mod evaluation;
pub mod ids;
pub mod jobs;
pub mod json;
pub mod protocol;
pub mod provider_io;
pub mod providers;
pub mod research;
pub mod risk;
pub mod screener;
pub mod text;

verus! {

} // verus!
