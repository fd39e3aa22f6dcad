//! Verified core of the CowClaw swarm orchestrator.
use vstd::prelude::*;

pub mod text;
pub mod utf8;
pub mod paths;
pub mod providers;
pub mod budget;
pub mod planner;
pub mod hivemind;
pub mod worker;
pub mod events;
pub mod json;
pub mod gates;
pub mod oracle;
pub mod mcp_stdio;
pub mod memory;
pub mod promoter;

verus! {

} // verus!
