//! What a worker turn returns.
use vstd::prelude::*;
use crate::text::{owned, push_str};

verus! {

/// How a worker turn ended.
#[derive(Debug, Clone, Copy, PartialEq, Eq, Structural)]
pub enum TurnStatus {
    Done,
    StuckSameError,
    ChunkTimeout,
    Failed,
}

/// The result of a worker turn.
#[derive(Debug, Clone)]
pub struct TurnOutput {
    pub summary_md: String,
    pub evidence_paths: Vec<String>,
    pub status: TurnStatus,
}

/// A runtime that answers every turn with a fixed status.
pub struct MockRuntime {
    pub next_status: TurnStatus,
}

impl MockRuntime {
    /// The output of a turn on plan `plan_id`: a one-line summary naming the plan, no
    /// evidence, and the configured status.
    pub fn turn_output(&self, plan_id: &str) -> (r: TurnOutput)
        ensures
            r.summary_md@ == "# mock summary for "@ + plan_id@,
            r.evidence_paths@.len() == 0,
            r.status == self.next_status,
    {
        let mut summary_md = owned("# mock summary for ");
        push_str(&mut summary_md, plan_id);
        TurnOutput { summary_md, evidence_paths: Vec::new(), status: self.next_status }
    }
}

/// The kinds of provider error that a turn can end in.
#[derive(Debug, Clone, Copy, PartialEq, Eq, Structural)]
pub enum ApiErrorKind {
    ChunkTimeout,
    Other,
}

/// The turn status for a provider error: a chunk timeout stays a chunk timeout, so
/// that stuck detection sees it; anything else fails the turn.
pub fn api_error_to_turn_status(err: ApiErrorKind) -> (r: TurnStatus)
    ensures
        r == match err {
            ApiErrorKind::ChunkTimeout => TurnStatus::ChunkTimeout,
            ApiErrorKind::Other => TurnStatus::Failed,
        },
{
    match err {
        ApiErrorKind::ChunkTimeout => TurnStatus::ChunkTimeout,
        ApiErrorKind::Other => TurnStatus::Failed,
    }
}

/// A runtime backed by a model provider.
pub struct ApiProviderRuntime {
    pub provider_name: String,
    pub model: String,
}

impl ApiProviderRuntime {
    /// The output of a turn: a summary naming provider and model, no evidence, done.
    pub fn turn_output(&self) -> (r: TurnOutput)
        ensures
            r.summary_md@ == "# api stub for "@ + self.provider_name@ + "/"@ + self.model@,
            r.evidence_paths@.len() == 0,
            r.status == TurnStatus::Done,
    {
        let mut summary_md = owned("# api stub for ");
        push_str(&mut summary_md, self.provider_name.as_str());
        push_str(&mut summary_md, "/");
        push_str(&mut summary_md, self.model.as_str());
        TurnOutput { summary_md, evidence_paths: Vec::new(), status: TurnStatus::Done }
    }
}

} // verus!
