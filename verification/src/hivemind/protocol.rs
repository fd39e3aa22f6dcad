//! Messages of a peer consultation.
use vstd::prelude::*;

verus! {

/// A stuck worker asks a peer for help.
#[derive(Debug, Clone)]
pub struct ConsultRequest {
    pub session_id: String,
    pub plan_id: String,
    pub from_worker: String,
    pub stuck_context: String,
    pub question: String,
    pub max_response_tokens: usize,
}

/// The answer of the peer.
#[derive(Debug, Clone)]
pub struct ConsultResponse {
    pub consult_id: i64,
    pub to_worker: String,
    pub answer: String,
    pub outcome: Option<String>,
}

} // verus!
