//! Workers: their runtime outputs, scratch worktrees and stuck detection.
pub mod runtime;
pub mod scratch;
pub mod stuck;

use vstd::prelude::*;
use crate::events::{Event, Kind};

verus! {

/// A worker that runs one plan of a phase in a session, on a runtime.
pub struct Worker<R> {
    pub id: String,
    pub plan_id: String,
    pub phase_id: String,
    pub session_id: String,
    pub runtime: R,
    pub stuck_threshold: usize,
}

/// The context budget of a worker turn, in tokens.
pub const WORKER_CONTEXT_BUDGET: usize = 200_000;

impl<R> Worker<R> {
    /// The event of kind `kind` that this worker logs at time `ts` with the JSON
    /// payload `payload`: it names the worker's session, phase, plan and id, and has no
    /// id of its own yet.
    pub fn ev(&self, kind: Kind, ts: String, payload: String) -> (e: Event)
        ensures
            e.id is None,
            e.session_id@ == self.session_id@,
            e.phase_id matches Some(p) && p@ == self.phase_id@,
            e.plan_id matches Some(p) && p@ == self.plan_id@,
            e.worker_id matches Some(w) && w@ == self.id@,
            e.ts == ts,
            e.kind == kind,
            e.payload == payload,
    {
        Event {
            id: None,
            session_id: self.session_id.clone(),
            phase_id: Some(self.phase_id.clone()),
            plan_id: Some(self.plan_id.clone()),
            worker_id: Some(self.id.clone()),
            ts,
            kind,
            payload,
        }
    }
}

} // verus!
