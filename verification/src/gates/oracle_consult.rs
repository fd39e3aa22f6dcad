//! A gate that asks the oracle for a verdict on a plan.
use vstd::prelude::*;
use crate::gates::GateVerdict;
use crate::oracle::Oracle;
use crate::text::{owned, push_str};

verus! {

/// Asks the oracle, with a fixed prompt, what it makes of a plan.
pub struct OracleConsultGate {
    pub oracle: Oracle,
    pub gate_prompt: String,
}

/// The prompt that asks about the plan `plan_id`: this gate's prompt, a blank line,
/// then `Plan: ` and the plan id.
pub open spec fn oracle_prompt(gate_prompt: Seq<char>, plan_id: Seq<char>) -> Seq<char> {
    gate_prompt + "\n\nPlan: "@ + plan_id
}

/// The reply that stands for an oracle that could not be reached: a JSON object that
/// warns and names the reason.
pub open spec fn unavailable_reply(reason: Seq<char>) -> Seq<char> {
    "{\"verdict\":\"warn\",\"findings\":\"oracle unavailable: "@ + reason + "\"}"@
}

impl OracleConsultGate {
    /// A gate that asks `oracle` with `gate_prompt`.
    pub fn new(oracle: Oracle, gate_prompt: String) -> (r: Self)
        ensures
            r.oracle == oracle,
            r.gate_prompt == gate_prompt,
    {
        Self { oracle, gate_prompt }
    }

    /// The name of this gate.
    pub fn name(&self) -> (r: &'static str)
        ensures
            r@ == "oracle_consult"@,
    {
        "oracle_consult"
    }

    /// The prompt for the plan `plan_id` (see `oracle_prompt`).
    pub fn prompt(&self, plan_id: &str) -> (r: String)
        ensures
            r@ == oracle_prompt(self.gate_prompt@, plan_id@),
    {
        let mut p = self.gate_prompt.clone();
        push_str(&mut p, "\n\nPlan: ");
        push_str(&mut p, plan_id);
        p
    }

    /// The reply used when the oracle fails for `reason` (see `unavailable_reply`).
    pub fn unavailable(reason: &str) -> (r: String)
        ensures
            r@ == unavailable_reply(reason@),
    {
        let mut r = owned("{\"verdict\":\"warn\",\"findings\":\"oracle unavailable: ");
        push_str(&mut r, reason);
        push_str(&mut r, "\"}");
        r
    }

    /// The verdict of the oracle's reply (see `oracle_reply_verdict`).
    pub fn verdict(&self, reply: &str) -> (r: GateVerdict)
        requires
            crate::gates::verdict_json::span_in_order(reply@),
        ensures
            r@ == crate::gates::verdict_json::oracle_verdict(reply@),
    {
        crate::gates::verdict_json::oracle_reply_verdict(reply)
    }
}

} // verus!
