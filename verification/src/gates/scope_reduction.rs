//! A gate that checks a plan keeps the scope it was given.
use vstd::prelude::*;
use crate::gates::GateVerdict;

verus! {

/// Checks that a plan does not drop requirements; it passes every plan.
pub struct ScopeReductionGate;

impl ScopeReductionGate {
    /// The name of this gate.
    pub fn name(&self) -> (r: &'static str)
        ensures
            r@ == "scope_reduction"@,
    {
        "scope_reduction"
    }

    /// The verdict on a plan: always a pass.
    pub fn run(&self, _plan_id: &str) -> (r: GateVerdict)
        ensures
            r == GateVerdict::Pass,
    {
        GateVerdict::Pass
    }
}

} // verus!
