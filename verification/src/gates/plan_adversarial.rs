//! The prompt of a gate that has a worker argue against a plan.
use vstd::prelude::*;
use crate::text::push_str;

verus! {

/// The name of the adversarial gate.
pub fn plan_adversarial_name() -> (r: &'static str)
    ensures
        r@ == "plan_adversarial"@,
{
    "plan_adversarial"
}

/// The prompt that asks about the plan `plan_id`: its own prompt, a blank line,
/// then `Plan ID: ` and the plan id.
pub open spec fn adversarial_prompt_text(gate_prompt: Seq<char>, plan_id: Seq<char>) -> Seq<char> {
    gate_prompt + "\n\nPlan ID: "@ + plan_id
}

/// The prompt for the plan `plan_id` (see `adversarial_prompt_text`).
pub fn adversarial_prompt(gate_prompt: &str, plan_id: &str) -> (r: String)
    ensures
        r@ == adversarial_prompt_text(gate_prompt@, plan_id@),
{
    let mut p = String::new();
    push_str(&mut p, gate_prompt);
    push_str(&mut p, "\n\nPlan ID: ");
    push_str(&mut p, plan_id);
    p
}

/// The context budget of one adversarial critique, in tokens.
pub const ADVERSARIAL_CONTEXT_BUDGET: usize = 50_000;

} // verus!
