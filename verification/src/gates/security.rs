//! A gate that refuses plans whose id names a sensitive path.
use vstd::prelude::*;
use crate::gates::{GateVerdict, VerdictView};
use crate::planner::classify::strs;
use crate::text::{contains_str, first_where, has_sub, owned, push_str};

verus! {

/// The sensitive path fragments, in the order they are tested.
pub open spec fn deny_patterns() -> Seq<Seq<char>> {
    seq![
        "~/.ssh"@,
        ".ssh/id_rsa"@,
        ".ssh/id_ed25519"@,
        "/etc/passwd"@,
        "/etc/shadow"@,
        ".env"@,
        "secrets/"@,
        "credentials"@,
    ]
}

/// A pattern occurs in `plan_id`.
pub open spec fn occurs_in(plan_id: Seq<char>) -> spec_fn(Seq<char>) -> bool {
    |p: Seq<char>| has_sub(plan_id, p)
}

/// The verdict on `plan_id`: a failure naming the first sensitive pattern it contains,
/// a pass when it contains none.
pub open spec fn spec_security_verdict(plan_id: Seq<char>) -> VerdictView {
    let k = first_where(deny_patterns(), occurs_in(plan_id));
    if k < 0 {
        VerdictView::Pass
    } else {
        VerdictView::Fail("plan_id contains sensitive path: "@ + deny_patterns()[k])
    }
}

/// Refuses plans whose id contains a sensitive path.
pub struct SecurityGate;

impl SecurityGate {
    /// The name of this gate.
    pub fn name(&self) -> (r: &'static str)
        ensures
            r@ == "security"@,
    {
        "security"
    }

    /// The verdict on the plan `plan_id` (see `spec_security_verdict`).
    pub fn run(&self, plan_id: &str) -> (r: GateVerdict)
        ensures
            r@ == spec_security_verdict(plan_id@),
    {
        let pats = [
            "~/.ssh",
            ".ssh/id_rsa",
            ".ssh/id_ed25519",
            "/etc/passwd",
            "/etc/shadow",
            ".env",
            "secrets/",
            "credentials",
        ];
        assert(strs(pats@) =~= deny_patterns());
        let mut i: usize = 0;
        while i < pats.len()
            invariant
                i <= pats.len(),
                strs(pats@) == deny_patterns(),
                forall|j: int| 0 <= j < i ==> !has_sub(plan_id@, deny_patterns()[j]),
            decreases pats.len() - i,
        {
            assert(strs(pats@)[i as int] == pats@[i as int]@);
            if contains_str(plan_id, pats[i]) {
                proof {
                    crate::text::lemma_first_where_is(deny_patterns(), occurs_in(plan_id@), i as int);
                }
                let mut findings = owned("plan_id contains sensitive path: ");
                push_str(&mut findings, pats[i]);
                return GateVerdict::Fail { findings };
            }
            i = i + 1;
        }
        proof {
            crate::text::lemma_first_where_is(deny_patterns(), occurs_in(plan_id@), -1);
        }
        GateVerdict::Pass
    }
}

} // verus!
