//! Gates that a plan passes before it runs, and the chain that runs them in turn.
pub mod security;
pub mod scope_reduction;
pub mod oracle_consult;
pub mod plan_adversarial;
pub mod verdict_json;

use vstd::prelude::*;
use crate::text::{owned, first_where};

verus! {

/// What a gate decides about a plan.
#[derive(Debug, Clone, PartialEq, Eq)]
pub enum GateVerdict {
    Pass,
    Warn { findings: String },
    Fail { findings: String },
}

/// A verdict as plain values: its kind and its findings.
pub enum VerdictView {
    Pass,
    Warn(Seq<char>),
    Fail(Seq<char>),
}

impl View for GateVerdict {
    type V = VerdictView;

    open spec fn view(&self) -> VerdictView {
        match self {
            GateVerdict::Pass => VerdictView::Pass,
            GateVerdict::Warn { findings } => VerdictView::Warn(findings@),
            GateVerdict::Fail { findings } => VerdictView::Fail(findings@),
        }
    }
}

impl GateVerdict {
    /// The verdict blocks the plan.
    pub open spec fn spec_is_fail(&self) -> bool {
        self is Fail
    }

    /// Whether the verdict blocks the plan.
    pub fn is_fail(&self) -> (r: bool)
        ensures
            r == self.spec_is_fail(),
    {
        match self {
            GateVerdict::Fail { .. } => true,
            _ => false,
        }
    }

    /// The findings of a warning or a failure; `None` for a pass.
    pub fn findings(&self) -> (r: Option<&str>)
        ensures
            match self {
                GateVerdict::Pass => r is None,
                GateVerdict::Warn { findings } => r matches Some(f) && f@ == findings@,
                GateVerdict::Fail { findings } => r matches Some(f) && f@ == findings@,
            },
    {
        match self {
            GateVerdict::Warn { findings } => Some(findings.as_str()),
            GateVerdict::Fail { findings } => Some(findings.as_str()),
            GateVerdict::Pass => None,
        }
    }

    /// A copy of the verdict.
    pub fn duplicate(&self) -> (r: GateVerdict)
        ensures
            r == *self,
    {
        match self {
            GateVerdict::Pass => GateVerdict::Pass,
            GateVerdict::Warn { findings } => GateVerdict::Warn { findings: findings.clone() },
            GateVerdict::Fail { findings } => GateVerdict::Fail { findings: findings.clone() },
        }
    }
}

/// The verdict of one gate.
#[derive(Debug, Clone)]
pub struct GateResult {
    pub gate_name: String,
    pub verdict: GateVerdict,
}

/// The verdicts of a chain of gates, in order, and the name of any gate that blocked it.
#[derive(Debug)]
pub struct ChainResult {
    pub verdicts: Vec<GateResult>,
    pub blocked_by: Option<String>,
}

/// A result fails its gate.
pub open spec fn fails() -> spec_fn(GateResult) -> bool {
    |r: GateResult| r.verdict is Fail
}

/// What a chain records when its gates return `rs` in order: every result up to and
/// including the first failure, and the name of the failing gate.
pub open spec fn chain_outcome(rs: Seq<GateResult>) -> (Seq<GateResult>, Option<Seq<char>>) {
    let f = first_where(rs, fails());
    if f < 0 {
        (rs, None)
    } else {
        (rs.take(f + 1), Some(rs[f].gate_name@))
    }
}

/// The state after `rs` are recorded one by one, from `verdicts`, until a failure.
pub open spec fn record_all(verdicts: Seq<GateResult>, rs: Seq<GateResult>) -> (Seq<GateResult>, Option<Seq<char>>)
    decreases rs.len(),
{
    if rs.len() == 0 {
        (verdicts, None)
    } else if rs[0].verdict is Fail {
        (verdicts.push(rs[0]), Some(rs[0].gate_name@))
    } else {
        record_all(verdicts.push(rs[0]), rs.drop_first())
    }
}

impl ChainResult {
    /// The chain let the plan through.
    pub open spec fn spec_passed(&self) -> bool {
        self.blocked_by is None
    }

    /// Whether the chain let the plan through.
    pub fn passed(&self) -> (r: bool)
        ensures
            r == self.spec_passed(),
    {
        self.blocked_by.is_none()
    }

    /// A chain that has run no gate yet.
    pub fn start() -> (r: ChainResult)
        ensures
            r.verdicts@.len() == 0,
            r.blocked_by is None,
    {
        ChainResult { verdicts: Vec::new(), blocked_by: None }
    }

    /// Records the verdict of the next gate; returns whether the chain goes on. A failing
    /// verdict blocks the chain, naming its gate.
    pub fn record(&mut self, result: GateResult) -> (go_on: bool)
        requires
            old(self).blocked_by is None,
        ensures
            final(self).verdicts@ == old(self).verdicts@.push(result),
            go_on == !(result.verdict is Fail),
            final(self).blocked_by is None <==> go_on,
            final(self).blocked_by matches Some(name) ==> name@ == result.gate_name@,
    {
        let is_fail = result.verdict.is_fail();
        if is_fail {
            self.blocked_by = Some(result.gate_name.clone());
        }
        self.verdicts.push(result);
        !is_fail
    }
}

/// A chain stops at its first failing gate: recording results one by one from an empty
/// chain keeps every result up to and including the first failure, blocks on the
/// failing gate, and passes exactly when no gate fails.
pub proof fn chain_stops_at_first_fail(rs: Seq<GateResult>)
    ensures
        record_all(seq![], rs) == chain_outcome(rs),
        record_all(seq![], rs).1 is None <==> forall|i: int| 0 <= i < rs.len() ==> !(rs[i].verdict is Fail),
{
    lemma_record_all(seq![], rs);
    let f = first_where(rs, fails());
    crate::text::lemma_first_where_props(rs, fails());
    if f >= 0 {
        assert(fails()(rs[f]));
    }
}

/// Recording `rs` after `prefix` gives `prefix` followed by the chain outcome of `rs`.
proof fn lemma_record_all(prefix: Seq<GateResult>, rs: Seq<GateResult>)
    ensures
        record_all(prefix, rs) == (prefix + chain_outcome(rs).0, chain_outcome(rs).1),
    decreases rs.len(),
{
    if rs.len() == 0 {
        assert(prefix + rs == prefix);
    } else if rs[0].verdict is Fail {
        assert(rs.take(1) =~= seq![rs[0]]);
        assert(prefix.push(rs[0]) =~= prefix + rs.take(1));
    } else {
        lemma_record_all(prefix.push(rs[0]), rs.drop_first());
        let t = rs.drop_first();
        let ft = first_where(t, fails());
        crate::text::lemma_first_where_props(t, fails());
        assert(!fails()(rs[0]));
        assert(first_where(rs, fails()) == if ft < 0 { -1 } else { ft + 1 });
        if ft < 0 {
            assert(prefix.push(rs[0]) + t =~= prefix + rs);
        } else {
            assert(rs[ft + 1] == t[ft]);
            assert(rs.take(ft + 2) =~= seq![rs[0]] + t.take(ft + 1));
            assert(prefix.push(rs[0]) + t.take(ft + 1) =~= prefix + rs.take(ft + 2));
        }
    }
}

/// A stand-in gate with a fixed verdict.
pub struct MockGate {
    name: String,
    verdict: GateVerdict,
}

impl MockGate {
    /// The name of this gate.
    pub closed spec fn spec_name(&self) -> Seq<char> {
        self.name@
    }

    /// The verdict this gate always returns.
    pub closed spec fn spec_verdict(&self) -> GateVerdict {
        self.verdict
    }

    /// A gate named `name` that always passes.
    pub fn pass(name: &str) -> (r: Self)
        ensures
            r.spec_name() == name@,
            r.spec_verdict() == GateVerdict::Pass,
    {
        Self { name: owned(name), verdict: GateVerdict::Pass }
    }

    /// A gate named `name` that always fails with `findings`.
    pub fn fail(name: &str, findings: &str) -> (r: Self)
        ensures
            r.spec_name() == name@,
            r.spec_verdict() matches GateVerdict::Fail { findings: f } && f@ == findings@,
    {
        Self { name: owned(name), verdict: GateVerdict::Fail { findings: owned(findings) } }
    }

    /// A gate named `name` that always warns with `findings`.
    pub fn warn(name: &str, findings: &str) -> (r: Self)
        ensures
            r.spec_name() == name@,
            r.spec_verdict() matches GateVerdict::Warn { findings: f } && f@ == findings@,
    {
        Self { name: owned(name), verdict: GateVerdict::Warn { findings: owned(findings) } }
    }

    /// The name of this gate.
    pub fn name(&self) -> (r: &str)
        ensures
            r@ == self.spec_name(),
    {
        self.name.as_str()
    }

    /// The verdict of this gate on any plan.
    pub fn run(&self, _plan_id: &str) -> (r: GateVerdict)
        ensures
            r == self.spec_verdict(),
    {
        self.verdict.duplicate()
    }
}

} // verus!
