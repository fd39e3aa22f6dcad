//! Planning: profiles, classification, plans and their sizing.
pub mod profile;
pub mod classify;
pub mod xml_plan;
pub mod xml_tokens;
pub mod xml_roundtrip;
pub mod sizing;
pub mod escalate;
pub mod artifacts;

use vstd::prelude::*;
use vstd::utf8::{decode_utf8, encode_utf8, encode_utf8_decode_utf8, is_char_boundary};
use crate::planner::artifacts::{PhaseNode, WaveNode};
use crate::planner::profile::ProfileId;
use crate::planner::sizing::{
    byte_len, header_lines, size_and_split, spec_make_plan, split_fold, split_groups, split_step,
    sum_lines, task_bytes, task_lines, SizingConfig,
};
use crate::planner::xml_plan::{task_seq, Task, TaskView};
use crate::text::{hex, owned, push_radix_padded, push_str, zero_pad};

verus! {

/// What decomposing an objective produced: the new phase, its plans and its profile.
pub struct DecomposeResult {
    pub phase_id: String,
    pub plan_ids: Vec<String>,
    pub profile: ProfileId,
}

/// The id of a new phase: `phase-` and four hex digits of the low 16 bits of the
/// clock's nanoseconds.
pub open spec fn phase_id_text(clock_nanos: u32) -> Seq<char> {
    "phase-"@ + zero_pad(hex((clock_nanos % 65536) as nat), 4)
}

/// How many bytes of the objective the task quotes: all of them, at most 100.
pub open spec fn head_len(objective: Seq<char>) -> nat {
    if byte_len(objective) < 100 {
        byte_len(objective)
    } else {
        100
    }
}

/// The text of the first `n` bytes of `s`.
pub open spec fn byte_prefix(s: Seq<char>, n: nat) -> Seq<char> {
    decode_utf8(encode_utf8(s).subrange(0, n as int))
}

/// The single task of a decomposed objective: to implement what the first 100 bytes
/// of the objective say.
pub open spec fn stub_task(objective: Seq<char>) -> TaskView {
    TaskView {
        id: "t1"@,
        action: "Implement: "@ + byte_prefix(objective, head_len(objective)),
        verify: "cargo test passes"@,
        done: "feature works as described"@,
    }
}

/// Decomposes `objective` into one phase of one wave, `wave-01`, whose plans hold a
/// single task quoting the objective; the phase id comes from `clock_nanos` (see
/// `phase_id_text`). The objective is cut after its first 100 bytes, which must end a
/// character.
pub fn decompose(objective: &str, profile: ProfileId, clock_nanos: u32, cfg: &SizingConfig) -> (r: (DecomposeResult, PhaseNode))
    requires
        byte_len(objective@) <= usize::MAX,
        is_char_boundary(encode_utf8(objective@), head_len(objective@) as int),
    ensures
        r.1.id@ == phase_id_text(clock_nanos),
        r.1.profile == profile,
        r.1.waves.len() == 1,
        r.1.waves[0].id@ == phase_id_text(clock_nanos) + "/wave-01"@,
        r.1.waves[0].plans.len() == 1,
        r.1.waves[0].plans[0]@ == spec_make_plan(
            phase_id_text(clock_nanos),
            "wave-01"@,
            0,
            seq![stub_task(objective@)],
            header_lines() + task_lines(stub_task(objective@)),
            *cfg,
        ),
        r.0.phase_id@ == phase_id_text(clock_nanos),
        r.0.plan_ids.len() == 1,
        r.0.plan_ids[0]@ == r.1.waves[0].plans[0].id@,
        r.0.profile == profile,
{
    let low = clock_nanos & 0xFFFF;
    assert(low == clock_nanos % 65536) by (bit_vector)
        requires
            low == clock_nanos & 0xFFFF,
    ;
    let mut phase_id = owned("phase-");
    push_radix_padded(&mut phase_id, low as u64, 16, 4);
    let len = objective.len();
    assert(len == byte_len(objective@));
    let n = if len < 100 { len } else { 100 };
    let (head, _) = objective.split_at(n);
    proof {
        encode_utf8_decode_utf8(head@);
        assert(head@ == byte_prefix(objective@, head_len(objective@)));
        crate::utf8::lemma_encode_concat("Implement: "@, head@);
        crate::utf8::lemma_encode_len("Implement: "@);
        crate::utf8::lemma_encode_len("cargo test passes"@);
        crate::utf8::lemma_encode_len("feature works as described"@);
        reveal_strlit("Implement: ");
        reveal_strlit("cargo test passes");
        reveal_strlit("feature works as described");
    }
    let mut action = owned("Implement: ");
    push_str(&mut action, head);
    let task = Task {
        id: owned("t1"),
        action,
        verify: owned("cargo test passes"),
        done: owned("feature works as described"),
    };
    let ghost t = task@;
    assert(t == stub_task(objective@));
    assert(task_bytes(t) <= 400);
    let tasks = vec![task];
    assert(task_seq(tasks@) =~= seq![t]);
    proof {
        assert(seq![t].drop_last() =~= Seq::<TaskView>::empty());
        assert(seq![t].last() == t);
        assert(sum_lines(Seq::<TaskView>::empty()) == 0);
        assert(sum_lines(seq![t]) == sum_lines(seq![t].drop_last()) + task_lines(seq![t].last()));
        assert(sum_lines(seq![t]) == task_lines(t));
        let cap = cfg.effective_cap as nat;
        assert(split_fold(seq![t], cap) == split_step(split_fold(Seq::<TaskView>::empty(), cap), t, cap));
    }
    let mut wave_id = phase_id.clone();
    push_str(&mut wave_id, "/wave-01");
    let plans = size_and_split(phase_id.as_str(), "wave-01", tasks, cfg);
    let first_id = plans[0].id.clone();
    let mut plan_ids: Vec<String> = Vec::new();
    plan_ids.push(first_id);
    let phase = PhaseNode {
        id: phase_id.clone(),
        profile,
        waves: vec![WaveNode { id: wave_id, plans }],
    };
    (DecomposeResult { phase_id, plan_ids, profile }, phase)
}

} // verus!
