//! Splitting a list of tasks into plans that fit a line budget.
use vstd::prelude::*;
use vstd::utf8::encode_utf8;
use crate::budget::Tier;
use crate::planner::xml_plan::{task_seq, PlanView, Task, TaskView, XmlPlan, string_seq};
use crate::text::{decimal, push_radix, push_radix_padded, push_str, zero_pad};

verus! {

/// How plans are sized.
pub struct SizingConfig {
    /// The line count over which a plan is split.
    pub auto_split_over: usize,
    /// The line count under which plans would be merged.
    pub auto_merge_under: usize,
    /// The line cap of one plan once the context headroom is set aside.
    pub effective_cap: usize,
    /// The tier that new plans get.
    pub default_tier: Tier,
}

/// The number of bytes of the UTF-8 encoding of `s` (`str::len`).
pub open spec fn byte_len(s: Seq<char>) -> nat {
    encode_utf8(s).len()
}

/// The bytes of the prose of a task: its action, check and outcome.
pub open spec fn task_bytes(t: TaskView) -> nat {
    byte_len(t.action) + byte_len(t.verify) + byte_len(t.done)
}

/// The estimated lines of a task: eight lines of XML around it, and one line per
/// eight bytes of prose, at least one.
pub open spec fn task_lines(t: TaskView) -> nat {
    8 + if task_bytes(t) / 8 >= 1 {
        task_bytes(t) / 8
    } else {
        1
    }
}

/// The estimated lines of a list of tasks.
pub open spec fn sum_lines(ts: Seq<TaskView>) -> nat
    decreases ts.len(),
{
    if ts.len() == 0 {
        0
    } else {
        sum_lines(ts.drop_last()) + task_lines(ts.last())
    }
}

/// The lines a plan file spends on its header.
pub open spec fn header_lines() -> nat {
    20
}

/// Where the split stands: the plans closed so far (tasks and estimated lines), the
/// tasks of the open plan, and its estimated lines.
pub struct SplitState {
    pub done: Seq<(Seq<TaskView>, nat)>,
    pub cur: Seq<TaskView>,
    pub lines: nat,
}

/// Takes in the next task: it closes the open plan first when the open plan holds a
/// task and the new one would take it over `cap`.
pub open spec fn split_step(s: SplitState, t: TaskView, cap: nat) -> SplitState {
    let tl = task_lines(t);
    if s.lines + tl > cap && s.cur.len() > 0 {
        SplitState { done: s.done.push((s.cur, s.lines)), cur: seq![t], lines: header_lines() + tl }
    } else {
        SplitState { done: s.done, cur: s.cur.push(t), lines: s.lines + tl }
    }
}

/// The split after taking in the tasks `ts` in order.
pub open spec fn split_fold(ts: Seq<TaskView>, cap: nat) -> SplitState
    decreases ts.len(),
{
    if ts.len() == 0 {
        SplitState { done: seq![], cur: seq![], lines: header_lines() }
    } else {
        split_step(split_fold(ts.drop_last(), cap), ts.last(), cap)
    }
}

/// The plans that `ts` are split into under `cap`, each as its tasks and estimated
/// lines: the closed plans and the open one; a single empty plan when there are no
/// tasks.
pub open spec fn split_groups(ts: Seq<TaskView>, cap: nat) -> Seq<(Seq<TaskView>, nat)> {
    let s = split_fold(ts, cap);
    if s.cur.len() > 0 {
        s.done.push((s.cur, s.lines))
    } else {
        seq![(seq![], header_lines())]
    }
}

/// The tasks of a list of plans, one plan after the other.
pub open spec fn flatten_groups(gs: Seq<(Seq<TaskView>, nat)>) -> Seq<TaskView>
    decreases gs.len(),
{
    if gs.len() == 0 {
        seq![]
    } else {
        flatten_groups(gs.drop_last()) + gs.last().0
    }
}

/// The id of the `n`-th plan of a wave: `phase/wave/plan-NN`, numbered from 1.
pub open spec fn plan_id(phase: Seq<char>, wave: Seq<char>, n: nat) -> Seq<char> {
    phase + "/"@ + wave + "/plan-"@ + zero_pad(decimal(n), 2)
}

/// The plan made of the `idx`-th group (from 0): its id and title number it from 1,
/// its budget is its estimated lines, capped at `auto_split_over`.
pub open spec fn spec_make_plan(
    phase: Seq<char>,
    wave: Seq<char>,
    idx: nat,
    tasks: Seq<TaskView>,
    lines: nat,
    cfg: SizingConfig,
) -> PlanView {
    PlanView {
        id: plan_id(phase, wave, idx + 1),
        title: "Auto-split plan "@ + decimal(idx + 1) + " of "@ + phase,
        wave: phase + "/"@ + wave,
        depends: seq![],
        files: seq![],
        skills_required: seq![],
        tasks: tasks,
        budget_tier: cfg.default_tier,
        budget_lines: (if lines <= cfg.auto_split_over { lines } else { cfg.auto_split_over as nat }) as u32,
        commit_message_hint: seq![],
    }
}

/// The estimated lines of `task` (see `task_lines`).
pub fn estimate_task_lines(task: &Task) -> (r: usize)
    requires
        task_bytes(task@) <= usize::MAX,
    ensures
        r == task_lines(task@),
{
    let content_len = task.action.as_str().len() + task.verify.as_str().len() + task.done.as_str().len();
    8 + if content_len / 8 >= 1 {
        content_len / 8
    } else {
        1
    }
}

/// The plan made of the `idx`-th group (see `spec_make_plan`).
fn make_plan(phase: &str, wave: &str, idx: usize, tasks: Vec<Task>, lines: usize, cfg: &SizingConfig) -> (r: XmlPlan)
    requires
        idx < usize::MAX,
    ensures
        r@ == spec_make_plan(phase@, wave@, idx as nat, task_seq(tasks@), lines as nat, *cfg),
{
    let n = (idx + 1) as u64;
    let mut id = String::new();
    push_str(&mut id, phase);
    push_str(&mut id, "/");
    push_str(&mut id, wave);
    push_str(&mut id, "/plan-");
    push_radix_padded(&mut id, n, 10, 2);
    let mut title = String::new();
    push_str(&mut title, "Auto-split plan ");
    push_radix(&mut title, n, 10);
    push_str(&mut title, " of ");
    push_str(&mut title, phase);
    let mut w = String::new();
    push_str(&mut w, phase);
    push_str(&mut w, "/");
    push_str(&mut w, wave);
    let capped = if lines <= cfg.auto_split_over { lines } else { cfg.auto_split_over };
    let r = XmlPlan {
        id,
        title,
        wave: w,
        depends: Vec::new(),
        files: Vec::new(),
        skills_required: Vec::new(),
        tasks,
        budget_tier: cfg.default_tier,
        budget_lines: capped as u32,
        commit_message_hint: String::new(),
    };
    assert(string_seq(r.depends@) =~= seq![]);
    assert(string_seq(r.files@) =~= seq![]);
    assert(string_seq(r.skills_required@) =~= seq![]);
    assert(r@.id =~= plan_id(phase@, wave@, idx as nat + 1));
    assert(r@.title =~= "Auto-split plan "@ + decimal(idx as nat + 1) + " of "@ + phase@);
    assert(r@.wave =~= phase@ + "/"@ + wave@);
    r
}

/// The estimated lines of a prefix grow with the prefix.
proof fn lemma_sum_lines_prefix(ts: Seq<TaskView>, k: int)
    requires
        0 <= k <= ts.len(),
    ensures
        sum_lines(ts.take(k)) <= sum_lines(ts),
    decreases ts.len() - k,
{
    if k < ts.len() {
        lemma_sum_lines_prefix(ts, k + 1);
        assert(ts.take(k + 1).drop_last() == ts.take(k));
    } else {
        assert(ts.take(k) == ts);
    }
}

/// Splits `tasks` into plans of the wave `wave` of the phase `phase` (see
/// `split_groups` and `spec_make_plan`): the tasks are taken in order, and a plan is
/// closed when the next task would take it over the effective cap, unless it is still
/// empty. There is always at least one plan.
pub fn size_and_split(phase: &str, wave: &str, tasks: Vec<Task>, cfg: &SizingConfig) -> (r: Vec<XmlPlan>)
    requires
        header_lines() + sum_lines(task_seq(tasks@)) <= usize::MAX,
        forall|i: int| 0 <= i < tasks.len() ==> task_bytes(#[trigger] tasks@[i]@) <= usize::MAX,
    ensures
        r.len() == split_groups(task_seq(tasks@), cfg.effective_cap as nat).len(),
        forall|i: int|
            0 <= i < r.len() ==> (#[trigger] r@[i])@ == spec_make_plan(
                phase@,
                wave@,
                i as nat,
                split_groups(task_seq(tasks@), cfg.effective_cap as nat)[i].0,
                split_groups(task_seq(tasks@), cfg.effective_cap as nat)[i].1,
                *cfg,
            ),
{
    let ghost ts = task_seq(tasks@);
    let ghost cap = cfg.effective_cap as nat;
    let effective_cap = cfg.effective_cap;
    let mut plans: Vec<XmlPlan> = Vec::new();
    let mut current_tasks: Vec<Task> = Vec::new();
    let mut current_lines: usize = 20;
    let n_tasks = tasks.len();
    let mut rest = tasks;
    let ghost mut k: int = 0;
    proof {
        assert(ts.take(0) =~= Seq::<TaskView>::empty());
        lemma_sum_lines_prefix(ts, 0);
    }
    while rest.len() > 0
        invariant
            0 <= k <= ts.len(),
            ts.len() == n_tasks,
            task_seq(rest@) == ts.skip(k),
            ts == task_seq(tasks@),
            cap == cfg.effective_cap,
            effective_cap == cfg.effective_cap,
            header_lines() + sum_lines(ts) <= usize::MAX,
            forall|i: int| 0 <= i < ts.len() ==> task_bytes(#[trigger] ts[i]) <= usize::MAX,
            split_fold(ts.take(k), cap).cur == task_seq(current_tasks@),
            split_fold(ts.take(k), cap).lines == current_lines,
            split_fold(ts.take(k), cap).done.len() == plans.len(),
            current_lines <= header_lines() + sum_lines(ts.take(k)),
            plans.len() + (if current_tasks.len() > 0 { 1int } else { 0int }) <= k,
            forall|i: int|
                0 <= i < plans.len() ==> (#[trigger] plans@[i])@ == spec_make_plan(
                    phase@,
                    wave@,
                    i as nat,
                    split_fold(ts.take(k), cap).done[i].0,
                    split_fold(ts.take(k), cap).done[i].1,
                    *cfg,
                ),
        decreases rest.len(),
    {
        let ghost old_rest = rest@;
        proof {
            assert(task_seq(old_rest).len() == old_rest.len());
            assert(ts.skip(k).len() == ts.len() - k);
        }
        let task = rest.remove(0);
        proof {
            assert(task_seq(old_rest)[0] == ts.skip(k)[0]);
            assert(task@ == ts[k]);
            assert forall|i: int| 0 <= i < rest.len() implies task_seq(rest@)[i] == ts.skip(k + 1)[i] by {
                assert(rest@[i] == old_rest[i + 1]);
                assert(task_seq(old_rest)[i + 1] == ts.skip(k)[i + 1]);
            }
            assert(task_seq(rest@) =~= ts.skip(k + 1));
            assert(ts.take(k + 1).drop_last() =~= ts.take(k));
            assert(ts.take(k + 1).last() == ts[k]);
            lemma_sum_lines_prefix(ts, k + 1);
        }
        let task_lines = estimate_task_lines(&task);
        let ghost before = split_fold(ts.take(k), cap);
        if current_lines + task_lines > effective_cap && current_tasks.len() > 0 {
            let idx = plans.len();
            let closed = current_tasks;
            current_tasks = Vec::new();
            let p = make_plan(phase, wave, idx, closed, current_lines, cfg);
            plans.push(p);
            current_lines = 20;
        }
        current_lines = current_lines + task_lines;
        current_tasks.push(task);
        proof {
            k = k + 1;
            assert(task_seq(current_tasks@) =~= split_fold(ts.take(k), cap).cur);
            assert forall|i: int|
                0 <= i < plans.len() implies (#[trigger] plans@[i])@ == spec_make_plan(
                    phase@,
                    wave@,
                    i as nat,
                    split_fold(ts.take(k), cap).done[i].0,
                    split_fold(ts.take(k), cap).done[i].1,
                    *cfg,
                ) by {
                if i < before.done.len() {
                    assert(split_fold(ts.take(k), cap).done[i] == before.done[i]);
                }
            }
        }
    }
    proof {
        assert(ts.take(k) =~= ts);
    }
    if current_tasks.len() > 0 {
        let idx = plans.len();
        let p = make_plan(phase, wave, idx, current_tasks, current_lines, cfg);
        plans.push(p);
    }
    if plans.len() == 0 {
        let empty: Vec<Task> = Vec::new();
        assert(task_seq(empty@) =~= seq![]);
        let p = make_plan(phase, wave, 0, empty, 20, cfg);
        plans.push(p);
    }
    proof {
        let s = split_fold(ts, cap);
        assert forall|i: int|
            0 <= i < plans.len() implies (#[trigger] plans@[i])@ == spec_make_plan(
                phase@,
                wave@,
                i as nat,
                split_groups(ts, cap)[i].0,
                split_groups(ts, cap)[i].1,
                *cfg,
            ) by {
            if s.cur.len() > 0 && i < s.done.len() {
                assert(split_groups(ts, cap)[i] == s.done[i]);
            }
        }
    }
    plans
}

/// A group of the split is well sized: its estimate is the header plus its tasks'
/// estimates, and it stays within `cap` unless it holds a single task.
pub open spec fn well_sized(g: (Seq<TaskView>, nat), cap: nat) -> bool {
    &&& g.1 == header_lines() + sum_lines(g.0)
    &&& (g.1 <= cap || g.0.len() <= 1)
}

proof fn lemma_split_fold(ts: Seq<TaskView>, cap: nat)
    ensures
        flatten_groups(split_fold(ts, cap).done) + split_fold(ts, cap).cur == ts,
        split_fold(ts, cap).cur.len() == 0 <==> ts.len() == 0,
        forall|i: int|
            0 <= i < split_fold(ts, cap).done.len() ==> well_sized(#[trigger] split_fold(ts, cap).done[i], cap),
        well_sized((split_fold(ts, cap).cur, split_fold(ts, cap).lines), cap),
    decreases ts.len(),
{
    if ts.len() == 0 {
        assert(flatten_groups(Seq::<(Seq<TaskView>, nat)>::empty()) + Seq::<TaskView>::empty() =~= ts);
    } else {
        let init = ts.drop_last();
        let t = ts.last();
        lemma_split_fold(init, cap);
        let s = split_fold(init, cap);
        let s2 = split_fold(ts, cap);
        assert(s2 == split_step(s, t, cap));
        let tl = task_lines(t);
        if s.lines + tl > cap && s.cur.len() > 0 {
            let done2 = s.done.push((s.cur, s.lines));
            assert(done2.drop_last() == s.done);
            assert(flatten_groups(done2) == flatten_groups(s.done) + s.cur);
            assert(flatten_groups(done2) + seq![t] =~= (flatten_groups(s.done) + s.cur).push(t));
            assert(init.push(t) =~= ts);
            assert(seq![t].drop_last() =~= Seq::<TaskView>::empty());
            assert(seq![t].last() == t);
            assert(sum_lines(Seq::<TaskView>::empty()) == 0);
            assert(sum_lines(seq![t]) == sum_lines(seq![t].drop_last()) + task_lines(seq![t].last()));
            assert(sum_lines(seq![t]) == tl);
            assert forall|i: int| 0 <= i < done2.len() implies well_sized(#[trigger] done2[i], cap) by {
                if i < s.done.len() {
                    assert(done2[i] == s.done[i]);
                }
            }
        } else {
            assert(s.cur.push(t).drop_last() == s.cur);
            assert(sum_lines(s.cur.push(t)) == sum_lines(s.cur) + tl);
            assert(flatten_groups(s.done) + s.cur.push(t) =~= (flatten_groups(s.done) + s.cur).push(t));
            assert(init.push(t) =~= ts);
        }
    }
}

/// Splitting keeps every task, in order: the tasks of the plans, one plan after the
/// other, are the tasks given.
pub proof fn split_keeps_tasks_in_order(ts: Seq<TaskView>, cap: nat)
    ensures
        flatten_groups(split_groups(ts, cap)) == ts,
{
    lemma_split_fold(ts, cap);
    let s = split_fold(ts, cap);
    if s.cur.len() > 0 {
        assert(s.done.push((s.cur, s.lines)).drop_last() == s.done);
    } else {
        let g = seq![(Seq::<TaskView>::empty(), header_lines())];
        assert(g.drop_last() =~= Seq::<(Seq<TaskView>, nat)>::empty());
        assert(flatten_groups(g) =~= ts);
    }
}

/// Every plan of a split is well sized: its estimate is the header plus its tasks'
/// estimates, and it stays within the cap unless it holds a single task.
pub proof fn split_respects_cap(ts: Seq<TaskView>, cap: nat)
    ensures
        split_groups(ts, cap).len() >= 1,
        forall|i: int| 0 <= i < split_groups(ts, cap).len() ==> well_sized(#[trigger] split_groups(ts, cap)[i], cap),
{
    lemma_split_fold(ts, cap);
    let s = split_fold(ts, cap);
    let gs = split_groups(ts, cap);
    assert forall|i: int| 0 <= i < gs.len() implies well_sized(#[trigger] gs[i], cap) by {
        if s.cur.len() > 0 {
            if i < s.done.len() {
                assert(gs[i] == s.done[i]);
            }
        } else {
            assert(sum_lines(Seq::<TaskView>::empty()) == 0);
        }
    }
}

/// A plan's line budget never exceeds the split threshold.
pub proof fn plan_budget_within_threshold(
    phase: Seq<char>,
    wave: Seq<char>,
    idx: nat,
    tasks: Seq<TaskView>,
    lines: nat,
    cfg: SizingConfig,
)
    requires
        cfg.auto_split_over <= u32::MAX,
    ensures
        spec_make_plan(phase, wave, idx, tasks, lines, cfg).budget_lines <= cfg.auto_split_over,
{
}

/// Plans are closed only when full: every closed plan holds a task, and the next
/// plan's first task would have taken it over the cap.
proof fn lemma_split_greedy(ts: Seq<TaskView>, cap: nat)
    ensures
        forall|i: int| 0 <= i < split_fold(ts, cap).done.len() ==> (#[trigger] split_fold(ts, cap).done[i]).0.len() > 0,
        forall|i: int|
            0 <= i < split_fold(ts, cap).done.len() - 1 ==> (#[trigger] split_fold(ts, cap).done[i]).1
                + task_lines(split_fold(ts, cap).done[i + 1].0[0]) > cap,
        split_fold(ts, cap).done.len() > 0 ==> split_fold(ts, cap).cur.len() > 0
            && split_fold(ts, cap).done.last().1 + task_lines(split_fold(ts, cap).cur[0]) > cap,
    decreases ts.len(),
{
    if ts.len() > 0 {
        let init = ts.drop_last();
        let t = ts.last();
        lemma_split_greedy(init, cap);
        let s = split_fold(init, cap);
        let s2 = split_fold(ts, cap);
        assert(s2 == split_step(s, t, cap));
        let tl = task_lines(t);
        if s.lines + tl > cap && s.cur.len() > 0 {
            let done2 = s.done.push((s.cur, s.lines));
            assert(s2.done == done2);
            assert forall|i: int| 0 <= i < done2.len() implies (#[trigger] done2[i]).0.len() > 0 by {
                if i < s.done.len() {
                    assert(done2[i] == s.done[i]);
                }
            }
            assert forall|i: int| 0 <= i < done2.len() - 1 implies (#[trigger] done2[i]).1
                + task_lines(done2[i + 1].0[0]) > cap by {
                assert(done2[i] == s.done[i]);
                if i < s.done.len() - 1 {
                    assert(done2[i + 1] == s.done[i + 1]);
                } else {
                    assert(done2[i + 1] == (s.cur, s.lines));
                }
            }
            assert(s2.cur == seq![t]);
        } else {
            assert(s2.done == s.done);
            assert(s2.cur == s.cur.push(t));
            if s.done.len() > 0 {
                assert(s2.cur[0] == s.cur[0]);
            }
        }
    }
}

/// Tasks that fit under the cap together are never split.
proof fn lemma_fits_in_one(ts: Seq<TaskView>, cap: nat)
    requires
        header_lines() + sum_lines(ts) <= cap,
    ensures
        split_fold(ts, cap).done.len() == 0,
    decreases ts.len(),
{
    if ts.len() > 0 {
        let init = ts.drop_last();
        lemma_fits_in_one(init, cap);
        lemma_split_fold(init, cap);
        let s = split_fold(init, cap);
        assert(flatten_groups(s.done) =~= Seq::<TaskView>::empty());
        assert(s.cur =~= init);
        assert(split_fold(ts, cap) == split_step(s, ts.last(), cap));
    }
}

/// Plans are closed only when full. When tasks are split, every plan holds a task,
/// and each plan but the last was closed because the first task of the next plan would
/// have taken it over the cap; tasks that fit together under the cap (with the
/// plan header) make a single plan.
pub proof fn split_closes_only_full_plans(ts: Seq<TaskView>, cap: nat)
    ensures
        ts.len() > 0 ==> forall|i: int|
            0 <= i < split_groups(ts, cap).len() ==> (#[trigger] split_groups(ts, cap)[i]).0.len() > 0,
        forall|i: int|
            0 <= i < split_groups(ts, cap).len() - 1 ==> (#[trigger] split_groups(ts, cap)[i]).1
                + task_lines(split_groups(ts, cap)[i + 1].0[0]) > cap,
        header_lines() + sum_lines(ts) <= cap ==> split_groups(ts, cap).len() == 1,
{
    if header_lines() + sum_lines(ts) <= cap {
        lemma_fits_in_one(ts, cap);
    }
    lemma_split_greedy(ts, cap);
    lemma_split_fold(ts, cap);
    let s = split_fold(ts, cap);
    let gs = split_groups(ts, cap);
    if s.cur.len() > 0 {
        assert forall|i: int| 0 <= i < gs.len() implies (#[trigger] gs[i]).0.len() > 0 by {
            if i < s.done.len() {
                assert(gs[i] == s.done[i]);
            }
        }
        assert forall|i: int| 0 <= i < gs.len() - 1 implies (#[trigger] gs[i]).1 + task_lines(gs[i + 1].0[0]) > cap by {
            assert(gs[i] == s.done[i]);
            if i < s.done.len() - 1 {
                assert(gs[i + 1] == s.done[i + 1]);
            } else {
                assert(gs[i + 1] == (s.cur, s.lines));
            }
        }
    }
}

/// A task is estimated at eight lines of XML plus one line per full eight bytes of its
/// prose (action, check and outcome), and at least one line of prose: the prose
/// estimate `p` is the largest number with `8 * p <= bytes`, or 1 when that is 0.
pub proof fn task_estimate_counts_prose_bytes(t: TaskView)
    ensures
        task_lines(t) >= 9,
        task_bytes(t) >= 16 ==> 8 * (task_lines(t) - 8) <= task_bytes(t) < 8 * (task_lines(t) - 8) + 8,
        task_bytes(t) < 16 ==> task_lines(t) == 9,
{
    let b = task_bytes(t);
    assert(8 * (b / 8) <= b < 8 * (b / 8) + 8) by (nonlinear_arith);
}

/// A plan's line budget is its estimate, unless that is over the split threshold, when
/// it is the threshold.
pub proof fn plan_budget_is_estimate_up_to_threshold(
    phase: Seq<char>,
    wave: Seq<char>,
    idx: nat,
    tasks: Seq<TaskView>,
    lines: nat,
    cfg: SizingConfig,
)
    ensures
        lines <= cfg.auto_split_over ==> spec_make_plan(phase, wave, idx, tasks, lines, cfg).budget_lines == lines as u32,
        lines > cfg.auto_split_over ==> spec_make_plan(phase, wave, idx, tasks, lines, cfg).budget_lines
            == cfg.auto_split_over as u32,
        spec_make_plan(phase, wave, idx, tasks, lines, cfg).tasks == tasks,
{
}

} // verus!
