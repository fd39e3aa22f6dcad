//! Rule D: a finished phase gets a retrospective.
use vstd::prelude::*;
use crate::memory::mempalace::Drawer;
use crate::promoter::a_insight::tag_texts;
use crate::paths::{join_path, joined};
use std::path::PathBuf;
use crate::text::{chars_of, owned, push_str, str_eq, string_from, take_chars};

verus! {

/// Writes the retrospective of a finished phase and files it in the `cowclaw` wing.
pub struct RuleD;

/// A gate result of the phase: gate, verdict, findings.
pub type GateRow = (String, String, String);

/// A closed consultation of the phase: question, answer, outcome.
pub type ConsultRow = (String, Option<String>, Option<String>);

/// A gate row as plain values.
pub open spec fn gate_view(r: GateRow) -> (Seq<char>, Seq<char>, Seq<char>) {
    (r.0@, r.1@, r.2@)
}

/// A consultation row as plain values, with an absent answer or outcome empty.
pub open spec fn consult_view(r: ConsultRow) -> (Seq<char>, Seq<char>, Seq<char>) {
    (
        r.0@,
        match r.1 {
            Some(x) => x@,
            None => ""@,
        },
        match r.2 {
            Some(x) => x@,
            None => ""@,
        },
    )
}

/// Gate rows as plain values.
pub open spec fn gate_views(rs: Seq<GateRow>) -> Seq<(Seq<char>, Seq<char>, Seq<char>)> {
    rs.map_values(|r: GateRow| gate_view(r))
}

/// The consultation rows as plain values.
pub open spec fn consult_views(rs: Seq<ConsultRow>) -> Seq<(Seq<char>, Seq<char>, Seq<char>)> {
    rs.map_values(|r: ConsultRow| consult_view(r))
}

/// One line per gate that passed.
pub open spec fn passed_lines(rs: Seq<(Seq<char>, Seq<char>, Seq<char>)>) -> Seq<char>
    decreases rs.len(),
{
    if rs.len() == 0 {
        seq![]
    } else {
        passed_lines(rs.drop_last()) + if rs.last().1 == "pass"@ {
            "- "@ + rs.last().0 + " gate passed\n"@
        } else {
            seq![]
        }
    }
}

/// One line per gate that failed or warned.
pub open spec fn failed_lines(rs: Seq<(Seq<char>, Seq<char>, Seq<char>)>) -> Seq<char>
    decreases rs.len(),
{
    if rs.len() == 0 {
        seq![]
    } else {
        failed_lines(rs.drop_last()) + if rs.last().1 == "fail"@ || rs.last().1 == "warn"@ {
            "- "@ + rs.last().0 + " "@ + rs.last().1 + ": "@ + rs.last().2 + "\n"@
        } else {
            seq![]
        }
    }
}

/// Three lines per consultation: question, answer, outcome.
pub open spec fn consult_lines(rs: Seq<(Seq<char>, Seq<char>, Seq<char>)>) -> Seq<char>
    decreases rs.len(),
{
    if rs.len() == 0 {
        seq![]
    } else {
        consult_lines(rs.drop_last()) + "- Q: "@ + rs.last().0 + "\n  A: "@ + rs.last().1
            + "\n  Outcome: "@ + rs.last().2 + "\n"@
    }
}

/// `lines`, or `empty` when there are none.
pub open spec fn or_else(lines: Seq<char>, empty: Seq<char>) -> Seq<char> {
    if lines.len() == 0 {
        empty
    } else {
        lines
    }
}

/// The retrospective of the phase `phase_id`: front matter, what went well (the
/// gates that passed), what did not (the gates that failed or warned, with their
/// findings), the consultations, and a section left for reflection.
pub open spec fn retro_text(
    phase_id: Seq<char>,
    gates: Seq<(Seq<char>, Seq<char>, Seq<char>)>,
    consults: Seq<(Seq<char>, Seq<char>, Seq<char>)>,
) -> Seq<char> {
    "---\nphase_id: "@ + phase_id + "\ngenerated_by: rule_d\n---\n# Phase Retrospective: "@ + phase_id
        + "\n\n"@ + "## What went well\n\n"@ + or_else(passed_lines(gates), "- (no gate results recorded)\n"@)
        + "\n## What didn't go well\n\n"@ + or_else(failed_lines(gates), "- (no failures)\n"@)
        + "\n## Peer Consultations\n\n"@ + or_else(consult_lines(consults), "- (none)\n"@)
        + "\n## Do differently next time\n\n- (to be filled by reflection)\n"@
}

/// The lines of the gates whose verdict passes or fails as `want_pass` says.
fn gate_lines(gates: &Vec<GateRow>, want_pass: bool) -> (r: String)
    ensures
        r@ == if want_pass {
            passed_lines(gate_views(gates@))
        } else {
            failed_lines(gate_views(gates@))
        },
{
    let ghost gv = gate_views(gates@);
    let mut s = String::new();
    let mut i: usize = 0;
    while i < gates.len()
        invariant
            i <= gates.len(),
            gv == gate_views(gates@),
            s@ == if want_pass {
                passed_lines(gv.take(i as int))
            } else {
                failed_lines(gv.take(i as int))
            },
        decreases gates.len() - i,
    {
        let g = &gates[i];
        assert(gv.take(i + 1).drop_last() == gv.take(i as int));
        assert(gv.take(i + 1).last() == gate_view(*g));
        let ghost before = s@;
        let v = g.1.as_str();
        if want_pass {
            if str_eq(v, "pass") {
                push_str(&mut s, "- ");
                push_str(&mut s, g.0.as_str());
                push_str(&mut s, " gate passed\n");
            }
        } else if str_eq(v, "fail") || str_eq(v, "warn") {
            push_str(&mut s, "- ");
            push_str(&mut s, g.0.as_str());
            push_str(&mut s, " ");
            push_str(&mut s, v);
            push_str(&mut s, ": ");
            push_str(&mut s, g.2.as_str());
            push_str(&mut s, "\n");
        }
        assert(s@ =~= if want_pass {
            passed_lines(gv.take(i + 1))
        } else {
            failed_lines(gv.take(i + 1))
        });
        i = i + 1;
    }
    assert(gv.take(gates.len() as int) == gv);
    s
}

/// The lines of the consultations (see `consult_lines`).
fn consults_text(consults: &Vec<ConsultRow>) -> (r: String)
    ensures
        r@ == consult_lines(consult_views(consults@)),
{
    let ghost cv = consult_views(consults@);
    let mut s = String::new();
    let mut i: usize = 0;
    while i < consults.len()
        invariant
            i <= consults.len(),
            cv == consult_views(consults@),
            s@ == consult_lines(cv.take(i as int)),
        decreases consults.len() - i,
    {
        let c = &consults[i];
        assert(cv.take(i + 1).drop_last() == cv.take(i as int));
        assert(cv.take(i + 1).last() == consult_view(*c));
        proof {
            reveal_strlit("");
        }
        let a = match &c.1 {
            Some(x) => x.as_str(),
            None => "",
        };
        let o = match &c.2 {
            Some(x) => x.as_str(),
            None => "",
        };
        push_str(&mut s, "- Q: ");
        push_str(&mut s, c.0.as_str());
        push_str(&mut s, "\n  A: ");
        push_str(&mut s, a);
        push_str(&mut s, "\n  Outcome: ");
        push_str(&mut s, o);
        push_str(&mut s, "\n");
        assert(s@ =~= consult_lines(cv.take(i + 1)));
        i = i + 1;
    }
    assert(cv.take(consults.len() as int) == cv);
    s
}

impl RuleD {
    /// The retrospective of the phase `phase_id` from its gate results and closed
    /// consultations (see `retro_text`).
    pub fn retro_markdown(phase_id: &str, gates: &Vec<GateRow>, consults: &Vec<ConsultRow>) -> (r: String)
        ensures
            r@ == retro_text(phase_id@, gate_views(gates@), consult_views(consults@)),
    {
        let mut s = owned("---\nphase_id: ");
        push_str(&mut s, phase_id);
        push_str(&mut s, "\ngenerated_by: rule_d\n---\n# Phase Retrospective: ");
        push_str(&mut s, phase_id);
        push_str(&mut s, "\n\n");
        push_str(&mut s, "## What went well\n\n");
        let passed = gate_lines(gates, true);
        if passed.as_str().is_empty() {
            push_str(&mut s, "- (no gate results recorded)\n");
        } else {
            push_str(&mut s, passed.as_str());
        }
        push_str(&mut s, "\n## What didn't go well\n\n");
        let failed = gate_lines(gates, false);
        if failed.as_str().is_empty() {
            push_str(&mut s, "- (no failures)\n");
        } else {
            push_str(&mut s, failed.as_str());
        }
        push_str(&mut s, "\n## Peer Consultations\n\n");
        let cl = consults_text(consults);
        if cl.as_str().is_empty() {
            push_str(&mut s, "- (none)\n");
        } else {
            push_str(&mut s, cl.as_str());
        }
        push_str(&mut s, "\n## Do differently next time\n\n- (to be filled by reflection)\n");
        assert(s@ =~= retro_text(phase_id@, gate_views(gates@), consult_views(consults@)));
        s
    }

    /// The drawer that files the retrospective `retro` of the phase `phase_id`: titled
    /// `Retro: ` and the phase, holding the first 500 characters, tagged `retro` and
    /// the phase.
    pub fn retro_drawer(phase_id: &str, retro: &str) -> (r: Drawer)
        ensures
            r.wing@ == "cowclaw"@,
            r.title@ == "Retro: "@ + phase_id@,
            r.body@ == retro@.take(if retro@.len() < 500 { retro@.len() as int } else { 500 }),
            tag_texts(r.tags@) == seq!["retro"@, phase_id@],
    {
        let mut title = owned("Retro: ");
        push_str(&mut title, phase_id);
        let v = chars_of(retro);
        let head = take_chars(&v, 500);
        let mut tags: Vec<String> = Vec::new();
        tags.push(owned("retro"));
        tags.push(owned(phase_id));
        assert(tag_texts(tags@) =~= seq!["retro"@, phase_id@]);
        Drawer { wing: owned("cowclaw"), title, body: string_from(&head), tags }
    }

    /// The `LIKE` pattern that selects the plans of the phase `phase_id`.
    pub fn phase_pattern(phase_id: &str) -> (r: String)
        ensures
            r@ == phase_id@ + "%"@,
    {
        let mut r = owned(phase_id);
        push_str(&mut r, "%");
        r
    }

    /// Where the retrospective of the phase `phase_id` is written:
    /// `{planning_dir}/{phase_id}/RETRO.md`.
    pub fn retro_path(planning_dir: &PathBuf, phase_id: &str) -> (r: PathBuf)
        ensures
            r == joined(joined(*planning_dir, phase_id@), "RETRO.md"@),
    {
        let dir = join_path(planning_dir, phase_id);
        join_path(&dir, "RETRO.md")
    }
}

} // verus!
