//! The planning tree: phases, their waves and the plans of each wave, and the text
//! files that record them.
use vstd::prelude::*;
use crate::planner::profile::{profile_named, ProfileId};
use crate::planner::xml_plan::{spec_from_xml, string_seq, PlanView, XmlPlan};
use crate::text::{
    char_index, first_occurrence_from, find_sub, has_sub, lemma_char_index_is, occurs_at,
    skip_ws, starts_with, strip_cr, trim_end,
    chars_of, owned, front_matter, last_char_index, line_split, lines_of, push_chars, push_str,
    replace_char, replace_chars, rfind_char, split_front_matter, string_from, strip_prefix,
    strip_prefix_chars, tail_chars, texts, trim, trim_chars,
};

verus! {

/// A phase of the work and its waves.
#[derive(Debug, Clone)]
pub struct PhaseNode {
    pub id: String,
    pub profile: ProfileId,
    pub waves: Vec<WaveNode>,
}

/// A wave of plans that may run side by side.
#[derive(Debug, Clone)]
pub struct WaveNode {
    pub id: String,
    pub plans: Vec<XmlPlan>,
}

/// The planning tree on disk: a directory per phase, holding `PHASE.md` and a
/// directory per wave, which holds `WAVE.md` and a directory per plan with its
/// `PLAN.xml`.
pub struct PlanningTree;

/// The text of `PHASE.md`: front matter with the id and profile, and a heading.
pub open spec fn phase_md_text(id: Seq<char>, profile: ProfileId) -> Seq<char> {
    "---\nid: "@ + id + "\nprofile: "@ + profile.spec_name() + "\n---\n# Phase "@ + id + "\n"@
}

/// The text of `WAVE.md`: front matter with the id, and a heading.
pub open spec fn wave_md_text(id: Seq<char>) -> Seq<char> {
    "---\nid: "@ + id + "\n---\n# Wave "@ + id + "\n"@
}

/// The last `/`-separated segment of a plan id: the name of its directory.
pub open spec fn slug_of(id: Seq<char>) -> Seq<char> {
    id.skip(last_char_index(id, '/') + 1)
}

/// The profile that a `profile: ` line among `ls` names: the first such line decides,
/// and a name other than `P1` .. `P9` gives P4.
pub open spec fn profile_in_lines(ls: Seq<Seq<char>>) -> Option<ProfileId>
    decreases ls.len(),
{
    if ls.len() == 0 {
        None
    } else {
        match strip_prefix(ls[0], "profile: "@) {
            Some(v) => Some(
                match profile_named(trim(v)) {
                    Some(p) => p,
                    None => ProfileId::P4,
                },
            ),
            None => profile_in_lines(ls.drop_first()),
        }
    }
}

/// The profile a `PHASE.md` declares in its front matter; P4 when it declares none.
pub open spec fn declared_profile(s: Seq<char>) -> ProfileId {
    match front_matter(s) {
        Some((fm, _)) => match profile_in_lines(line_split(fm)) {
            Some(p) => p,
            None => ProfileId::P4,
        },
        None => ProfileId::P4,
    }
}

impl PlanningTree {
    /// The text of the `PHASE.md` of `phase` (see `phase_md_text`).
    pub fn phase_markdown(phase: &PhaseNode) -> (r: String)
        ensures
            r@ == phase_md_text(phase.id@, phase.profile),
    {
        let mut s = String::new();
        push_str(&mut s, "---\nid: ");
        push_str(&mut s, phase.id.as_str());
        push_str(&mut s, "\nprofile: ");
        let name = phase.profile.to_string();
        push_str(&mut s, name.as_str());
        push_str(&mut s, "\n---\n# Phase ");
        push_str(&mut s, phase.id.as_str());
        push_str(&mut s, "\n");
        assert(s@ =~= phase_md_text(phase.id@, phase.profile));
        s
    }

    /// The text of the `WAVE.md` of `wave` (see `wave_md_text`).
    pub fn wave_markdown(wave: &WaveNode) -> (r: String)
        ensures
            r@ == wave_md_text(wave.id@),
    {
        let mut s = String::new();
        push_str(&mut s, "---\nid: ");
        push_str(&mut s, wave.id.as_str());
        push_str(&mut s, "\n---\n# Wave ");
        push_str(&mut s, wave.id.as_str());
        push_str(&mut s, "\n");
        assert(s@ =~= wave_md_text(wave.id@));
        s
    }

    /// The directory name of the plan `plan_id` (see `slug_of`).
    pub fn plan_slug(plan_id: &str) -> (r: String)
        ensures
            r@ == slug_of(plan_id@),
    {
        let v = chars_of(plan_id);
        let start = match rfind_char(&v, '/') {
            Some(k) => k + 1,
            None => 0,
        };
        let tail = tail_chars(&v, start);
        string_from(&tail)
    }
}

/// The profile declared in the front matter of `content` (see `declared_profile`).
pub fn extract_profile_from_frontmatter(content: &str) -> (r: ProfileId)
    ensures
        r == declared_profile(content@),
{
    let v = chars_of(content);
    let (fm, body) = match split_front_matter(&v) {
        Some(parts) => parts,
        None => return ProfileId::P4,
    };
    let lines = lines_of(&fm);
    let mut i: usize = 0;
    assert(texts(lines@).skip(0) == texts(lines@));
    while i < lines.len()
        invariant
            i <= lines.len(),
            front_matter(content@) == Some((fm@, body@)),
            texts(lines@) == line_split(fm@),
            profile_in_lines(line_split(fm@)) == profile_in_lines(texts(lines@).skip(i as int)),
        decreases lines.len() - i,
    {
        let ghost rest = texts(lines@).skip(i as int);
        assert(rest[0] == lines@[i as int]@);
        assert(rest.drop_first() == texts(lines@).skip(i + 1));
        match strip_prefix_chars(&lines[i], "profile: ") {
            Some(v) => {
                let t = trim_chars(&v);
                let s = string_from(&t);
                return match ProfileId::from_name(s.as_str()) {
                    Some(p) => p,
                    None => ProfileId::P4,
                };
            },
            None => {},
        }
        i = i + 1;
    }
    assert(texts(lines@).skip(i as int) =~= Seq::<Seq<char>>::empty());
    ProfileId::P4
}

/// The plans that the texts `xmls` read as, in order; texts that do not read as a plan
/// are passed over.
pub open spec fn parsed_plans(xmls: Seq<Seq<char>>) -> Seq<PlanView>
    decreases xmls.len(),
{
    if xmls.len() == 0 {
        seq![]
    } else {
        let rest = parsed_plans(xmls.drop_last());
        match spec_from_xml(xmls.last()) {
            Ok(p) => rest.push(p),
            Err(_) => rest,
        }
    }
}

/// The views of a list of plans.
pub open spec fn plan_views(ps: Seq<XmlPlan>) -> Seq<PlanView> {
    ps.map_values(|p: XmlPlan| p@)
}

/// A wave as plain values: its id and the views of its plans.
pub open spec fn wave_view(w: WaveNode) -> (Seq<char>, Seq<PlanView>) {
    (w.id@, plan_views(w.plans@))
}

/// The waves of the phase `phase` read from `ws`, pairs of a wave's directory name and
/// the texts of its plan files: each wave is named `{phase}/{name}` and holds the plans
/// that read; a wave with no such plan is left out; the order is kept.
pub open spec fn loaded_waves(phase: Seq<char>, ws: Seq<(Seq<char>, Seq<Seq<char>>)>) -> Seq<(Seq<char>, Seq<PlanView>)>
    decreases ws.len(),
{
    if ws.len() == 0 {
        seq![]
    } else {
        let rest = loaded_waves(phase, ws.drop_last());
        let ps = parsed_plans(ws.last().1);
        if ps.len() == 0 {
            rest
        } else {
            rest.push((phase + "/"@ + ws.last().0, ps))
        }
    }
}

/// The inputs of `assemble_phase` as plain values.
pub open spec fn wave_inputs(ws: Seq<(String, Vec<String>)>) -> Seq<(Seq<char>, Seq<Seq<char>>)> {
    ws.map_values(|w: (String, Vec<String>)| (w.0@, string_seq(w.1@)))
}

/// The plans that `xmls` read as (see `parsed_plans`).
fn parse_plans(xmls: &Vec<String>) -> (r: Vec<XmlPlan>)
    ensures
        plan_views(r@) == parsed_plans(string_seq(xmls@)),
{
    let ghost xs = string_seq(xmls@);
    let mut r: Vec<XmlPlan> = Vec::new();
    let mut i: usize = 0;
    while i < xmls.len()
        invariant
            i <= xmls.len(),
            xs == string_seq(xmls@),
            plan_views(r@) == parsed_plans(xs.take(i as int)),
        decreases xmls.len() - i,
    {
        assert(xs.take(i + 1).drop_last() == xs.take(i as int));
        assert(xs.take(i + 1).last() == xmls@[i as int]@);
        match XmlPlan::from_xml(xmls[i].as_str()) {
            Ok(p) => {
                r.push(p);
                assert(plan_views(r@) =~= parsed_plans(xs.take(i as int)).push(p@));
            },
            Err(_) => {},
        }
        i = i + 1;
    }
    assert(xs.take(xmls.len() as int) == xs);
    r
}

/// The phase named `name` as it is loaded from disk: its profile is what `phase_md`,
/// the text of its `PHASE.md`, declares, and its waves are read from `waves`, pairs of
/// a wave's directory name and the texts of the `PLAN.xml` files under it (see
/// `loaded_waves`).
pub fn assemble_phase(name: String, phase_md: &str, waves: Vec<(String, Vec<String>)>) -> (r: PhaseNode)
    ensures
        r.id@ == name@,
        r.profile == declared_profile(phase_md@),
        r.waves@.map_values(|w: WaveNode| wave_view(w)) == loaded_waves(name@, wave_inputs(waves@)),
{
    let profile = extract_profile_from_frontmatter(phase_md);
    let ghost ws = wave_inputs(waves@);
    let mut out: Vec<WaveNode> = Vec::new();
    let mut i: usize = 0;
    while i < waves.len()
        invariant
            i <= waves.len(),
            ws == wave_inputs(waves@),
            out@.map_values(|w: WaveNode| wave_view(w)) == loaded_waves(name@, ws.take(i as int)),
        decreases waves.len() - i,
    {
        assert(ws.take(i + 1).drop_last() == ws.take(i as int));
        assert(ws.take(i + 1).last() == (waves@[i as int].0@, string_seq(waves@[i as int].1@)));
        let plans = parse_plans(&waves[i].1);
        if plans.len() > 0 {
            let mut id = owned(name.as_str());
            push_str(&mut id, "/");
            push_str(&mut id, waves[i].0.as_str());
            let ghost before = out@.map_values(|w: WaveNode| wave_view(w));
            assert(id@ == name@ + "/"@ + waves@[i as int].0@);
            out.push(WaveNode { id, plans });
            assert(out@.map_values(|w: WaveNode| wave_view(w)) =~= before.push(wave_view(out@.last())));
        } else {
            assert(plan_views(plans@).len() == 0);
        }
        i = i + 1;
    }
    assert(ws.take(waves.len() as int) == ws);
    PhaseNode { id: name, profile, waves: out }
}

/// The front matter of a `PHASE.md` text is its `id:` line and its `profile:` line.
proof fn lemma_phase_front_matter(id: Seq<char>, n: Seq<char>)
    requires
        !id.contains('\n'),
        n.len() == 2,
        n[0] != '\n',
        n[1] != '\n',
    ensures
        front_matter("---\nid: "@ + id + "\nprofile: "@ + n + "\n---\n# Phase "@ + id + "\n"@)
            matches Some((fm, _)) && fm == "id: "@ + id + "\nprofile: "@ + n,
{
    reveal_strlit("---\nid: ");
    reveal_strlit("id: ");
    reveal_strlit("\nprofile: ");
    reveal_strlit("\n---\n# Phase ");
    reveal_strlit("\n");
    reveal_strlit("---\n");
    reveal_strlit("\n---\n");
    let l = id.len() as int;
    let s = "---\nid: "@ + id + "\nprofile: "@ + n + "\n---\n# Phase "@ + id + "\n"@;
    let close = "\n---\n"@;
    assert(s.take(4) =~= "---\n"@);
    let after = s.skip(4);
    let tail = "\n---\n# Phase "@ + id + "\n"@;
    let fm = "id: "@ + id + "\nprofile: "@ + n;
    assert(after =~= fm + tail);
    let e = 16 + l;
    assert(fm.len() == e);
    assert(after.subrange(e, e + 5) =~= close);
    assert forall|j: int| 0 <= j < e implies !occurs_at(after, close, j) by {
        if occurs_at(after, close, j) {
            assert(after.subrange(j, j + 5)[0] == '\n');
            assert(after.subrange(j, j + 5)[1] == '-');
            assert(after[j] == fm[j]);
            if 4 <= j < 4 + l {
                assert(fm[j] == id[j - 4]);
                assert(!(id[j - 4] == '\n'));
            } else if j == 4 + l {
                assert(after[j + 1] == 'p');
            } else if 4 + l < j < 14 + l {
                assert(fm[j] == "\nprofile: "@[j - 4 - l]);
            } else if 14 + l <= j {
                assert(fm[j] == n[j - 14 - l]);
            }
        }
    }
    assert(first_occurrence_from(after, close, 0, e));
    assert(has_sub(after, close));
    let k = choose|i: int| first_occurrence_from(after, close, 0, i);
    if k < e {
        assert(!occurs_at(after, close, k));
    }
    if e < k {
        assert(!occurs_at(after, close, e));
    }
    assert(find_sub(after, close) == Some(e));
    assert(after.take(e) =~= fm);
}

/// The lines of the front matter of a `PHASE.md` text.
proof fn lemma_phase_lines(id: Seq<char>, n: Seq<char>)
    requires
        !id.contains('\n'),
        n.len() == 2,
        n[0] != '\n',
        n[1] != '\n',
    ensures
        line_split("id: "@ + id + "\nprofile: "@ + n)
            == seq![strip_cr("id: "@ + id), "profile: "@ + n],
{
    reveal_strlit("id: ");
    reveal_strlit("\nprofile: ");
    reveal_strlit("profile: ");
    let l = id.len() as int;
    let fm = "id: "@ + id + "\nprofile: "@ + n;
    let first = "id: "@ + id;
    let second = "profile: "@ + n;
    assert forall|j: int| 0 <= j < fm.len() && j < 4 + l implies fm[j] != '\n' by {
        if 4 <= j {
            assert(fm[j] == id[j - 4]);
            assert(!(id[j - 4] == '\n'));
        }
    }
    assert(fm[4 + l] == '\n');
    lemma_char_index_is(fm, '\n', 4 + l);
    assert(fm.take(4 + l) =~= first);
    assert(fm.skip(5 + l) =~= second);
    assert forall|j: int| 0 <= j < second.len() implies second[j] != '\n' by {
        if j >= 9 {
            assert(second[j] == n[j - 9]);
        }
    }
    lemma_char_index_is(second, '\n', -1);
    assert(line_split(second) == seq![second]);
    assert(line_split(fm) =~= seq![strip_cr(first), second]);
}

/// What `phase_markdown` writes, `extract_profile_from_frontmatter` reads back: the
/// profile of a phase survives a write and a load of its `PHASE.md`, for every phase
/// id without a line break.
pub proof fn phase_profile_reads_back(id: Seq<char>, p: ProfileId)
    requires
        !id.contains('\n'),
    ensures
        declared_profile(phase_md_text(id, p)) == p,
{
    reveal_strlit("id: ");
    reveal_strlit("profile: ");
    reveal_strlit("P1");
    reveal_strlit("P2");
    reveal_strlit("P3");
    reveal_strlit("P4");
    reveal_strlit("P5");
    reveal_strlit("P6");
    reveal_strlit("P7");
    reveal_strlit("P8");
    reveal_strlit("P9");
    let n = p.spec_name();
    assert(n.len() == 2 && n[0] == 'P' && '1' <= n[1] <= '9');
    lemma_phase_front_matter(id, n);
    lemma_phase_lines(id, n);
    let head = strip_cr("id: "@ + id);
    let second = "profile: "@ + n;
    assert(head.len() >= 4 && head[0] == 'i');
    assert(!starts_with(head, "profile: "@)) by {
        if head.len() >= 9 {
            assert(head.take(9)[0] == 'i');
        }
    }
    assert(strip_prefix(second, "profile: "@) == Some(n)) by {
        assert(second.take(9) =~= "profile: "@);
        assert(second.skip(9) =~= n);
    }
    assert(skip_ws(n) == n);
    assert(trim_end(n) == n);
    let ls = seq![head, second];
    assert(ls.drop_first() =~= seq![second]);
    assert(profile_named(n) == Some(p));
    assert(profile_in_lines(ls.drop_first()) == Some(p));
    assert(profile_in_lines(ls) == Some(p));
    let fm = "id: "@ + id + "\nprofile: "@ + n;
    assert(line_split(fm) == ls);
    assert(front_matter(phase_md_text(id, p)) matches Some((f, _)) && f == fm);
}

// ------------------------------------------------------------------
// The planning graph
// ------------------------------------------------------------------

/// The node name of an id in the graph: its `/` replaced by `_`.
pub open spec fn node_name(id: Seq<char>) -> Seq<char> {
    replace_char(id, '/', '_')
}

/// The graph lines of the plans of a wave.
pub open spec fn plans_graph(wave_node: Seq<char>, plans: Seq<Seq<char>>) -> Seq<char>
    decreases plans.len(),
{
    if plans.len() == 0 {
        seq![]
    } else {
        plans_graph(wave_node, plans.drop_last()) + "  "@ + wave_node + " --> "@ + node_name(plans.last())
            + "[\"Plan: "@ + plans.last() + "\"]\n"@
    }
}

/// The ids of the plans of a wave.
pub open spec fn plan_ids(w: WaveNode) -> Seq<Seq<char>> {
    w.plans@.map_values(|p: XmlPlan| p.id@)
}

/// The graph lines of a wave of the phase `phase_id`: the edge from the phase, then
/// its plans.
pub open spec fn wave_graph(phase_id: Seq<char>, w: WaveNode) -> Seq<char> {
    "  "@ + phase_id + " --> "@ + node_name(w.id@) + "[\"Wave: "@ + w.id@ + "\"]\n"@ + plans_graph(
        node_name(w.id@),
        plan_ids(w),
    )
}

/// The graph lines of the waves of a phase.
pub open spec fn waves_graph(phase_id: Seq<char>, ws: Seq<WaveNode>) -> Seq<char>
    decreases ws.len(),
{
    if ws.len() == 0 {
        seq![]
    } else {
        waves_graph(phase_id, ws.drop_last()) + wave_graph(phase_id, ws.last())
    }
}

/// The graph lines of a phase: its node, then its waves.
pub open spec fn phase_graph(p: PhaseNode) -> Seq<char> {
    "  "@ + p.id@ + "[\"Phase: "@ + p.id@ + "\"]\n"@ + waves_graph(p.id@, p.waves@)
}

/// The graph lines of the phases.
pub open spec fn phases_graph(ps: Seq<PhaseNode>) -> Seq<char>
    decreases ps.len(),
{
    if ps.len() == 0 {
        seq![]
    } else {
        phases_graph(ps.drop_last()) + phase_graph(ps.last())
    }
}

/// The Mermaid graph of the planning tree: a top-down graph of phases, waves and
/// plans, or a single `empty` node when there is no phase.
pub open spec fn planning_graph(ps: Seq<PhaseNode>) -> Seq<char> {
    "graph TD\n"@ + phases_graph(ps) + if ps.len() == 0 {
        "  empty[\"No phases found\"]\n"@
    } else {
        seq![]
    }
}

/// Appends the graph lines of a wave to `out`.
fn push_wave_graph(out: &mut String, phase_id: &str, w: &WaveNode)
    ensures
        final(out)@ == old(out)@ + wave_graph(phase_id@, *w),
{
    let ghost start = out@;
    let idv = chars_of(w.id.as_str());
    let node = replace_chars(&idv, '/', '_');
    push_str(out, "  ");
    push_str(out, phase_id);
    push_str(out, " --> ");
    push_chars(out, &node);
    push_str(out, "[\"Wave: ");
    push_str(out, w.id.as_str());
    push_str(out, "\"]\n");
    let ghost head = out@;
    let ghost ids = plan_ids(*w);
    let mut i: usize = 0;
    while i < w.plans.len()
        invariant
            i <= w.plans.len(),
            ids == plan_ids(*w),
            node@ == node_name(w.id@),
            out@ == head + plans_graph(node@, ids.take(i as int)),
        decreases w.plans.len() - i,
    {
        let pv = chars_of(w.plans[i].id.as_str());
        let pnode = replace_chars(&pv, '/', '_');
        push_str(out, "  ");
        push_chars(out, &node);
        push_str(out, " --> ");
        push_chars(out, &pnode);
        push_str(out, "[\"Plan: ");
        push_str(out, w.plans[i].id.as_str());
        push_str(out, "\"]\n");
        assert(ids[i as int] == w.plans@[i as int].id@);
        assert(ids.take(i + 1).drop_last() == ids.take(i as int));
        assert(out@ =~= head + plans_graph(node@, ids.take(i + 1)));
        i = i + 1;
    }
    assert(ids.take(w.plans.len() as int) == ids);
    assert(out@ =~= start + wave_graph(phase_id@, *w));
}

/// The Mermaid graph of the phases `phases` (see `planning_graph`).
pub fn dump_planning_graph(phases: &Vec<PhaseNode>) -> (r: String)
    ensures
        r@ == planning_graph(phases@),
{
    let mut out = String::new();
    push_str(&mut out, "graph TD\n");
    let ghost head = out@;
    let mut i: usize = 0;
    while i < phases.len()
        invariant
            i <= phases.len(),
            out@ == head + phases_graph(phases@.take(i as int)),
        decreases phases.len() - i,
    {
        let p = &phases[i];
        let ghost before = out@;
        push_str(&mut out, "  ");
        push_str(&mut out, p.id.as_str());
        push_str(&mut out, "[\"Phase: ");
        push_str(&mut out, p.id.as_str());
        push_str(&mut out, "\"]\n");
        let ghost mid = out@;
        let mut j: usize = 0;
        while j < p.waves.len()
            invariant
                j <= p.waves.len(),
                out@ == mid + waves_graph(p.id@, p.waves@.take(j as int)),
            decreases p.waves.len() - j,
        {
            push_wave_graph(&mut out, p.id.as_str(), &p.waves[j]);
            assert(p.waves@.take(j + 1).drop_last() == p.waves@.take(j as int));
            j = j + 1;
        }
        assert(p.waves@.take(p.waves.len() as int) == p.waves@);
        assert(out@ =~= before + phase_graph(*p));
        assert(phases@.take(i + 1).drop_last() == phases@.take(i as int));
        assert(out@ =~= head + phases_graph(phases@.take(i + 1)));
        i = i + 1;
    }
    assert(phases@.take(phases.len() as int) == phases@);
    if phases.len() == 0 {
        push_str(&mut out, "  empty[\"No phases found\"]\n");
    }
    assert(out@ =~= planning_graph(phases@));
    out
}

} // verus!
