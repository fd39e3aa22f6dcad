//! Checks documents against the line budget of their tier.
use vstd::prelude::*;
use std::path::PathBuf;
use super::{Tier, tier_named};
use crate::text::{chars_of, chars_eq_str, lines_of, line_split, texts, strip_prefix, strip_prefix_chars, trim, trim_chars, string_from, front_matter, split_front_matter, find_sub, find_chars, tail_chars, slice_chars, find_char_from, char_index, parse_unsigned, parse_unsigned_chars, lemma_find_within};

verus! {

/// The tier that the `tier:` line of the first front-matter line list names, if any.
pub open spec fn tier_in_lines(ls: Seq<Seq<char>>) -> Option<Tier>
    decreases ls.len(),
{
    if ls.len() == 0 {
        None
    } else {
        match strip_prefix(ls[0], "tier: "@) {
            Some(v) => match Tier::spec_parse(trim(v)) {
                Some(t) => Some(t),
                None => tier_in_lines(ls.drop_first()),
            },
            None => tier_in_lines(ls.drop_first()),
        }
    }
}

/// The tier that a document declares in its front matter: the first `tier: ` line
/// that names a tier; `Default` when there is none.
pub open spec fn declared_tier(s: Seq<char>) -> Tier {
    match front_matter(s) {
        Some((fm, _)) => match tier_in_lines(line_split(fm)) {
            Some(t) => t,
            None => Tier::Default,
        },
        None => Tier::Default,
    }
}

/// The tier declared in the front matter of `content`, `Tier::Default` when none is.
pub fn extract_tier(content: &str) -> (r: Tier)
    ensures
        r == declared_tier(content@),
{
    let v = chars_of(content);
    let (fm, body) = match split_front_matter(&v) {
        Some(parts) => parts,
        None => return Tier::Default,
    };
    let lines = lines_of(&fm);
    let mut i: usize = 0;
    assert(texts(lines@).skip(0) == texts(lines@));
    while i < lines.len()
        invariant
            i <= lines.len(),
            front_matter(content@) == Some((fm@, body@)),
            texts(lines@) == line_split(fm@),
            tier_in_lines(line_split(fm@)) == tier_in_lines(texts(lines@).skip(i as int)),
        decreases lines.len() - i,
    {
        let ghost rest = texts(lines@).skip(i as int);
        assert(rest[0] == lines@[i as int]@);
        assert(rest.drop_first() == texts(lines@).skip(i + 1));
        match strip_prefix_chars(&lines[i], "tier: ") {
            Some(v) => {
                let t = trim_chars(&v);
                let s = string_from(&t);
                match Tier::parse(s.as_str()) {
                    Some(tier) => {
                        assert(strip_prefix(rest[0], "tier: "@) == Some(v@));
                        assert(tier_in_lines(rest) == Some(tier));
                        return tier;
                    },
                    None => {},
                }
            },
            None => {},
        }
        i = i + 1;
    }
    assert(texts(lines@).skip(i as int) =~= Seq::<Seq<char>>::empty());
    Tier::Default
}

/// A document over its line budget.
#[derive(Debug, Clone)]
pub struct Violation {
    pub path: PathBuf,
    pub tier: Tier,
    pub max_lines: usize,
    pub actual_lines: usize,
}

/// The outcome of a budget check.
#[derive(Debug)]
pub enum Verdict {
    Pass,
    Fail { violations: Vec<Violation> },
}

/// Whether `v` is the failing verdict that names exactly one violation, of `path`,
/// with the given tier, cap and line count.
pub open spec fn is_single_violation(
    v: Verdict,
    path: PathBuf,
    tier: Tier,
    max: nat,
    actual: nat,
) -> bool {
    match v {
        Verdict::Fail { violations } => {
            &&& violations@.len() == 1
            &&& violations@[0].path == path
            &&& violations@[0].tier == tier
            &&& violations@[0].max_lines == max
            &&& violations@[0].actual_lines == actual
        },
        Verdict::Pass => false,
    }
}

/// Checks the text `content` of the document at `path` against the cap of the tier
/// that it declares: it fails when it has more lines than the cap.
pub fn lint_content(path: PathBuf, content: &str) -> (r: Verdict)
    ensures
        ({
            let tier = declared_tier(content@);
            let n = line_split(content@).len();
            if n > tier.cap() {
                is_single_violation(r, path, tier, tier.cap(), n)
            } else {
                r is Pass
            }
        }),
{
    let tier = extract_tier(content);
    let v = chars_of(content);
    let line_count = lines_of(&v).len();
    if line_count > tier.max_lines() {
        let mut violations: Vec<Violation> = Vec::new();
        violations.push(
            Violation { path, tier, max_lines: tier.max_lines(), actual_lines: line_count },
        );
        Verdict::Fail { violations }
    } else {
        Verdict::Pass
    }
}

/// The line budget that a plan file declares: the value of the first `lines="..."`
/// attribute after the first `<budget`, when it parses as a `usize`.
pub open spec fn declared_budget(s: Seq<char>) -> Option<nat> {
    match find_sub(s, "<budget"@) {
        None => None,
        Some(b) => match find_sub(s.skip(b), "lines=\""@) {
            None => None,
            Some(l) => {
                let st = b + l + "lines=\""@.len();
                let q = char_index(s.skip(st), '"');
                if q < 0 {
                    None
                } else {
                    parse_unsigned(s.subrange(st, st + q), usize::MAX as nat)
                }
            },
        },
    }
}

/// The line budget that the plan file text `content` declares (see `declared_budget`).
pub fn declared_budget_lines(content: &str) -> (r: Option<usize>)
    ensures
        match r {
            Some(n) => declared_budget(content@) == Some(n as nat),
            None => declared_budget(content@) is None,
        },
{
    let v = chars_of(content);
    let open = chars_of("<budget");
    let b = match find_chars(&v, &open) {
        Some(b) => b,
        None => return None,
    };
    let from_b = tail_chars(&v, b);
    let attr = chars_of("lines=\"");
    let l = match find_chars(&from_b, &attr) {
        Some(l) => l,
        None => return None,
    };
    let st = b + l + attr.len();
    assert(from_b@.skip(l as int).take(attr@.len() as int) == attr@);
    let q = match find_char_from(&v, '"', st) {
        Some(q) => q,
        None => return None,
    };
    let digits = slice_chars(&v, st, q);
    match parse_unsigned_chars(&digits, usize::MAX as u64) {
        Some(n) => Some(n as usize),
        None => None,
    }
}

/// Checks the plan file text `content` of `path` against the budget it declares: it
/// fails when it has more lines than the declared `lines`, and passes when it declares
/// none.
pub fn lint_xml_content(path: PathBuf, content: &str) -> (r: Verdict)
    ensures
        match declared_budget(content@) {
            Some(budget) => {
                let n = line_split(content@).len();
                if n > budget {
                    is_single_violation(r, path, Tier::Default, budget, n)
                } else {
                    r is Pass
                }
            },
            None => r is Pass,
        },
{
    let v = chars_of(content);
    let actual_lines = lines_of(&v).len();
    match declared_budget_lines(content) {
        Some(budget) => {
            if actual_lines > budget {
                let mut violations: Vec<Violation> = Vec::new();
                violations.push(
                    Violation { path, tier: Tier::Default, max_lines: budget, actual_lines },
                );
                Verdict::Fail { violations }
            } else {
                Verdict::Pass
            }
        },
        None => Verdict::Pass,
    }
}

/// A document over its budget: more lines than the cap of the tier it declares.
pub open spec fn over_budget(c: Seq<char>) -> bool {
    line_split(c).len() > declared_tier(c).cap()
}

/// The violations of the documents `fs` (path and text), in order: one for each
/// document over its budget, with its tier, cap and line count.
pub open spec fn tree_violations(fs: Seq<(PathBuf, Seq<char>)>) -> Seq<(PathBuf, Tier, nat, nat)>
    decreases fs.len(),
{
    if fs.len() == 0 {
        seq![]
    } else {
        let (p, c) = fs.last();
        tree_violations(fs.drop_last()) + if over_budget(c) {
            seq![(p, declared_tier(c), declared_tier(c).cap(), line_split(c).len())]
        } else {
            seq![]
        }
    }
}

/// A violation as plain values.
pub open spec fn violation_view(v: Violation) -> (PathBuf, Tier, nat, nat) {
    (v.path, v.tier, v.max_lines as nat, v.actual_lines as nat)
}

/// The documents of a tree, as path and text.
pub open spec fn file_views(fs: Seq<(PathBuf, String)>) -> Seq<(PathBuf, Seq<char>)> {
    fs.map_values(|f: (PathBuf, String)| (f.0, f.1@))
}

/// Checks the markdown documents of a tree, given as path and text (see
/// `tree_violations`).
pub fn lint_tree(files: &Vec<(PathBuf, String)>) -> (r: Vec<Violation>)
    ensures
        r@.map_values(|v: Violation| violation_view(v)) == tree_violations(file_views(files@)),
{
    let ghost fv = file_views(files@);
    let mut out: Vec<Violation> = Vec::new();
    let mut i: usize = 0;
    while i < files.len()
        invariant
            i <= files.len(),
            fv == file_views(files@),
            out@.map_values(|v: Violation| violation_view(v)) == tree_violations(fv.take(i as int)),
        decreases files.len() - i,
    {
        let f = &files[i];
        assert(fv.take(i + 1).drop_last() == fv.take(i as int));
        assert(fv.take(i + 1).last() == (f.0, f.1@));
        let ghost before = out@;
        let verdict = lint_content(f.0.clone(), f.1.as_str());
        match verdict {
            Verdict::Fail { violations } => {
                let v = &violations[0];
                out.push(Violation { path: v.path.clone(), tier: v.tier, max_lines: v.max_lines, actual_lines: v.actual_lines });
                assert(out@ == before.push(out@.last()));
                assert(out@.map_values(|v: Violation| violation_view(v)) =~= before.map_values(|v: Violation| violation_view(v)).push(violation_view(out@.last())));
            },
            Verdict::Pass => {},
        }
        assert(out@.map_values(|v: Violation| violation_view(v)) =~= tree_violations(fv.take(i + 1)));
        i = i + 1;
    }
    assert(fv.take(files.len() as int) == fv);
    out
}

/// The tier a front-matter line names: a line `tier: X` where `X`, trimmed, names a
/// tier (in any letter case).
pub open spec fn tier_line(l: Seq<char>) -> Option<Tier> {
    match strip_prefix(l, "tier: "@) {
        Some(v) => Tier::spec_parse(trim(v)),
        None => None,
    }
}

/// Over the lines of a front matter, the first line that names a tier decides it,
/// wherever that line stands; with no such line there is no tier.
proof fn lemma_first_tier_line(ls: Seq<Seq<char>>, k: int)
    requires
        0 <= k <= ls.len(),
        forall|j: int| 0 <= j < k ==> tier_line(#[trigger] ls[j]) is None,
    ensures
        k < ls.len() && tier_line(ls[k]) is Some ==> tier_in_lines(ls) == tier_line(ls[k]),
        k == ls.len() ==> tier_in_lines(ls) is None,
    decreases k,
{
    if k > 0 {
        let t = ls.drop_first();
        assert forall|j: int| 0 <= j < k - 1 implies tier_line(#[trigger] t[j]) is None by {
            assert(t[j] == ls[j + 1]);
        }
        lemma_first_tier_line(t, k - 1);
        assert(tier_line(ls[0]) is None);
        if k < ls.len() {
            assert(t[k - 1] == ls[k]);
        }
    }
}

/// A document's tier is named by the first line of its front matter that names one,
/// wherever in the front matter that line stands: if the `k`-th line is `tier: X`
/// with `X` a tier, and no earlier line names a tier, the document's tier is `X`. A
/// document without front matter, or whose front matter names no tier, is `Default`.
pub proof fn first_tier_line_decides(s: Seq<char>, k: int)
    ensures
        front_matter(s) matches Some((fm, _)) ==> (0 <= k < line_split(fm).len()
            && tier_line(line_split(fm)[k]) is Some
            && (forall|j: int| 0 <= j < k ==> tier_line(#[trigger] line_split(fm)[j]) is None)
            ==> Some(declared_tier(s)) == tier_line(line_split(fm)[k])),
        front_matter(s) is None ==> declared_tier(s) == Tier::Default,
        front_matter(s) matches Some((fm, _)) ==> ((forall|j: int|
            0 <= j < line_split(fm).len() ==> tier_line(#[trigger] line_split(fm)[j]) is None)
            ==> declared_tier(s) == Tier::Default),
{
    match front_matter(s) {
        Some((fm, _)) => {
            let ls = line_split(fm);
            if 0 <= k < ls.len() && tier_line(ls[k]) is Some
                && forall|j: int| 0 <= j < k ==> tier_line(#[trigger] ls[j]) is None {
                lemma_first_tier_line(ls, k);
            }
            if forall|j: int| 0 <= j < ls.len() ==> tier_line(#[trigger] ls[j]) is None {
                lemma_first_tier_line(ls, ls.len() as int);
            }
        },
        None => {},
    }
}

} // verus!
