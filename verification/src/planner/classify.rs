//! Classifies an objective into a profile by horizon, risk and novelty.
use vstd::prelude::*;
use crate::planner::profile::{ProfileId, profile_with_number};
use crate::text::{
    chars_of, contains_chars, ends_with, ends_with_chars, has_sub, is_ws, matches_at, occurs_at,
    owned, parse_unsigned, parse_unsigned_chars, split_ws, starts_with, starts_with_chars,
    tail_chars, texts, to_lowercase, unicode_lower, words, find_sub, find_chars, chars_eq,
};

verus! {

/// `c` is an ASCII letter or digit.
pub open spec fn is_alnum(c: char) -> bool {
    ('0' <= c <= '9') || ('a' <= c <= 'z') || ('A' <= c <= 'Z')
}

/// `k` occurs in `t` at `i` with no ASCII letter or digit right before or after it.
pub open spec fn word_at(t: Seq<char>, k: Seq<char>, i: int) -> bool {
    &&& occurs_at(t, k, i)
    &&& (i == 0 || !is_alnum(t[i - 1]))
    &&& (i + k.len() >= t.len() || !is_alnum(t[i + k.len()]))
}

/// `t` contains the keyword `k`: as a plain substring when `k` holds a space, as a
/// whole word otherwise.
pub open spec fn has_word(t: Seq<char>, k: Seq<char>) -> bool {
    if has_sub(k, " "@) {
        has_sub(t, k)
    } else {
        exists|i: int| word_at(t, k, i)
    }
}

/// Whether `c` is an ASCII letter or digit.
fn is_alnum_char(c: char) -> (r: bool)
    ensures
        r == is_alnum(c),
{
    ('0' <= c && c <= '9') || ('a' <= c && c <= 'z') || ('A' <= c && c <= 'Z')
}

/// Whether `text` contains `keyword` (see `has_word`).
fn contains_word(text: &Vec<char>, keyword: &str) -> (r: bool)
    ensures
        r == has_word(text@, keyword@),
{
    let k = chars_of(keyword);
    let space = chars_of(" ");
    if contains_chars(&k, &space) {
        return contains_chars(text, &k);
    }
    if k.len() > text.len() {
        assert forall|i: int| !word_at(text@, k@, i) by {}
        return false;
    }
    let last = text.len() - k.len();
    let mut i: usize = 0;
    while i <= last
        invariant
            k@ == keyword@,
            !has_sub(k@, " "@),
            last == text.len() - k.len(),
            i <= last + 1,
            forall|j: int| 0 <= j < i ==> !word_at(text@, k@, j),
        decreases last + 1 - i,
    {
        if matches_at(text, &k, i) {
            let before_ok = i == 0 || !is_alnum_char(text[i - 1]);
            let end = i + k.len();
            let after_ok = end >= text.len() || !is_alnum_char(text[end]);
            if before_ok && after_ok {
                assert(word_at(text@, k@, i as int));
                return true;
            }
        }
        if i == last {
            assert forall|j: int| !word_at(text@, k@, j) by {
                if 0 <= j && j <= last {
                    assert(j < i + 1);
                }
            }
            return false;
        }
        i = i + 1;
    }
    false
}

/// `t` contains one of the keywords `ks`.
pub open spec fn has_any_word(t: Seq<char>, ks: Seq<Seq<char>>) -> bool {
    exists|i: int| 0 <= i < ks.len() && has_word(t, ks[i])
}

/// `t` contains one of the keywords `ks` as a substring.
pub open spec fn has_any_sub(t: Seq<char>, ks: Seq<Seq<char>>) -> bool {
    exists|i: int| 0 <= i < ks.len() && has_sub(t, ks[i])
}

/// The texts of a list of string slices.
pub open spec fn strs(ks: Seq<&str>) -> Seq<Seq<char>> {
    ks.map_values(|k: &str| k@)
}

/// Whether `text` contains one of `ks` as a keyword (see `has_word`).
fn contains_any_word(text: &Vec<char>, ks: &[&str]) -> (r: bool)
    ensures
        r == has_any_word(text@, strs(ks@)),
{
    let mut i: usize = 0;
    while i < ks.len()
        invariant
            i <= ks.len(),
            forall|j: int| 0 <= j < i ==> !has_word(text@, strs(ks@)[j]),
        decreases ks.len() - i,
    {
        if contains_word(text, ks[i]) {
            assert(strs(ks@)[i as int] == ks@[i as int]@);
            return true;
        }
        i = i + 1;
    }
    false
}

/// Whether `text` contains one of `ks` as a substring.
fn contains_any_sub(text: &Vec<char>, ks: &[&str]) -> (r: bool)
    ensures
        r == has_any_sub(text@, strs(ks@)),
{
    let mut i: usize = 0;
    while i < ks.len()
        invariant
            i <= ks.len(),
            forall|j: int| 0 <= j < i ==> !has_sub(text@, strs(ks@)[j]),
        decreases ks.len() - i,
    {
        let k = chars_of(ks[i]);
        assert(strs(ks@)[i as int] == ks@[i as int]@);
        if contains_chars(text, &k) {
            return true;
        }
        i = i + 1;
    }
    false
}

/// How long the work of an objective runs.
#[derive(Debug, PartialEq, Eq, Clone, Copy, Structural)]
pub enum Horizon {
    Short,
    Mid,
    Long,
}

/// How much harm a mistake in the work could do.
#[derive(Debug, PartialEq, Eq, Clone, Copy, Structural)]
pub enum Risk {
    Low,
    Med,
    High,
}

/// Whether the work treads known ground.
#[derive(Debug, PartialEq, Eq, Clone, Copy, Structural)]
pub enum Novelty {
    Routine,
    Exploration,
}

/// Keywords of long work.
pub open spec fn long_keywords() -> Seq<Seq<char>> {
    seq![
        "rewrite all"@,
        "redesign"@,
        "phase"@,
        "migrate all"@,
        "refactor entire"@,
        "complete overhaul"@,
    ]
}

/// Keywords of short work.
pub open spec fn short_keywords() -> Seq<Seq<char>> {
    seq!["typo"@, "fix"@, "one line"@, "rename"@, "update one"@, "doc"@]
}

/// Number of non-overlapping occurrences of `p` in `s`, scanning from the left
/// (`str::matches(..).count()`).
pub open spec fn count_matches(s: Seq<char>, p: Seq<char>) -> nat
    decreases s.len(),
{
    if p.len() == 0 {
        0
    } else {
        match find_sub(s, p) {
            None => 0,
            Some(i) => {
                proof {
                    crate::text::lemma_find_within(s, p, i);
                }
                1 + count_matches(s.skip(i + p.len()), p)
            },
        }
    }
}

/// `w` is a milestone tag: `m` followed by a number that fits in a `u32`.
pub open spec fn is_milestone_tag(w: Seq<char>) -> bool {
    &&& w.len() > 1
    &&& w[0] == 'm'
    &&& parse_unsigned(w.skip(1), u32::MAX as nat) is Some
}

/// Number of milestone tags among the words `ws`.
pub open spec fn count_tags(ws: Seq<Seq<char>>) -> nat
    decreases ws.len(),
{
    if ws.len() == 0 {
        0
    } else {
        count_tags(ws.drop_last()) + if is_milestone_tag(ws.last()) {
            1nat
        } else {
            0nat
        }
    }
}

/// The horizon of an objective: long work by keyword, short work by keyword or by a
/// length of at most five words, long again when it names two or more milestones;
/// otherwise mid.
pub open spec fn spec_horizon(objective: Seq<char>) -> Horizon {
    let lower = unicode_lower(objective);
    if has_any_word(lower, long_keywords()) {
        Horizon::Long
    } else if has_any_word(lower, short_keywords()) {
        Horizon::Short
    } else if words(objective).len() <= 5 {
        Horizon::Short
    } else if count_matches(lower, "milestone"@) + count_tags(words(lower)) >= 2 {
        Horizon::Long
    } else {
        Horizon::Mid
    }
}

/// Number of non-overlapping occurrences of `p` in `s` (see `count_matches`).
fn count_matches_exec(s: &Vec<char>, p: &Vec<char>) -> (r: usize)
    requires
        p.len() > 0,
    ensures
        r == count_matches(s@, p@),
{
    let mut count: usize = 0;
    let mut start: usize = 0;
    let mut rest = tail_chars(s, 0);
    assert(s@.skip(0) == s@);
    while start <= s.len()
        invariant
            p.len() > 0,
            start <= s.len(),
            rest@ == s@.skip(start as int),
            count + count_matches(rest@, p@) == count_matches(s@, p@),
            count <= start,
        decreases s.len() - start,
    {
        match find_chars(&rest, p) {
            None => {
                return count;
            },
            Some(i) => {
                let next = start + i + p.len();
                assert(rest@.skip(i + p@.len()) == s@.skip(next as int));
                rest = tail_chars(s, next);
                start = next;
                count = count + 1;
            },
        }
    }
    count
}

/// Whether `w` is a milestone tag (see `is_milestone_tag`).
fn is_milestone_word(w: &Vec<char>) -> (r: bool)
    ensures
        r == is_milestone_tag(w@),
{
    if w.len() <= 1 || w[0] != 'm' {
        return false;
    }
    let digits = tail_chars(w, 1);
    match parse_unsigned_chars(&digits, 4294967295) {
        Some(_) => true,
        None => false,
    }
}

/// The horizon of `objective` (see `spec_horizon`).
pub fn classify_horizon(objective: &str) -> (r: Horizon)
    ensures
        r == spec_horizon(objective@),
{
    let lower_s = to_lowercase(objective);
    let lower = chars_of(lower_s.as_str());
    let long_kw = ["rewrite all", "redesign", "phase", "migrate all", "refactor entire", "complete overhaul"];
    let short_kw = ["typo", "fix", "one line", "rename", "update one", "doc"];
    assert(strs(long_kw@) =~= long_keywords());
    assert(strs(short_kw@) =~= short_keywords());
    if contains_any_word(&lower, &long_kw) {
        return Horizon::Long;
    }
    if contains_any_word(&lower, &short_kw) {
        return Horizon::Short;
    }
    let obj = chars_of(objective);
    let obj_words = split_ws(&obj);
    if obj_words.len() <= 5 {
        return Horizon::Short;
    }
    let milestone = chars_of("milestone");
    proof {
        reveal_strlit("milestone");
    }
    let mut milestone_count = count_matches_exec(&lower, &milestone);
    let lower_words = split_ws(&lower);
    let mut i: usize = 0;
    let mut tags: usize = 0;
    while i < lower_words.len()
        invariant
            i <= lower_words.len(),
            texts(lower_words@) == words(lower@),
            tags == count_tags(texts(lower_words@).take(i as int)),
            tags <= i,
        decreases lower_words.len() - i,
    {
        assert(texts(lower_words@).take(i + 1).drop_last() == texts(lower_words@).take(i as int));
        if is_milestone_word(&lower_words[i]) {
            tags = tags + 1;
        }
        i = i + 1;
    }
    assert(texts(lower_words@).take(i as int) == texts(lower_words@));
    if milestone_count >= 2 || tags >= 2 || milestone_count + tags >= 2 {
        return Horizon::Long;
    }
    Horizon::Mid
}


/// Keywords of high-risk work.
pub open spec fn high_keywords() -> Seq<Seq<char>> {
    seq![
        "auth"@,
        "security"@,
        "migration"@,
        "schema"@,
        "crypto"@,
        "secret"@,
        "compliance"@,
        "upstream"@,
    ]
}

/// Keywords of low-risk work.
pub open spec fn low_keywords() -> Seq<Seq<char>> {
    seq!["typo"@, "doc"@, "comment"@, "test"@, "fixture"@, "readme"@]
}

/// Path segments of high-risk files.
pub open spec fn high_path_patterns() -> Seq<Seq<char>> {
    seq!["migrations"@, "auth"@, "crypto"@, "secrets"@, ".patches/upstream"@]
}

/// The lower-case path `f` lies under, or is, the segment `pat`.
pub open spec fn path_has_segment(f: Seq<char>, pat: Seq<char>) -> bool {
    ||| has_sub(f, seq!['/'] + pat + seq!['/'])
    ||| starts_with(f, pat + seq!['/'])
    ||| ends_with(f, seq!['/'] + pat)
    ||| f == pat
    ||| (has_sub(pat, seq!['/']) && has_sub(f, pat))
}

/// One of `files` touches a high-risk path segment.
pub open spec fn touches_high_risk_path(files: Seq<Seq<char>>) -> bool {
    exists|i: int, j: int|
        0 <= i < files.len() && 0 <= j < high_path_patterns().len() && path_has_segment(
            unicode_lower(files[i]),
            high_path_patterns()[j],
        )
}

/// The risk of an objective touching `files`: high by keyword or by path, low by
/// keyword, otherwise medium.
pub open spec fn spec_risk(objective: Seq<char>, files: Seq<Seq<char>>) -> Risk {
    let lower = unicode_lower(objective);
    if has_any_word(lower, high_keywords()) {
        Risk::High
    } else if touches_high_risk_path(files) {
        Risk::High
    } else if has_any_word(lower, low_keywords()) {
        Risk::Low
    } else {
        Risk::Med
    }
}

/// The text `a + b + c`.
fn concat3(a: &str, b: &str, c: &str) -> (r: Vec<char>)
    ensures
        r@ == a@ + b@ + c@,
{
    let mut r = chars_of(a);
    let mut vb = chars_of(b);
    let mut vc = chars_of(c);
    r.append(&mut vb);
    r.append(&mut vc);
    r
}

/// Whether the lower-case path `f` lies under, or is, the segment `pat`.
fn has_segment(f: &Vec<char>, pat: &str) -> (r: bool)
    ensures
        r == path_has_segment(f@, pat@),
{
    let inner = concat3("/", pat, "/");
    let leading = concat3("", pat, "/");
    let trailing = concat3("/", pat, "");
    let p = chars_of(pat);
    let slash = chars_of("/");
    proof {
        reveal_strlit("/");
        reveal_strlit("");
        assert(inner@ == seq!['/'] + pat@ + seq!['/']);
        assert(leading@ =~= pat@ + seq!['/']);
        assert(trailing@ =~= seq!['/'] + pat@);
        assert(slash@ == seq!['/']);
    }
    contains_chars(f, &inner) || starts_with_chars(f, &leading) || ends_with_chars(f, &trailing)
        || chars_eq(f, &p) || (contains_chars(&p, &slash) && contains_chars(f, &p))
}

/// The risk of `objective` touching `files` (see `spec_risk`).
pub fn classify_risk(objective: &str, files: &[&str]) -> (r: Risk)
    ensures
        r == spec_risk(objective@, strs(files@)),
{
    let lower_s = to_lowercase(objective);
    let lower = chars_of(lower_s.as_str());
    let high_kw = ["auth", "security", "migration", "schema", "crypto", "secret", "compliance", "upstream"];
    let low_kw = ["typo", "doc", "comment", "test", "fixture", "readme"];
    let pats = ["migrations", "auth", "crypto", "secrets", ".patches/upstream"];
    assert(strs(high_kw@) =~= high_keywords());
    assert(strs(low_kw@) =~= low_keywords());
    assert(strs(pats@) =~= high_path_patterns());
    if contains_any_word(&lower, &high_kw) {
        return Risk::High;
    }
    let mut i: usize = 0;
    while i < files.len()
        invariant
            i <= files.len(),
            strs(pats@) == high_path_patterns(),
            forall|a: int, b: int|
                0 <= a < i && 0 <= b < high_path_patterns().len() ==> !path_has_segment(
                    unicode_lower(strs(files@)[a]),
                    high_path_patterns()[b],
                ),
        decreases files.len() - i,
    {
        let fl_s = to_lowercase(files[i]);
        let fl = chars_of(fl_s.as_str());
        assert(strs(files@)[i as int] == files@[i as int]@);
        let mut j: usize = 0;
        while j < pats.len()
            invariant
                i < files.len(),
                j <= pats.len(),
                fl@ == unicode_lower(strs(files@)[i as int]),
                strs(pats@) == high_path_patterns(),
                forall|b: int| 0 <= b < j ==> !path_has_segment(fl@, high_path_patterns()[b]),
            decreases pats.len() - j,
        {
            assert(strs(pats@)[j as int] == pats@[j as int]@);
            if has_segment(&fl, pats[j]) {
                assert(touches_high_risk_path(strs(files@)));
                return Risk::High;
            }
            j = j + 1;
        }
        i = i + 1;
    }
    if contains_any_word(&lower, &low_kw) {
        return Risk::Low;
    }
    Risk::Med
}

/// Keywords of exploratory work.
pub open spec fn exploration_keywords() -> Seq<Seq<char>> {
    seq!["spike"@, "explore"@, "research"@, "unknown"@, "new tech"@, "first time"@]
}

/// The novelty of an objective: exploration when its lower-case text holds one of the
/// exploration keywords.
pub open spec fn spec_novelty(objective: Seq<char>) -> Novelty {
    if has_any_sub(unicode_lower(objective), exploration_keywords()) {
        Novelty::Exploration
    } else {
        Novelty::Routine
    }
}

/// The novelty of `objective` (see `spec_novelty`).
pub fn classify_novelty(objective: &str) -> (r: Novelty)
    ensures
        r == spec_novelty(objective@),
{
    let lower_s = to_lowercase(objective);
    let lower = chars_of(lower_s.as_str());
    let kws = ["spike", "explore", "research", "unknown", "new tech", "first time"];
    assert(strs(kws@) =~= exploration_keywords());
    if contains_any_sub(&lower, &kws) {
        Novelty::Exploration
    } else {
        Novelty::Routine
    }
}

/// The profile number for a horizon, risk and novelty.
pub open spec fn spec_profile_number(h: Horizon, r: Risk, n: Novelty) -> int {
    match h {
        Horizon::Short => match r {
            Risk::Low => 1,
            Risk::Med => 2,
            Risk::High => 3,
        },
        Horizon::Mid => match r {
            Risk::High => 6,
            _ => if n == Novelty::Routine {
                4
            } else {
                5
            },
        },
        Horizon::Long => match r {
            Risk::High => 9,
            _ => if n == Novelty::Routine {
                7
            } else {
                8
            },
        },
    }
}

/// The profile number for a horizon, risk and novelty (see `spec_profile_number`).
pub fn profile_number(horizon: Horizon, risk: Risk, novelty: Novelty) -> (r: u8)
    ensures
        r == spec_profile_number(horizon, risk, novelty),
        1 <= r <= 9,
{
    match (horizon, risk, novelty) {
        (Horizon::Short, Risk::Low, _) => 1,
        (Horizon::Short, Risk::Med, _) => 2,
        (Horizon::Short, Risk::High, _) => 3,
        (Horizon::Mid, Risk::Low, Novelty::Routine) | (Horizon::Mid, Risk::Med, Novelty::Routine) => 4,
        (Horizon::Mid, Risk::Low, Novelty::Exploration) | (
            Horizon::Mid,
            Risk::Med,
            Novelty::Exploration,
        ) => 5,
        (Horizon::Mid, Risk::High, _) => 6,
        (Horizon::Long, Risk::Low, Novelty::Routine) | (Horizon::Long, Risk::Med, Novelty::Routine) => 7,
        (Horizon::Long, Risk::Low, Novelty::Exploration) | (
            Horizon::Long,
            Risk::Med,
            Novelty::Exploration,
        ) => 8,
        (Horizon::Long, Risk::High, _) => 9,
    }
}

/// The settings that a profile turns on: whether a swarm runs, which gates a plan
/// passes, and the share of the context that the main session may fill, in percent.
#[derive(Debug)]
pub struct Dials {
    pub swarm: bool,
    pub gates: Vec<String>,
    pub main_cap_percent: u32,
}

/// The texts of a list of strings.
pub open spec fn string_texts(v: Seq<String>) -> Seq<Seq<char>> {
    v.map_values(|s: String| s@)
}

/// The gates of profile number `p`.
pub open spec fn gates_of(p: int) -> Seq<Seq<char>> {
    if p == 1 {
        seq![]
    } else if p == 2 {
        seq!["plan_adversarial"@]
    } else if p == 4 || p == 5 {
        seq!["plan_adversarial"@, "scope_reduction"@]
    } else if p == 6 {
        seq!["plan_adversarial"@, "scope_reduction"@, "security"@]
    } else {
        seq!["plan_adversarial"@, "scope_reduction"@, "security"@, "oracle_consult"@]
    }
}

/// The main-session context cap of profile number `p`, in percent.
pub open spec fn main_cap_of(p: int) -> u32 {
    if p <= 2 {
        100
    } else if p <= 5 {
        70
    } else if p == 6 {
        60
    } else if p <= 8 {
        40
    } else {
        30
    }
}

/// `d` holds the settings of profile number `p`: no swarm for P1 and P2.
pub open spec fn dials_of(d: Dials, p: int) -> bool {
    &&& d.swarm == (p > 2)
    &&& string_texts(d.gates@) == gates_of(p)
    &&& d.main_cap_percent == main_cap_of(p)
}

/// A list of owned strings from string slices.
fn strings(ks: &[&str]) -> (r: Vec<String>)
    ensures
        string_texts(r@) == strs(ks@),
{
    let mut r: Vec<String> = Vec::new();
    let mut i: usize = 0;
    while i < ks.len()
        invariant
            i <= ks.len(),
            string_texts(r@) == strs(ks@).take(i as int),
        decreases ks.len() - i,
    {
        let ghost old_r = r@;
        let x = owned(ks[i]);
        r.push(x);
        assert(string_texts(r@) =~= string_texts(old_r).push(x@));
        assert(strs(ks@).take(i + 1) =~= strs(ks@).take(i as int).push(ks@[i as int]@));
        assert(string_texts(r@) =~= strs(ks@).take(i + 1));
        i = i + 1;
    }
    assert(strs(ks@).take(i as int) == strs(ks@));
    r
}

/// The settings of profile number `p` (see `dials_of`).
pub fn profile_dials(p: u8) -> (r: Dials)
    requires
        1 <= p <= 9,
    ensures
        dials_of(r, p as int),
{
    if p == 1 {
        let g: [&str; 0] = [];
        assert(strs(g@) =~= gates_of(1));
        Dials { swarm: false, gates: strings(&g), main_cap_percent: 100 }
    } else if p == 2 {
        let g = ["plan_adversarial"];
        assert(strs(g@) =~= gates_of(2));
        Dials { swarm: false, gates: strings(&g), main_cap_percent: 100 }
    } else if p == 3 {
        let g = ["plan_adversarial", "scope_reduction", "security", "oracle_consult"];
        assert(strs(g@) =~= gates_of(3));
        Dials { swarm: true, gates: strings(&g), main_cap_percent: 70 }
    } else if p == 4 || p == 5 {
        let g = ["plan_adversarial", "scope_reduction"];
        assert(strs(g@) =~= gates_of(p as int));
        Dials { swarm: true, gates: strings(&g), main_cap_percent: 70 }
    } else if p == 6 {
        let g = ["plan_adversarial", "scope_reduction", "security"];
        assert(strs(g@) =~= gates_of(6));
        Dials { swarm: true, gates: strings(&g), main_cap_percent: 60 }
    } else if p == 7 || p == 8 {
        let g = ["plan_adversarial", "scope_reduction", "security", "oracle_consult"];
        assert(strs(g@) =~= gates_of(p as int));
        Dials { swarm: true, gates: strings(&g), main_cap_percent: 40 }
    } else {
        let g = ["plan_adversarial", "scope_reduction", "security", "oracle_consult"];
        assert(strs(g@) =~= gates_of(9));
        Dials { swarm: true, gates: strings(&g), main_cap_percent: 30 }
    }
}

/// Keywords that force a profile of at least P6.
pub open spec fn escalation_keywords() -> Seq<Seq<char>> {
    seq!["auth"@, "migration"@, "crypto"@, "secrets"@]
}

/// An objective or one of its files names a sensitive area (by lower-case substring).
pub open spec fn spec_should_force_escalate(objective: Seq<char>, files: Seq<Seq<char>>) -> bool {
    ||| has_any_sub(unicode_lower(objective), escalation_keywords())
    ||| exists|i: int|
        0 <= i < files.len() && has_any_sub(unicode_lower(files[i]), escalation_keywords())
}

/// Whether `objective` or one of `files` names a sensitive area.
pub fn should_force_escalate(objective: &str, files: &[&str]) -> (r: bool)
    ensures
        r == spec_should_force_escalate(objective@, strs(files@)),
{
    let kws = ["auth", "migration", "crypto", "secrets"];
    assert(strs(kws@) =~= escalation_keywords());
    let lower_s = to_lowercase(objective);
    let lower = chars_of(lower_s.as_str());
    if contains_any_sub(&lower, &kws) {
        return true;
    }
    let mut i: usize = 0;
    while i < files.len()
        invariant
            i <= files.len(),
            strs(kws@) == escalation_keywords(),
            forall|a: int|
                0 <= a < i ==> !has_any_sub(unicode_lower(strs(files@)[a]), escalation_keywords()),
        decreases files.len() - i,
    {
        let fl_s = to_lowercase(files[i]);
        let fl = chars_of(fl_s.as_str());
        assert(strs(files@)[i as int] == files@[i as int]@);
        if contains_any_sub(&fl, &kws) {
            return true;
        }
        i = i + 1;
    }
    false
}

/// The outcome of classifying an objective.
#[derive(Debug)]
pub struct ClassifyResult {
    pub auto_profile: String,
    pub final_profile: String,
    pub force_escalated: bool,
    pub dials: Dials,
}

/// The profile number that horizon, risk and novelty give an objective.
pub open spec fn auto_number(objective: Seq<char>, files: Seq<Seq<char>>) -> int {
    spec_profile_number(spec_horizon(objective), spec_risk(objective, files), spec_novelty(objective))
}

/// Whether classification raises the objective to P6.
pub open spec fn forced(objective: Seq<char>, files: Seq<Seq<char>>) -> bool {
    spec_should_force_escalate(objective, files) && auto_number(objective, files) < 6
}

/// The profile number that classification settles on.
pub open spec fn final_number(objective: Seq<char>, files: Seq<Seq<char>>) -> int {
    if forced(objective, files) {
        6
    } else {
        auto_number(objective, files)
    }
}

/// Classifies `objective`, which touches `files`: the profile that horizon, risk and
/// novelty give, raised to P6 when the objective or a file names a sensitive area, and
/// the settings of the final profile.
pub fn classify(objective: &str, files: &[&str]) -> (r: ClassifyResult)
    ensures
        r.auto_profile@ == profile_with_number(auto_number(objective@, strs(files@))).spec_name(),
        r.final_profile@ == profile_with_number(final_number(objective@, strs(files@))).spec_name(),
        r.force_escalated == forced(objective@, strs(files@)),
        dials_of(r.dials, final_number(objective@, strs(files@))),
{
    let horizon = classify_horizon(objective);
    let risk = classify_risk(objective, files);
    let novelty = classify_novelty(objective);
    let auto_num = profile_number(horizon, risk, novelty);
    let auto_profile = profile_of_number(auto_num).to_string();
    let force_escalated = should_force_escalate(objective, files) && auto_num < 6;
    let final_num: u8 = if force_escalated {
        6
    } else {
        auto_num
    };
    let final_profile = profile_of_number(final_num).to_string();
    let dials = profile_dials(final_num);
    ClassifyResult { auto_profile, final_profile, force_escalated, dials }
}

/// The profile with number `n`.
fn profile_of_number(n: u8) -> (r: ProfileId)
    requires
        1 <= n <= 9,
    ensures
        r == profile_with_number(n as int),
{
    if n == 1 {
        ProfileId::P1
    } else if n == 2 {
        ProfileId::P2
    } else if n == 3 {
        ProfileId::P3
    } else if n == 4 {
        ProfileId::P4
    } else if n == 5 {
        ProfileId::P5
    } else if n == 6 {
        ProfileId::P6
    } else if n == 7 {
        ProfileId::P7
    } else if n == 8 {
        ProfileId::P8
    } else {
        ProfileId::P9
    }
}

/// Classification never settles below the profile that horizon, risk and novelty give,
/// and a forced escalation settles exactly on P6.
pub proof fn classification_never_lowers(objective: Seq<char>, files: Seq<Seq<char>>)
    ensures
        final_number(objective, files) >= auto_number(objective, files),
        forced(objective, files) ==> final_number(objective, files) == 6,
        1 <= final_number(objective, files) <= 9,
        spec_should_force_escalate(objective, files) ==> final_number(objective, files) >= 6,
{
}

/// A high-risk objective never runs inline: its profile swarms and passes the security
/// gate.
pub proof fn high_risk_is_guarded(objective: Seq<char>, files: Seq<Seq<char>>)
    requires
        spec_risk(objective, files) == Risk::High,
    ensures
        final_number(objective, files) >= 3,
        gates_of(final_number(objective, files)).contains("security"@),
{
    let g = gates_of(final_number(objective, files));
    assert(g[2] == "security"@);
}

/// The ordering of horizons: short, mid, long.
pub open spec fn horizon_rank(h: Horizon) -> int {
    match h {
        Horizon::Short => 0,
        Horizon::Mid => 1,
        Horizon::Long => 2,
    }
}

/// Some horizon, risk and novelty give the profile number `p`.
pub open spec fn profile_reached(p: int) -> bool {
    exists|a: Horizon, b: Risk, c: Novelty| #[trigger] spec_profile_number(a, b, c) == p
}

/// The profile table is a ranking of the nine kinds of work:
/// - every profile P1..P9 is the profile of some horizon, risk and novelty;
/// - a longer horizon always gives a higher profile;
/// - within a horizon, high risk gives the highest profile of that horizon;
/// - for short work the profile rises with risk (low, medium, high) and novelty plays
///   no part;
/// - for mid and long work low and medium risk are treated alike, and exploration is
///   exactly one profile above routine work.
/// These facts fix the table: short work is P1..P3 by risk, mid work P4 (routine),
/// P5 (exploration), P6 (high risk), long work P7, P8, P9 likewise.
pub proof fn profile_table_ranks_work(h: Horizon, r: Risk, n: Novelty, h2: Horizon, r2: Risk, n2: Novelty)
    ensures
        1 <= spec_profile_number(h, r, n) <= 9,
        forall|p: int| 1 <= p <= 9 ==> #[trigger] profile_reached(p),
        horizon_rank(h) < horizon_rank(h2) ==> spec_profile_number(h, r, n) < spec_profile_number(h2, r2, n2),
        r != Risk::High ==> spec_profile_number(h, r, n) < spec_profile_number(h, Risk::High, n2),
        h == Horizon::Short ==> spec_profile_number(h, Risk::Low, n) < spec_profile_number(h, Risk::Med, n2),
        h == Horizon::Short ==> spec_profile_number(h, r, n) == spec_profile_number(h, r, n2),
        h != Horizon::Short && r != Risk::High ==> spec_profile_number(h, r, n) == spec_profile_number(h, Risk::Low, n),
        h != Horizon::Short && r != Risk::High ==> spec_profile_number(h, r, Novelty::Exploration)
            == spec_profile_number(h, r, Novelty::Routine) + 1,
        spec_profile_number(Horizon::Short, Risk::Med, n) == 2,
{
    assert forall|p: int| 1 <= p <= 9 implies #[trigger] profile_reached(p) by {
        if p == 1 {
            assert(spec_profile_number(Horizon::Short, Risk::Low, Novelty::Routine) == 1);
        } else if p == 2 {
            assert(spec_profile_number(Horizon::Short, Risk::Med, Novelty::Routine) == 2);
        } else if p == 3 {
            assert(spec_profile_number(Horizon::Short, Risk::High, Novelty::Routine) == 3);
        } else if p == 4 {
            assert(spec_profile_number(Horizon::Mid, Risk::Low, Novelty::Routine) == 4);
        } else if p == 5 {
            assert(spec_profile_number(Horizon::Mid, Risk::Low, Novelty::Exploration) == 5);
        } else if p == 6 {
            assert(spec_profile_number(Horizon::Mid, Risk::High, Novelty::Routine) == 6);
        } else if p == 7 {
            assert(spec_profile_number(Horizon::Long, Risk::Low, Novelty::Routine) == 7);
        } else if p == 8 {
            assert(spec_profile_number(Horizon::Long, Risk::Low, Novelty::Exploration) == 8);
        } else {
            assert(spec_profile_number(Horizon::Long, Risk::High, Novelty::Routine) == 9);
        }
    }
}

/// The settings follow the profile: P1 runs inline with no gate; P2 runs inline but a
/// plan still passes the adversarial gate; from P3 on a swarm runs and every plan
/// passes the adversarial and scope gates; from P6 on also the security gate; P3 and
/// P7..P9 also consult the oracle. The context cap never grows with the profile.
pub proof fn dials_follow_profile(p: int, q: int)
    requires
        1 <= p <= 9,
        1 <= q <= 9,
    ensures
        gates_of(1).len() == 0,
        gates_of(2) == seq!["plan_adversarial"@],
        p >= 2 ==> gates_of(p)[0] == "plan_adversarial"@,
        p >= 3 ==> gates_of(p).contains("scope_reduction"@),
        p >= 6 || p == 3 ==> gates_of(p).contains("security"@),
        p >= 7 || p == 3 ==> gates_of(p).contains("oracle_consult"@),
        p <= q ==> main_cap_of(q) <= main_cap_of(p),
{
    let g = gates_of(p);
    if p >= 3 {
        assert(g[1] == "scope_reduction"@);
    }
    if p >= 6 || p == 3 {
        assert(g[2] == "security"@);
    }
    if p >= 7 || p == 3 {
        assert(g[3] == "oracle_consult"@);
    }
}

/// What the words of an objective say of its risk, given in full:
/// - the whole word `auth`, `security`, `migration`, `schema`, `crypto`, `secret`,
///   `compliance` or `upstream` in the lower-case objective makes it high risk;
/// - so does any file, at any position, lying under a path segment `migrations`,
///   `auth`, `crypto`, `secrets` or `.patches/upstream`;
/// - otherwise the whole word `typo`, `doc`, `comment`, `test`, `fixture` or `readme`
///   makes it low risk, and without any of these words it is of medium risk.
pub proof fn risk_by_keywords(objective: Seq<char>, files: Seq<Seq<char>>, i: int, f: int)
    ensures
        ({
            let lower = unicode_lower(objective);
            let high = seq!["auth"@, "security"@, "migration"@, "schema"@, "crypto"@, "secret"@, "compliance"@, "upstream"@];
            let paths = seq!["migrations"@, "auth"@, "crypto"@, "secrets"@, ".patches/upstream"@];
            let low = seq!["typo"@, "doc"@, "comment"@, "test"@, "fixture"@, "readme"@];
            let no_high = (forall|j: int| 0 <= j < high.len() ==> !#[trigger] has_word(lower, high[j]));
            let no_path = (forall|g: int, j: int|
                0 <= g < files.len() && 0 <= j < paths.len() ==> !#[trigger] path_has_segment(unicode_lower(files[g]), paths[j]));
            let no_low = (forall|j: int| 0 <= j < low.len() ==> !#[trigger] has_word(lower, low[j]));
            &&& (0 <= i < high.len() && has_word(lower, high[i]) ==> spec_risk(objective, files) == Risk::High)
            &&& (0 <= f < files.len() && 0 <= i < paths.len() && path_has_segment(unicode_lower(files[f]), paths[i])
                ==> spec_risk(objective, files) == Risk::High)
            &&& (no_high && no_path && 0 <= i < low.len() && has_word(lower, low[i])
                ==> spec_risk(objective, files) == Risk::Low)
            &&& (no_high && no_path && no_low ==> spec_risk(objective, files) == Risk::Med)
        }),
{
    let lower = unicode_lower(objective);
    assert(high_keywords() =~= seq!["auth"@, "security"@, "migration"@, "schema"@, "crypto"@, "secret"@, "compliance"@, "upstream"@]);
    assert(high_path_patterns() =~= seq!["migrations"@, "auth"@, "crypto"@, "secrets"@, ".patches/upstream"@]);
    assert(low_keywords() =~= seq!["typo"@, "doc"@, "comment"@, "test"@, "fixture"@, "readme"@]);
}

/// What the words of an objective say of its horizon, given in full:
/// - the word `rewrite all`, `redesign`, `phase`, `migrate all`, `refactor entire` or
///   `complete overhaul` in the lower-case objective makes it long work;
/// - otherwise the word `typo`, `fix`, `one line`, `rename`, `update one` or `doc`, or
///   a length of at most five words, makes it short work.
pub proof fn horizon_by_keywords(objective: Seq<char>, i: int)
    ensures
        ({
            let lower = unicode_lower(objective);
            let long = seq!["rewrite all"@, "redesign"@, "phase"@, "migrate all"@, "refactor entire"@, "complete overhaul"@];
            let short = seq!["typo"@, "fix"@, "one line"@, "rename"@, "update one"@, "doc"@];
            let no_long = (forall|j: int| 0 <= j < long.len() ==> !#[trigger] has_word(lower, long[j]));
            &&& (0 <= i < long.len() && has_word(lower, long[i]) ==> spec_horizon(objective) == Horizon::Long)
            &&& (no_long && 0 <= i < short.len() && has_word(lower, short[i]) ==> spec_horizon(objective) == Horizon::Short)
            &&& (no_long && words(objective).len() <= 5 ==> spec_horizon(objective) == Horizon::Short)
        }),
{
    assert(long_keywords() =~= seq!["rewrite all"@, "redesign"@, "phase"@, "migrate all"@, "refactor entire"@, "complete overhaul"@]);
    assert(short_keywords() =~= seq!["typo"@, "fix"@, "one line"@, "rename"@, "update one"@, "doc"@]);
}

/// Novelty and forced escalation by keyword, given in full: the text `spike`,
/// `explore`, `research`, `unknown`, `new tech` or `first time` anywhere in the
/// lower-case objective makes it exploration, and routine work otherwise; the text
/// `auth`, `migration`, `crypto` or `secrets` anywhere in the lower-case objective, or
/// in any file at any position, forces escalation, and nothing else does.
pub proof fn novelty_and_escalation_by_keywords(objective: Seq<char>, files: Seq<Seq<char>>, i: int, f: int)
    ensures
        ({
            let lower = unicode_lower(objective);
            let expl = seq!["spike"@, "explore"@, "research"@, "unknown"@, "new tech"@, "first time"@];
            let esc = seq!["auth"@, "migration"@, "crypto"@, "secrets"@];
            &&& (0 <= i < expl.len() && has_sub(lower, expl[i]) ==> spec_novelty(objective) == Novelty::Exploration)
            &&& ((forall|j: int| 0 <= j < expl.len() ==> !#[trigger] has_sub(lower, expl[j]))
                ==> spec_novelty(objective) == Novelty::Routine)
            &&& (0 <= i < esc.len() && has_sub(lower, esc[i]) ==> spec_should_force_escalate(objective, files))
            &&& (0 <= f < files.len() && 0 <= i < esc.len() && has_sub(unicode_lower(files[f]), esc[i])
                ==> spec_should_force_escalate(objective, files))
            &&& ((forall|j: int| 0 <= j < esc.len() ==> !#[trigger] has_sub(lower, esc[j]))
                && (forall|g: int, j: int| 0 <= g < files.len() && 0 <= j < esc.len()
                    ==> !#[trigger] has_sub(unicode_lower(files[g]), esc[j]))
                ==> !spec_should_force_escalate(objective, files))
        }),
{
    assert(exploration_keywords() =~= seq!["spike"@, "explore"@, "research"@, "unknown"@, "new tech"@, "first time"@]);
    assert(escalation_keywords() =~= seq!["auth"@, "migration"@, "crypto"@, "secrets"@]);
}

} // verus!
