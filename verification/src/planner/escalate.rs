//! Raising a profile when the work touches files that call for more care.
use vstd::prelude::*;
use crate::planner::classify::strs;
use crate::planner::profile::ProfileId;
use crate::planner::xml_plan::string_seq;
use crate::text::owned;

verus! {

#[verifier::external_type_specification]
#[verifier::external_body]
pub struct ExGlobSetBuilder(globset::GlobSetBuilder);

#[verifier::external_type_specification]
#[verifier::external_body]
pub struct ExGlobSet(globset::GlobSet);

/// The patterns of the globs added to a builder, in order.
pub uninterp spec fn builder_patterns(b: globset::GlobSetBuilder) -> Seq<Seq<char>>;

/// `globset::Glob::new` accepts the pattern `p`.
pub uninterp spec fn glob_parses(p: Seq<char>) -> bool;

/// `globset::GlobSetBuilder::build` succeeds on globs of the patterns `ps`.
pub uninterp spec fn globset_builds(ps: Seq<Seq<char>>) -> bool;

/// The glob of the pattern `p` matches the path `path`.
pub uninterp spec fn glob_matches(p: Seq<char>, path: Seq<char>) -> bool;

/// `globset::GlobSetBuilder::new`: a builder with no glob.
#[verifier::external_body]
fn new_builder() -> (b: globset::GlobSetBuilder)
    ensures
        builder_patterns(b) == Seq::<Seq<char>>::empty(),
{
    globset::GlobSetBuilder::new()
}

/// `globset::Glob::new(p)`, and `GlobSetBuilder::add` of the glob when it parses:
/// returns whether it parsed, and the builder then holds its pattern last.
#[verifier::external_body]
fn add_pattern(b: &mut globset::GlobSetBuilder, p: &str) -> (added: bool)
    ensures
        added == glob_parses(p@),
        builder_patterns(*final(b)) == if added {
            builder_patterns(*old(b)).push(p@)
        } else {
            builder_patterns(*old(b))
        },
{
    match globset::Glob::new(p) {
        Ok(g) => {
            b.add(g);
            true
        },
        Err(_) => false,
    }
}

/// A glob set, kept beside the texts of the patterns it was built from.
struct GlobMatcher {
    set: globset::GlobSet,
    patterns: Vec<String>,
}

impl GlobMatcher {
    /// The texts of the patterns the set was built from, in order.
    closed spec fn patterns(&self) -> Seq<Seq<char>> {
        string_seq(self.patterns@)
    }
}

/// `globset::GlobSetBuilder::build`, kept with `patterns`, the texts of the builder's
/// globs: `None` when building fails.
#[verifier::external_body]
fn build_matcher(b: &globset::GlobSetBuilder, patterns: Vec<String>) -> (r: Option<GlobMatcher>)
    requires
        string_seq(patterns@) == builder_patterns(*b),
    ensures
        r is Some <==> globset_builds(builder_patterns(*b)),
        r matches Some(m) ==> m.patterns() == builder_patterns(*b),
{
    b.build().ok().map(|set| GlobMatcher { set, patterns })
}

/// `globset::GlobSet::is_match`: whether any glob of the set matches `path`.
#[verifier::external_body]
fn set_is_match(m: &GlobMatcher, path: &str) -> (r: bool)
    ensures
        r == (exists|i: int| 0 <= i < m.patterns().len() && glob_matches(#[trigger] m.patterns()[i], path@)),
{
    m.set.is_match(path)
}

/// The patterns among `ps` that parse as globs, in order.
pub open spec fn parsed_patterns(ps: Seq<Seq<char>>) -> Seq<Seq<char>>
    decreases ps.len(),
{
    if ps.len() == 0 {
        seq![]
    } else if glob_parses(ps.last()) {
        parsed_patterns(ps.drop_last()).push(ps.last())
    } else {
        parsed_patterns(ps.drop_last())
    }
}

/// Some file of `files` matches some pattern of `gs`.
pub open spec fn any_file_matches(files: Seq<Seq<char>>, gs: Seq<Seq<char>>) -> bool {
    exists|f: int, g: int| 0 <= f < files.len() && 0 <= g < gs.len() && glob_matches(gs[g], files[f])
}

/// The profile raised to at least P6.
pub open spec fn raised_to_p6(p: ProfileId) -> ProfileId {
    if p.number() < 6 {
        ProfileId::P6
    } else {
        p
    }
}

/// The profile after forced escalation: raised to at least P6 when some file matches
/// one of the patterns that parse; unchanged when there are no files or no patterns,
/// or when the patterns do not build into a set.
pub open spec fn spec_force_escalate(profile: ProfileId, files: Seq<Seq<char>>, patterns: Seq<Seq<char>>) -> ProfileId {
    if patterns.len() == 0 || files.len() == 0 {
        profile
    } else {
        let gs = parsed_patterns(patterns);
        if globset_builds(gs) && any_file_matches(files, gs) {
            raised_to_p6(profile)
        } else {
            profile
        }
    }
}

/// The profile after forced escalation (see `spec_force_escalate`).
#[must_use]
pub fn apply_force_escalate(profile: ProfileId, files: &[&str], patterns: &[String]) -> (r: ProfileId)
    ensures
        r == spec_force_escalate(profile, strs(files@), string_seq(patterns@)),
{
    if patterns.len() == 0 || files.len() == 0 {
        return profile;
    }
    let ghost ps = string_seq(patterns@);
    let mut builder = new_builder();
    let mut parsed: Vec<String> = Vec::new();
    let mut i: usize = 0;
    while i < patterns.len()
        invariant
            i <= patterns.len(),
            ps == string_seq(patterns@),
            builder_patterns(builder) == parsed_patterns(ps.take(i as int)),
            string_seq(parsed@) == builder_patterns(builder),
        decreases patterns.len() - i,
    {
        assert(ps.take(i + 1).drop_last() == ps.take(i as int));
        assert(ps.take(i + 1).last() == patterns@[i as int]@);
        if add_pattern(&mut builder, patterns[i].as_str()) {
            parsed.push(owned(patterns[i].as_str()));
            assert(string_seq(parsed@) =~= builder_patterns(builder));
        }
        i = i + 1;
    }
    assert(ps.take(patterns.len() as int) == ps);
    let set = match build_matcher(&builder, parsed) {
        Some(s) => s,
        None => {
            return profile;
        },
    };
    let ghost gs = parsed_patterns(ps);
    let ghost fs = strs(files@);
    let mut j: usize = 0;
    while j < files.len()
        invariant
            j <= files.len(),
            fs == strs(files@),
            ps == string_seq(patterns@),
            gs == parsed_patterns(ps),
            globset_builds(gs),
            patterns.len() > 0,
            files.len() > 0,
            set.patterns() == gs,
            forall|f: int, g: int| 0 <= f < j && 0 <= g < gs.len() ==> !glob_matches(gs[g], fs[f]),
        decreases files.len() - j,
    {
        assert(fs[j as int] == files@[j as int]@);
        if set_is_match(&set, files[j]) {
            proof {
                let g = choose|i: int| 0 <= i < gs.len() && glob_matches(#[trigger] gs[i], fs[j as int]);
                assert(glob_matches(gs[g], fs[j as int]));
                assert(any_file_matches(fs, gs));
                assert(fs.len() == files.len());
                assert(ps.len() == patterns.len());
            }
            return profile.escalate_to_p6();
        }
        j = j + 1;
    }
    profile
}

/// Forced escalation never lowers a profile, and what it raises lands on P6 exactly.
pub proof fn escalation_never_lowers(profile: ProfileId, files: Seq<Seq<char>>, patterns: Seq<Seq<char>>)
    ensures
        spec_force_escalate(profile, files, patterns).number() >= profile.number(),
        spec_force_escalate(profile, files, patterns) != profile
            ==> spec_force_escalate(profile, files, patterns) == ProfileId::P6,
{
}

/// Forced escalation looks at every file: when there are patterns, the patterns that
/// parse build into a set, and some file, at any position, matches some pattern that
/// parses, the profile is raised to at least P6 (and is otherwise as given); when no
/// file matches any pattern that parses, the profile is left as it is.
pub proof fn any_matching_file_escalates(
    profile: ProfileId,
    files: Seq<Seq<char>>,
    patterns: Seq<Seq<char>>,
    k: int,
    g: int,
)
    ensures
        patterns.len() > 0 && globset_builds(parsed_patterns(patterns)) && 0 <= k < files.len()
            && 0 <= g < parsed_patterns(patterns).len() && glob_matches(parsed_patterns(patterns)[g], files[k])
            ==> spec_force_escalate(profile, files, patterns).number() >= 6
                && spec_force_escalate(profile, files, patterns).number() == if profile.number() < 6 {
                    6
                } else {
                    profile.number()
                },
        (forall|f: int, h: int|
            0 <= f < files.len() && 0 <= h < parsed_patterns(patterns).len()
                ==> !glob_matches(#[trigger] parsed_patterns(patterns)[h], #[trigger] files[f]))
            ==> spec_force_escalate(profile, files, patterns) == profile,
{
}

/// The patterns used are exactly those of `patterns` that parse as globs, in the order
/// given.
pub proof fn parsed_patterns_are_those_that_parse(patterns: Seq<Seq<char>>)
    ensures
        parsed_patterns(patterns) == patterns.filter(|p: Seq<char>| glob_parses(p)),
    decreases patterns.len(),
{
    reveal(Seq::filter);
    if patterns.len() > 0 {
        parsed_patterns_are_those_that_parse(patterns.drop_last());
    }
}

} // verus!
