//! Skill manifests: the front matter of `SKILL.md` files.
use vstd::prelude::*;
use std::path::PathBuf;
use crate::paths::{path_from, path_of};
use crate::text::{
    chars_of, find_chars, find_sub, front_matter, line_split, lines_of, owned, starts_with,
    starts_with_chars, str_eq, string_from, strip_prefix, strip_prefix_chars, tail_chars, texts,
    slice_chars,
};

verus! {

/// What a skill is, when to use it, and where it lives.
#[derive(Debug, Clone)]
pub struct SkillManifest {
    pub name: String,
    pub description: String,
    pub trigger_hints: String,
    pub line_count: usize,
    pub path: PathBuf,
}

/// The value of the last line among `ls` that starts with `prefix`, after the prefix;
/// empty when none does.
pub open spec fn last_field(ls: Seq<Seq<char>>, prefix: Seq<char>) -> Seq<char>
    decreases ls.len(),
{
    if ls.len() == 0 {
        seq![]
    } else {
        match strip_prefix(ls.last(), prefix) {
            Some(v) => v,
            None => last_field(ls.drop_last(), prefix),
        }
    }
}

/// Why a skill file does not parse.
pub open spec fn parse_error(content: Seq<char>) -> Option<Seq<char>> {
    if !starts_with(content, "---\n"@) {
        Some("no front-matter"@)
    } else if front_matter(content) is None {
        Some("unclosed front-matter"@)
    } else {
        None
    }
}

/// The value of the last line of `lines` that starts with `prefix` (see `last_field`).
fn find_last_field(lines: &Vec<Vec<char>>, prefix: &str) -> (r: String)
    ensures
        r@ == last_field(texts(lines@), prefix@),
{
    let mut r = String::new();
    let mut i: usize = 0;
    assert(texts(lines@).take(0) =~= Seq::<Seq<char>>::empty());
    while i < lines.len()
        invariant
            i <= lines.len(),
            r@ == last_field(texts(lines@).take(i as int), prefix@),
        decreases lines.len() - i,
    {
        assert(texts(lines@).take(i + 1).drop_last() == texts(lines@).take(i as int));
        assert(texts(lines@).take(i + 1).last() == lines@[i as int]@);
        match strip_prefix_chars(&lines[i], prefix) {
            Some(v) => {
                r = string_from(&v);
            },
            None => {},
        }
        i = i + 1;
    }
    assert(texts(lines@).take(lines.len() as int) == texts(lines@));
    r
}

impl SkillManifest {
    /// Reads the manifest of the skill `name` from its file `content`: the file opens
    /// with a `---` line and front matter closed by another; the last `description: `
    /// and `trigger_hints: ` lines of the front matter give those fields (empty when
    /// absent), and `line_count` counts the lines after it. The path is left empty.
    pub fn parse(name: &str, content: &str) -> (r: Result<SkillManifest, String>)
        ensures
            match parse_error(content@) {
                Some(e) => r matches Err(m) && m@ == e,
                None => r matches Ok(m) && ({
                    let (fm, body) = front_matter(content@).unwrap();
                    &&& m.name@ == name@
                    &&& m.description@ == last_field(line_split(fm), "description: "@)
                    &&& m.trigger_hints@ == last_field(line_split(fm), "trigger_hints: "@)
                    &&& m.line_count == line_split(body).len()
                    &&& m.path == path_of(Seq::<char>::empty())
                }),
            },
    {
        let v = chars_of(content);
        let open = chars_of("---\n");
        if !starts_with_chars(&v, &open) {
            return Err(owned("no front-matter"));
        }
        let (fm, body) = match crate::text::split_front_matter(&v) {
            Some(parts) => parts,
            None => {
                return Err(owned("unclosed front-matter"));
            },
        };
        let fm_lines = lines_of(&fm);
        let body_lines = lines_of(&body);
        let description = find_last_field(&fm_lines, "description: ");
        let trigger_hints = find_last_field(&fm_lines, "trigger_hints: ");
        let path = path_from("");
        proof {
            reveal_strlit("");
            assert(""@ =~= Seq::<char>::empty());
        }
        Ok(SkillManifest {
            name: owned(name),
            description,
            trigger_hints,
            line_count: body_lines.len(),
            path,
        })
    }
}

/// The name of a skill from its file: the file's stem, or for a `SKILL.md` the name of
/// the directory that holds it; `unknown` where a name is missing.
pub open spec fn spec_skill_name(stem: Option<Seq<char>>, parent: Option<Seq<char>>) -> Seq<char> {
    let s = match stem {
        Some(x) => x,
        None => "unknown"@,
    };
    if s == "SKILL"@ {
        match parent {
            Some(p) => p,
            None => "unknown"@,
        }
    } else {
        s
    }
}

/// The name of a skill from the stem of its file and the name of its directory (see
/// `spec_skill_name`).
pub fn skill_name(stem: Option<&str>, parent: Option<&str>) -> (r: String)
    ensures
        r@ == spec_skill_name(
            match stem {
                Some(x) => Some(x@),
                None => None,
            },
            match parent {
                Some(x) => Some(x@),
                None => None,
            },
        ),
{
    let s = match stem {
        Some(x) => x,
        None => "unknown",
    };
    if str_eq(s, "SKILL") {
        match parent {
            Some(p) => owned(p),
            None => owned("unknown"),
        }
    } else {
        owned(s)
    }
}

} // verus!
