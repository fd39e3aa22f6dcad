//! Reading a gate verdict from a reply that holds a JSON object.
use vstd::prelude::*;
use crate::gates::{GateVerdict, VerdictView};
use crate::json::{json_str_member, json_string_member};
use crate::text::{
    char_index, chars_of, find_char_from, last_char_index, owned, rfind_char, str_eq,
    string_from, string_from_range, take_chars,
};

verus! {

/// The span from the first `{` to the last `}` of `s`, as the positions of the two
/// braces; `None` when `s` lacks either brace.
pub open spec fn brace_span(s: Seq<char>) -> Option<(int, int)> {
    let start = char_index(s, '{');
    let end = last_char_index(s, '}');
    if start < 0 || end < 0 {
        None
    } else {
        Some((start, end))
    }
}

/// The span can be cut out of `s`: the last `}` does not stand two or more places
/// before the first `{`.
pub open spec fn span_in_order(s: Seq<char>) -> bool {
    match brace_span(s) {
        Some((start, end)) => start <= end + 1,
        None => true,
    }
}

/// The verdict that the members `verdict` and `findings` describe: `verdict` defaults
/// to `pass` and `findings` to the empty text; a verdict other than `fail` or `warn`
/// passes.
pub open spec fn verdict_of_members(verdict: Option<Seq<char>>, findings: Option<Seq<char>>) -> VerdictView {
    let v = match verdict {
        Some(x) => x,
        None => "pass"@,
    };
    let f = match findings {
        Some(x) => x,
        None => ""@,
    };
    if v == "fail"@ {
        VerdictView::Fail(f)
    } else if v == "warn"@ {
        VerdictView::Warn(f)
    } else {
        VerdictView::Pass
    }
}

/// The string member `key` of the JSON text `j`, when `j` parses and has one.
pub open spec fn str_member(j: Seq<char>, key: Seq<char>) -> Option<Seq<char>> {
    match json_str_member(j, key) {
        Some(Some(x)) => Some(x),
        _ => None,
    }
}

/// The verdict that the JSON object inside `s` states, or `None` when `s` holds no
/// brace span or the span is not JSON.
pub open spec fn stated_verdict(s: Seq<char>) -> Option<VerdictView> {
    match brace_span(s) {
        None => None,
        Some((start, end)) => {
            let j = s.subrange(start, end + 1);
            match json_str_member(j, "verdict"@) {
                None => None,
                Some(v) => Some(verdict_of_members(v, str_member(j, "findings"@))),
            }
        },
    }
}

/// The verdict of a worker's critique: the one its JSON object states, or a pass.
pub open spec fn reply_verdict(s: Seq<char>) -> VerdictView {
    match stated_verdict(s) {
        Some(v) => v,
        None => VerdictView::Pass,
    }
}

/// The verdict of an oracle's reply: the one its JSON object states, or a warning
/// quoting the first 200 characters of the reply.
pub open spec fn oracle_verdict(s: Seq<char>) -> VerdictView {
    match stated_verdict(s) {
        Some(v) => v,
        None => VerdictView::Warn(s.take(if s.len() < 200 { s.len() as int } else { 200 })),
    }
}

/// Whether the brace span of `s` can be cut out (see `span_in_order`).
pub fn braces_in_order(s: &str) -> (r: bool)
    ensures
        r == span_in_order(s@),
{
    let chars = chars_of(s);
    assert(chars@.skip(0) == chars@);
    match find_char_from(&chars, '{', 0) {
        None => true,
        Some(start) => match rfind_char(&chars, '}') {
            None => true,
            Some(end) => start <= end + 1,
        },
    }
}

/// The verdict described by the members `verdict` and `findings` of a reply (see
/// `verdict_of_members`).
pub fn verdict_from_members(verdict: Option<&str>, findings: Option<&str>) -> (r: GateVerdict)
    ensures
        r@ == verdict_of_members(
            match verdict {
                Some(v) => Some(v@),
                None => None,
            },
            match findings {
                Some(f) => Some(f@),
                None => None,
            },
        ),
{
    let f = match findings {
        Some(x) => owned(x),
        None => String::new(),
    };
    let v = match verdict {
        Some(x) => x,
        None => "pass",
    };
    proof {
        reveal_strlit("");
    }
    let ghost vs = match verdict {
        Some(v) => Some(v@),
        None => None::<Seq<char>>,
    };
    let ghost fs = match findings {
        Some(f) => Some(f@),
        None => None::<Seq<char>>,
    };
    assert(f@ == match fs { Some(x) => x, None => ""@ });
    assert(v@ == match vs { Some(x) => x, None => "pass"@ });
    if str_eq(v, "fail") {
        GateVerdict::Fail { findings: f }
    } else if str_eq(v, "warn") {
        GateVerdict::Warn { findings: f }
    } else {
        GateVerdict::Pass
    }
}

/// The verdict stated in `response` (see `stated_verdict`).
pub fn verdict_in_reply(response: &str) -> (r: Option<GateVerdict>)
    requires
        span_in_order(response@),
    ensures
        match r {
            Some(v) => stated_verdict(response@) == Some(v@),
            None => stated_verdict(response@) is None,
        },
{
    let chars = chars_of(response);
    let start = match find_char_from(&chars, '{', 0) {
        Some(k) => k,
        None => {
            assert(chars@.skip(0) == chars@);
            return None;
        },
    };
    assert(chars@.skip(0) == chars@);
    let end = match rfind_char(&chars, '}') {
        Some(k) => k,
        None => {
            return None;
        },
    };
    let json = string_from_range(&chars, start, end + 1);
    match json_string_member(json.as_str(), "verdict") {
        None => None,
        Some(verdict) => {
            let findings = match json_string_member(json.as_str(), "findings") {
                Some(Some(f)) => Some(f),
                _ => None,
            };
            let v = match &verdict {
                Some(x) => Some(x.as_str()),
                None => None,
            };
            let f = match &findings {
                Some(x) => Some(x.as_str()),
                None => None,
            };
            Some(verdict_from_members(v, f))
        },
    }
}

/// The verdict of a worker's critique: the one its JSON object states, or a pass when
/// it states none.
pub fn parse_gate_verdict(response: &str) -> (r: GateVerdict)
    requires
        span_in_order(response@),
    ensures
        r@ == reply_verdict(response@),
{
    match verdict_in_reply(response) {
        Some(v) => v,
        None => GateVerdict::Pass,
    }
}

/// The verdict of an oracle's reply: the one its JSON object states, or else a
/// warning that quotes the first 200 characters of the reply.
pub fn oracle_reply_verdict(response: &str) -> (r: GateVerdict)
    requires
        span_in_order(response@),
    ensures
        r@ == oracle_verdict(response@),
{
    match verdict_in_reply(response) {
        Some(v) => v,
        None => {
            let chars = chars_of(response);
            let head = take_chars(&chars, 200);
            GateVerdict::Warn { findings: string_from(&head) }
        },
    }
}

} // verus!
