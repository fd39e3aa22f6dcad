//! Rule C: stated preferences become habits.
use vstd::prelude::*;
use crate::json::{json_str_member, json_string_member};
use crate::memory::mempalace::Drawer;
use crate::planner::classify::{has_any_sub, strs};
use crate::promoter::a_insight::{first60, head60, tag_texts};
use crate::text::{chars_of, contains_chars, has_sub, owned, push_str, to_lowercase, unicode_lower};

verus! {

/// Files every worker turn that states a preference as a habit in the `habits` wing.
pub struct RuleC;

/// The phrases that mark a preference, as lower case.
pub open spec fn preference_markers() -> Seq<Seq<char>> {
    seq![
        "please always"@,
        "always use"@,
        "never use"@,
        "i prefer"@,
        "prefer to"@,
        "make sure to"@,
        "remember to"@,
        "don't forget"@,
    ]
}

/// The text of a worker turn's JSON payload: its `text` member, empty when it has
/// none; `None` when the payload is not JSON.
pub open spec fn payload_text(payload: Seq<char>) -> Option<Seq<char>> {
    match json_str_member(payload, "text"@) {
        None => None,
        Some(m) => Some(
            match m {
                Some(t) => t,
                None => ""@,
            },
        ),
    }
}

/// The preference a payload states: its text, when the lower-case text holds a
/// preference marker.
pub open spec fn stated_preference(payload: Seq<char>) -> Option<Seq<char>> {
    match payload_text(payload) {
        Some(t) => if has_any_sub(unicode_lower(t), preference_markers()) {
            Some(t)
        } else {
            None
        },
        None => None,
    }
}

/// The habit drawer of the text `text`.
fn habit_drawer(text: String) -> (d: Drawer)
    ensures
        d.wing@ == "habits"@,
        d.title@ == "Preference: "@ + head60(text@),
        d.body@ == text@,
        tag_texts(d.tags@) == seq!["habit"@, "preference"@],
{
    let mut title = owned("Preference: ");
    let head = first60(text.as_str());
    push_str(&mut title, head.as_str());
    let mut tags: Vec<String> = Vec::new();
    tags.push(owned("habit"));
    tags.push(owned("preference"));
    assert(tag_texts(tags@) =~= seq!["habit"@, "preference"@]);
    Drawer { wing: owned("habits"), title, body: text, tags }
}

impl RuleC {
    /// The habit drawer of a worker turn's payload (see `stated_preference`): titled
    /// by the start of the text, holding the text, tagged `habit` and `preference`.
    pub fn preference_drawer(payload: &str) -> (r: Option<Drawer>)
        ensures
            match stated_preference(payload@) {
                None => r is None,
                Some(t) => r matches Some(d) && d.wing@ == "habits"@ && d.title@ == "Preference: "@
                    + head60(t) && d.body@ == t && tag_texts(d.tags@) == seq!["habit"@, "preference"@],
            },
    {
        let text = match json_string_member(payload, "text") {
            None => {
                return None;
            },
            Some(Some(t)) => t,
            Some(None) => String::new(),
        };
        proof {
            reveal_strlit("");
        }
        assert(payload_text(payload@) == Some(text@));
        let lower_s = to_lowercase(text.as_str());
        let lower = chars_of(lower_s.as_str());
        let markers = [
            "please always",
            "always use",
            "never use",
            "i prefer",
            "prefer to",
            "make sure to",
            "remember to",
            "don't forget",
        ];
        assert(strs(markers@) =~= preference_markers());
        let mut i: usize = 0;
        while i < markers.len()
            invariant
                i <= markers.len(),
                strs(markers@) == preference_markers(),
                lower@ == unicode_lower(text@),
                payload_text(payload@) == Some(text@),
                forall|j: int| 0 <= j < i ==> !has_sub(lower@, preference_markers()[j]),
            decreases markers.len() - i,
        {
            let m = chars_of(markers[i]);
            assert(strs(markers@)[i as int] == markers@[i as int]@);
            if contains_chars(&lower, &m) {
                assert(has_sub(unicode_lower(text@), preference_markers()[i as int]));
                assert(preference_markers().len() == 8);
                assert(has_any_sub(unicode_lower(text@), preference_markers()));
                assert(stated_preference(payload@) == Some(text@));
                return Some(habit_drawer(text));
            }
            i = i + 1;
        }
        assert(stated_preference(payload@) is None);
        None
    }
}

/// How many worker turns the rule looks back over.
pub const RULE_C_WINDOW: usize = 100;

/// One of the eight phrases by which a worker states a preference.
pub open spec fn is_preference_phrase(m: Seq<char>) -> bool {
    ||| m == "please always"@
    ||| m == "always use"@
    ||| m == "never use"@
    ||| m == "i prefer"@
    ||| m == "prefer to"@
    ||| m == "make sure to"@
    ||| m == "remember to"@
    ||| m == "don't forget"@
}

/// A worker turn states a preference exactly when the lower-case text of its payload
/// holds one of the eight phrases `please always`, `always use`, `never use`,
/// `i prefer`, `prefer to`, `make sure to`, `remember to`, `don't forget`; the
/// preference is then the whole text. A payload that is not JSON states none.
pub proof fn preference_phrases_mark_habits(payload: Seq<char>, m: Seq<char>)
    ensures
        payload_text(payload) matches Some(t) ==> (is_preference_phrase(m) && has_sub(unicode_lower(t), m)
            ==> stated_preference(payload) == Some(t)),
        payload_text(payload) matches Some(t) ==> ((forall|q: Seq<char>|
            #[trigger] is_preference_phrase(q) ==> !has_sub(unicode_lower(t), q))
            ==> stated_preference(payload) is None),
        payload_text(payload) is None ==> stated_preference(payload) is None,
{
    let ms = preference_markers();
    assert forall|i: int| 0 <= i < ms.len() implies #[trigger] is_preference_phrase(ms[i]) by {}
    match payload_text(payload) {
        Some(t) => {
            if is_preference_phrase(m) && has_sub(unicode_lower(t), m) {
                if m == "please always"@ {
                    assert(ms[0] == m);
                } else if m == "always use"@ {
                    assert(ms[1] == m);
                } else if m == "never use"@ {
                    assert(ms[2] == m);
                } else if m == "i prefer"@ {
                    assert(ms[3] == m);
                } else if m == "prefer to"@ {
                    assert(ms[4] == m);
                } else if m == "make sure to"@ {
                    assert(ms[5] == m);
                } else if m == "remember to"@ {
                    assert(ms[6] == m);
                } else {
                    assert(ms[7] == m);
                }
            }
            let lt = unicode_lower(t);
            if forall|q: Seq<char>| #[trigger] is_preference_phrase(q) ==> !has_sub(lt, q) {
                if has_any_sub(lt, ms) {
                    let i = choose|i: int| 0 <= i < ms.len() && has_sub(lt, ms[i]);
                    assert(is_preference_phrase(ms[i]));
                }
            }
        },
        None => {},
    }
}

} // verus!
