//! Rule A: resolved peer consultations become insights.
use vstd::prelude::*;
use crate::memory::mempalace::Drawer;
use crate::text::{chars_of, owned, push_str, string_from, take_chars};

verus! {

/// Files every resolved peer consultation as an insight in the `cowclaw` wing.
pub struct RuleA;

/// The first 60 characters of `s`.
pub open spec fn head60(s: Seq<char>) -> Seq<char> {
    s.take(if s.len() < 60 { s.len() as int } else { 60 })
}

/// The title of the insight of a consultation that asked `question`.
pub open spec fn insight_title(question: Seq<char>) -> Seq<char> {
    "Peer Consult Insight: "@ + head60(question)
}

/// The body of the insight of a consultation.
pub open spec fn insight_body(
    session_id: Seq<char>,
    plan_id: Seq<char>,
    question: Seq<char>,
    response: Seq<char>,
    outcome: Seq<char>,
) -> Seq<char> {
    "Session: "@ + session_id + "\nPlan: "@ + plan_id + "\nQuestion: "@ + question + "\nAnswer: "@
        + response + "\nOutcome: "@ + outcome
}

/// The texts of a list of strings.
pub open spec fn tag_texts(v: Seq<String>) -> Seq<Seq<char>> {
    v.map_values(|s: String| s@)
}

/// The first 60 characters of `s`.
pub fn first60(s: &str) -> (r: String)
    ensures
        r@ == head60(s@),
{
    let v = chars_of(s);
    let t = take_chars(&v, 60);
    string_from(&t)
}

impl RuleA {
    /// The insight drawer of a resolved consultation: titled by the start of its
    /// question, holding the session, plan (empty when none), question, answer and
    /// outcome, tagged `peer_consult` and `insight`.
    pub fn insight_drawer(
        session_id: &str,
        plan_id: Option<&str>,
        question: &str,
        response: &str,
        outcome: &str,
    ) -> (r: Drawer)
        ensures
            r.wing@ == "cowclaw"@,
            r.title@ == insight_title(question@),
            r.body@ == insight_body(
                session_id@,
                match plan_id {
                    Some(p) => p@,
                    None => ""@,
                },
                question@,
                response@,
                outcome@,
            ),
            tag_texts(r.tags@) == seq!["peer_consult"@, "insight"@],
    {
        let mut title = owned("Peer Consult Insight: ");
        let head = first60(question);
        push_str(&mut title, head.as_str());
        let p = match plan_id {
            Some(p) => p,
            None => "",
        };
        let mut body = owned("Session: ");
        push_str(&mut body, session_id);
        push_str(&mut body, "\nPlan: ");
        push_str(&mut body, p);
        push_str(&mut body, "\nQuestion: ");
        push_str(&mut body, question);
        push_str(&mut body, "\nAnswer: ");
        push_str(&mut body, response);
        push_str(&mut body, "\nOutcome: ");
        push_str(&mut body, outcome);
        assert(body@ =~= insight_body(session_id@, p@, question@, response@, outcome@));
        let mut tags: Vec<String> = Vec::new();
        tags.push(owned("peer_consult"));
        tags.push(owned("insight"));
        assert(tag_texts(tags@) =~= seq!["peer_consult"@, "insight"@]);
        Drawer { wing: owned("cowclaw"), title, body, tags }
    }
}

} // verus!
