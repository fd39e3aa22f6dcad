//! Reading string members of JSON objects.
use vstd::prelude::*;

verus! {

/// What `serde_json` reads from the text `text` for the member `key`: `None` when the
/// text is not JSON; `Some(None)` when it is JSON but not an object with a string
/// member `key`; `Some(Some(s))` when that member is the string `s`.
pub uninterp spec fn json_str_member(text: Seq<char>, key: Seq<char>) -> Option<Option<Seq<char>>>;

/// Parses `text` with `serde_json::from_str` into a `serde_json::Value` and reads its
/// string member `key` (`Value::get`, then `Value::as_str`). The contract names the
/// outcome `json_str_member` and says nothing more of it: what JSON text parses, and
/// to what, is `serde_json`'s.
#[verifier::external_body]
pub(crate) fn json_string_member(text: &str, key: &str) -> (r: Option<Option<String>>)
    ensures
        match r {
            None => json_str_member(text@, key@) is None,
            Some(None) => json_str_member(text@, key@) == Some(None::<Seq<char>>),
            Some(Some(s)) => json_str_member(text@, key@) == Some(Some(s@)),
        },
{
    match serde_json::from_str::<serde_json::Value>(text) {
        Ok(v) => Some(v.get(key).and_then(|m| m.as_str()).map(|s| s.to_string())),
        Err(_) => None,
    }
}

} // verus!
