//! Names of scratch worktrees.
use vstd::prelude::*;
use crate::text::{chars_of, owned, push_chars, replace_char, replace_chars};

verus! {

/// The name of the scratch worktree of a plan: `scratch-` and the plan id with every
/// `/` turned into `-`.
pub open spec fn spec_scratch_name(plan_id: Seq<char>) -> Seq<char> {
    "scratch-"@ + replace_char(plan_id, '/', '-')
}

/// The name of the scratch worktree of `plan_id` (see `spec_scratch_name`).
pub fn scratch_name(plan_id: &str) -> (r: String)
    ensures
        r@ == spec_scratch_name(plan_id@),
{
    let mut r = owned("scratch-");
    let v = chars_of(plan_id);
    let replaced = replace_chars(&v, '/', '-');
    push_chars(&mut r, &replaced);
    r
}

} // verus!
