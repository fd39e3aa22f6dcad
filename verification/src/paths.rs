//! File-system paths, carried as opaque values.
use vstd::prelude::*;
use std::path::PathBuf;

verus! {

#[verifier::external_type_specification]
#[verifier::external_body]
pub struct ExPathBuf(PathBuf);

/// `PathBuf::clone` gives back an equal path.
pub assume_specification[ <PathBuf as Clone>::clone ](p: &PathBuf) -> (res: PathBuf)
    ensures
        res == *p,
;

/// The path that `PathBuf::from` makes of the text `t`; that of the empty text is the
/// empty path.
pub uninterp spec fn path_of(t: Seq<char>) -> PathBuf;

/// `PathBuf::from(t)`; the contract names the path `path_of(t)`.
#[verifier::external_body]
pub(crate) fn path_from(t: &str) -> (r: PathBuf)
    ensures
        r == path_of(t@),
{
    PathBuf::from(t)
}

/// The path that `Path::join` makes of `p` and the segment `seg`.
pub uninterp spec fn joined(p: PathBuf, seg: Seq<char>) -> PathBuf;

/// `Path::join(p, seg)`; the contract names the path `joined(p, seg)`.
#[verifier::external_body]
pub(crate) fn join_path(p: &PathBuf, seg: &str) -> (r: PathBuf)
    ensures
        r == joined(*p, seg@),
{
    p.join(seg)
}

} // verus!
