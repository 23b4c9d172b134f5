use vstd::prelude::*;
use std::path::PathBuf;

verus! {

/// File-system paths are carried through the library as `std`'s `PathBuf`,
/// whose contents the library never inspects.
#[verifier::external_type_specification]
#[verifier::external_body]
pub struct ExPathBuf(PathBuf);

/// The path that `Path::join` makes of `base` and `part`.
pub uninterp spec fn joined_path(base: PathBuf, part: Seq<char>) -> PathBuf;

/// `Path::join`: a new path with `part` appended to `base`. Its contract
/// claims only that the result is determined by `base` and `part`; what the
/// path holds is not stated.
#[verifier::external_body]
pub fn join_path(base: &PathBuf, part: &str) -> (joined: PathBuf)
    ensures
        joined == joined_path(*base, part@),
{
    base.join(part)
}

/// The text that `Path::display` shows for `p`.
pub uninterp spec fn displayed_path(p: PathBuf) -> Seq<char>;

/// `Path::display`, as text: its contract claims only that the text is
/// determined by the path.
#[verifier::external_body]
pub fn display_path(p: &PathBuf) -> (s: String)
    ensures
        s@ == displayed_path(*p),
{
    p.display().to_string()
}

} // verus!
