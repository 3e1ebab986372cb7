//! Turning server-made paths into command-line arguments.

use vstd::prelude::*;
use std::path::PathBuf;

verus! {

#[verifier::external_type_specification]
#[verifier::external_body]
pub struct ExPathBuf(PathBuf);

/// The text of a path when it is valid UTF-8.
pub uninterp spec fn path_text(p: &PathBuf) -> Option<Seq<char>>;

/// Trusted: `Path::to_str` gives the path's text when it is valid UTF-8,
/// and `None` otherwise; `path_text` names that outcome.
#[verifier::external_body]
fn path_to_str(p: &PathBuf) -> (r: Option<&str>)
    ensures
        match r {
            Some(s) => path_text(p) == Some(s@),
            None => path_text(p) is None,
        },
{
    p.to_str()
}

/// A path as a `&str` argument; a path that is not valid UTF-8 becomes the
/// empty string.
pub fn path(p: &PathBuf) -> (r: &str)
    ensures
        r@ == match path_text(p) {
            Some(t) => t,
            None => Seq::<char>::empty(),
        },
{
    match path_to_str(p) {
        Some(s) => s,
        None => {
            proof {
                reveal_strlit("");
            }
            ""
        },
    }
}

} // verus!
