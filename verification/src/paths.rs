//! Confining user-supplied paths under an allowed root: the decision half
//! of path safety.  Resolving symlinks and relative segments against the
//! real filesystem is the surrounding tooling's job; it hands the
//! canonical texts in and performs nothing the checks here refuse.

use vstd::prelude::*;
use crate::errors::BootstrapError;
use crate::strutil::{concat2, spec_starts_with, starts_with_str, str_eq};
use vstd::string::StringExecFns;

verus! {

/// Whether a path text is absolute: it names the root directly.
pub open spec fn spec_is_absolute(p: Seq<char>) -> bool {
    p.len() > 0 && p[0] == '/'
}

/// Whether a canonical path stays under a canonical root: it is the root
/// itself or continues it at a component boundary.
pub open spec fn spec_under_root(root: Seq<char>, p: Seq<char>) -> bool {
    p == root || spec_starts_with(p, root + "/"@)
}

/// Normalizes a user-supplied path against an allowed root: absolute
/// candidates are rejected outright, and the canonicalized join must stay
/// within the canonicalized root.  Both canonical texts come from the
/// caller, which alone touches the filesystem.
pub fn normalize_under_root(
    root_canonical: &str,
    candidate: &str,
    candidate_canonical: &str,
) -> (r: Result<String, BootstrapError>)
    ensures
        spec_is_absolute(candidate@) ==> (r matches Result::Err(e) && e is Config),
        !spec_is_absolute(candidate@) && !spec_under_root(
            root_canonical@,
            candidate_canonical@,
        ) ==> (r matches Result::Err(e) && e is Config),
        !spec_is_absolute(candidate@) && spec_under_root(
            root_canonical@,
            candidate_canonical@,
        ) ==> (r matches Result::Ok(out) && out@ == candidate_canonical@),
{
    proof {
        reveal_strlit("/");
    }
    if candidate.unicode_len() > 0 {
        if candidate.get_char(0) == '/' {
            return Result::Err(
                BootstrapError::Config(
                    concat2("absolute paths are not allowed: ", candidate),
                ),
            );
        }
    }
    let root_prefix = concat2(root_canonical, "/");
    let under = str_eq(candidate_canonical, root_canonical) || starts_with_str(
        candidate_canonical,
        root_prefix.as_str(),
    );
    if !under {
        return Result::Err(
            BootstrapError::Config(concat2("path escapes root: ", candidate_canonical)),
        );
    }
    Result::Ok(String::from_str(candidate_canonical))
}

} // verus!
