use vstd::prelude::*;

use crate::api_error::{refused, ApiError, BAD_REQUEST, FAILED_DEPENDENCY, FORBIDDEN};
use crate::paths::{path_has_root, path_starts_with};
use crate::text::{append_str, chars_of, owned, string_from_chars};

verus! {

/// Some root that could be resolved is the path or one of its ancestors.
pub open spec fn within_some_root(path: Seq<char>, roots: Seq<Option<String>>) -> bool {
    exists|i: int|
        0 <= i < roots.len() && (#[trigger] roots[i] matches Some(r) && path_has_root(path, r@))
}

/// `is_path_within_roots`, on the canonical forms of the path and of each
/// root (`None` where a path could not be resolved).  False when no root is
/// configured or the path itself could not be resolved.
pub fn is_path_within_roots(canonical_path: &Option<String>, canonical_roots: &Vec<Option<String>>) -> (r:
    bool)
    ensures
        r == match canonical_path {
            None => false,
            Some(p) => within_some_root(p@, canonical_roots@),
        },
{
    if canonical_roots.len() == 0 {
        return false;
    }
    let path = match canonical_path {
        Some(p) => chars_of(p.as_str()),
        None => {
            return false;
        },
    };
    let mut i: usize = 0;
    while i < canonical_roots.len()
        invariant
            i <= canonical_roots.len(),
            canonical_path matches Some(p) && path@ == p@,
            forall|j: int|
                0 <= j < i ==> !(#[trigger] canonical_roots@[j] matches Some(r) && path_has_root(
                    path@,
                    r@,
                )),
        decreases canonical_roots.len() - i,
    {
        match &canonical_roots[i] {
            Some(root) => {
                let rv = chars_of(root.as_str());
                if path_starts_with(&path, &rv) {
                    return true;
                }
            },
            None => {},
        }
        i += 1;
    }
    false
}

/// What is known of a media path before it may be touched.
pub struct MediaPathFacts {
    pub display: String,
    pub exists: bool,
    pub is_file: bool,
    pub within_roots: bool,
}

pub open spec fn media_message(prefix: Seq<char>, display: Seq<char>) -> Seq<char> {
    prefix + display
}

/// `ensure_media_file_path_allowed`: library roots must be configured (424),
/// the path must exist (400) and be a file (400), and it must lie under a
/// root (403), checked in that order.
pub fn ensure_media_file_path_allowed(roots_configured: bool, facts: &MediaPathFacts) -> (r: Result<
    (),
    ApiError,
>)
    ensures
        !roots_configured ==> refused(r, FAILED_DEPENDENCY, "MM_LIBRARY_ROOTS is not configured"@),
        roots_configured && !facts.exists ==> refused(
            r,
            BAD_REQUEST,
            media_message("media path does not exist: "@, facts.display@),
        ),
        roots_configured && facts.exists && !facts.is_file ==> refused(
            r,
            BAD_REQUEST,
            media_message("media path is not a file: "@, facts.display@),
        ),
        roots_configured && facts.exists && facts.is_file && !facts.within_roots ==> refused(
            r,
            FORBIDDEN,
            media_message("media path is outside configured library roots: "@, facts.display@),
        ),
        r is Ok <==> (roots_configured && facts.exists && facts.is_file && facts.within_roots),
{
    if !roots_configured {
        return Err(ApiError { status: FAILED_DEPENDENCY, message: owned("MM_LIBRARY_ROOTS is not configured") });
    }
    let d = chars_of(facts.display.as_str());
    if !facts.exists {
        let mut m = chars_of("media path does not exist: ");
        crate::text::append_chars(&mut m, &d);
        return Err(ApiError { status: BAD_REQUEST, message: string_from_chars(&m) });
    }
    if !facts.is_file {
        let mut m = chars_of("media path is not a file: ");
        crate::text::append_chars(&mut m, &d);
        return Err(ApiError { status: BAD_REQUEST, message: string_from_chars(&m) });
    }
    if !facts.within_roots {
        let mut m = chars_of("media path is outside configured library roots: ");
        crate::text::append_chars(&mut m, &d);
        return Err(ApiError { status: FORBIDDEN, message: string_from_chars(&m) });
    }
    Ok(())
}

} // verus!
