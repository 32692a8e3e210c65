use vstd::prelude::*;

use crate::api_error::{api_error, ApiError, BAD_REQUEST};
use crate::text::{chars_eq_str, normalize_word, normalized_word, owned};

verus! {

pub const DEFAULT_RECENT_LIMIT: usize = 20;
pub const MAX_RECENT_LIMIT: usize = 200;
pub const DEFAULT_LIBRARY_LIMIT: usize = 120;
pub const MAX_LIBRARY_LIMIT: usize = 500;

/// Page size for recent operations and jobs: 20 when not given, at most 200.
pub fn normalize_recent_limit(limit: Option<usize>) -> (r: usize)
    ensures
        r == match limit {
            None => DEFAULT_RECENT_LIMIT,
            Some(l) => if l < MAX_RECENT_LIMIT {
                l
            } else {
                MAX_RECENT_LIMIT
            },
        },
{
    let l = match limit {
        Some(l) => l,
        None => DEFAULT_RECENT_LIMIT,
    };
    if l < MAX_RECENT_LIMIT {
        l
    } else {
        MAX_RECENT_LIMIT
    }
}

/// Page size for library listings: 120 when not given or zero, at most 500.
pub fn normalize_library_limit(limit: Option<usize>) -> (r: usize)
    ensures
        r == match limit {
            None => DEFAULT_LIBRARY_LIMIT,
            Some(l) => if l == 0 {
                DEFAULT_LIBRARY_LIMIT
            } else if l < MAX_LIBRARY_LIMIT {
                l
            } else {
                MAX_LIBRARY_LIMIT
            },
        },
{
    let l = match limit {
        Some(l) => l,
        None => DEFAULT_LIBRARY_LIMIT,
    };
    if l == 0 {
        return DEFAULT_LIBRARY_LIMIT;
    }
    if l < MAX_LIBRARY_LIMIT {
        l
    } else {
        MAX_LIBRARY_LIMIT
    }
}

pub open spec fn is_job_status_code(w: Seq<char>) -> bool {
    w == "running"@ || w == "succeeded"@ || w == "failed"@ || w == "canceled"@
}

/// A status filter selects a status exactly when its trimmed, lower-cased
/// text is running, succeeded, failed or canceled.
pub proof fn lemma_job_status_filter_codes(value: Seq<char>)
    ensures
        is_job_status_code(normalized_word(value)) <==> set!["running"@, "succeeded"@, "failed"@, "canceled"@].contains(
            normalized_word(value),
        ),
{
}

/// The job status a filter names: one of the four status codes, compared
/// after trimming and ignoring ASCII case; anything else (including "all"
/// and the empty filter) filters nothing.
pub fn normalize_job_status_filter(value: Option<&str>) -> (r: Option<String>)
    ensures
        match value {
            None => r is None,
            Some(v) => if is_job_status_code(normalized_word(v@)) {
                r matches Some(s) && s@ == normalized_word(v@)
            } else {
                r is None
            },
        },
{
    let v = match value {
        Some(v) => v,
        None => return None,
    };
    let w = normalize_word(v);
    if chars_eq_str(&w, "running") {
        Some(owned("running"))
    } else if chars_eq_str(&w, "succeeded") {
        Some(owned("succeeded"))
    } else if chars_eq_str(&w, "failed") {
        Some(owned("failed"))
    } else if chars_eq_str(&w, "canceled") {
        Some(owned("canceled"))
    } else {
        None
    }
}

pub open spec fn is_bulk_action(w: Seq<char>) -> bool {
    w == "metadata_lookup"@ || w == "combine_duplicates"@ || w == "rename"@ || w == "validate_nfo"@
}

/// A bulk request is accepted exactly when its trimmed, lower-cased action
/// is metadata_lookup, combine_duplicates, rename or validate_nfo.
pub proof fn lemma_bulk_actions(action: Seq<char>)
    ensures
        is_bulk_action(normalized_word(action)) <==> set![
            "metadata_lookup"@,
            "combine_duplicates"@,
            "rename"@,
            "validate_nfo"@,
        ].contains(normalized_word(action)),
{
}

/// The bulk action a request names, trimmed and lower-cased; anything but
/// the four supported actions is refused with 400.
pub fn normalize_bulk_action(action: &str) -> (r: Result<String, ApiError>)
    ensures
        is_bulk_action(normalized_word(action@)) <==> r is Ok,
        r matches Ok(a) ==> a@ == normalized_word(action@),
        r matches Err(e) ==> e.status == BAD_REQUEST && e.message@
            == "unsupported action; expected one of metadata_lookup, combine_duplicates, rename, validate_nfo"@,
{
    let w = normalize_word(action);
    if chars_eq_str(&w, "metadata_lookup") {
        Ok(owned("metadata_lookup"))
    } else if chars_eq_str(&w, "combine_duplicates") {
        Ok(owned("combine_duplicates"))
    } else if chars_eq_str(&w, "rename") {
        Ok(owned("rename"))
    } else if chars_eq_str(&w, "validate_nfo") {
        Ok(owned("validate_nfo"))
    } else {
        Err(
            api_error(
                BAD_REQUEST,
                "unsupported action; expected one of metadata_lookup, combine_duplicates, rename, validate_nfo",
            ),
        )
    }
}

} // verus!
