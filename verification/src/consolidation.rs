use vstd::prelude::*;

use crate::api_error::{api_error, refused, ApiError, BAD_REQUEST, CONFLICT, FAILED_DEPENDENCY};
use crate::paths::{file_name_of, join_chars, path_file_name, path_join};
use crate::text::{append_chars, append_str, chars_of, copy_string, owned, string_from_chars, str_eq};

verus! {

/// `limit.unwrap_or(default)` kept within `lo..=hi`.
pub open spec fn spec_clamp_or(v: Option<u64>, default: u64, lo: u64, hi: u64) -> u64 {
    let x = match v {
        Some(x) => x,
        None => default,
    };
    if x < lo {
        lo
    } else if x > hi {
        hi
    } else {
        x
    }
}

pub fn clamp_or(v: Option<u64>, default: u64, lo: u64, hi: u64) -> (r: u64)
    requires
        lo <= hi,
    ensures
        r == spec_clamp_or(v, default, lo, hi),
{
    let x = match v {
        Some(x) => x,
        None => default,
    };
    if x < lo {
        lo
    } else if x > hi {
        hi
    } else {
        x
    }
}

/// Duplicate listings: at most `limit` groups (40 by default, 1 to 200) of
/// at least `min_group_size` items (2 by default, 2 to 1000).
pub fn duplicate_query_bounds(limit: Option<u64>, min_group_size: Option<u64>) -> (r: (u64, u64))
    ensures
        r.0 == spec_clamp_or(limit, 40, 1, 200),
        r.1 == spec_clamp_or(min_group_size, 2, 2, 1000),
{
    (clamp_or(limit, 40, 1, 200), clamp_or(min_group_size, 2, 2, 1000))
}

/// Index listings: a page of `limit` items (120 by default, 1 to 500).
pub fn index_page_limit(limit: Option<u64>) -> (r: u64)
    ensures
        r == spec_clamp_or(limit, 120, 1, 500),
{
    clamp_or(limit, 120, 1, 500)
}

/// The checks of a quarantine request before anything moves: at least two
/// paths (400), the kept path allowed (`keep_check`, the path policy's
/// answer), and the kept path among the paths (400).
pub fn check_quarantine_request(
    media_paths: &Vec<String>,
    keep_media_path: &str,
    keep_check: Result<(), ApiError>,
) -> (r: Result<(), ApiError>)
    ensures
        media_paths@.len() < 2 ==> refused(
            r,
            BAD_REQUEST,
            "at least two media paths are required to quarantine duplicates"@,
        ),
        media_paths@.len() >= 2 && keep_check is Err ==> r == keep_check,
        media_paths@.len() >= 2 && keep_check is Ok && !(exists|i: int|
            0 <= i < media_paths@.len() && (#[trigger] media_paths@[i])@ == keep_media_path@)
            ==> refused(r, BAD_REQUEST, "keep_media_path must be included in media_paths"@),
        r is Ok <==> (media_paths@.len() >= 2 && keep_check is Ok && exists|i: int|
            0 <= i < media_paths@.len() && (#[trigger] media_paths@[i])@ == keep_media_path@),
{
    if media_paths.len() < 2 {
        return Err(
            ApiError {
                status: BAD_REQUEST,
                message: owned("at least two media paths are required to quarantine duplicates"),
            },
        );
    }
    if keep_check.is_err() {
        return keep_check;
    }
    let mut i: usize = 0;
    while i < media_paths.len()
        invariant
            i <= media_paths@.len(),
            media_paths@.len() >= 2,
            keep_check is Ok,
            forall|j: int| 0 <= j < i ==> (#[trigger] media_paths@[j])@ != keep_media_path@,
        decreases media_paths.len() - i,
    {
        if str_eq(media_paths[i].as_str(), keep_media_path) {
            return Ok(());
        }
        i += 1;
    }
    Err(ApiError { status: BAD_REQUEST, message: owned("keep_media_path must be included in media_paths") })
}

/// Where a quarantined file goes: "<unique>-<file name>" (or
/// "unknown.bin") under the quarantine folder.
pub open spec fn spec_quarantine_target(root: Seq<char>, unique: Seq<char>, media_path: Seq<char>) -> Seq<char> {
    let name = match path_file_name(media_path) {
        Some(n) => n,
        None => "unknown.bin"@,
    };
    path_join(root, unique + seq!['-'] + name)
}

pub fn quarantine_target(root: &str, unique: &str, media_path: &str) -> (r: String)
    ensures
        r@ == spec_quarantine_target(root@, unique@, media_path@),
{
    let name = match file_name_of(&chars_of(media_path)) {
        Some(n) => n,
        None => chars_of("unknown.bin"),
    };
    let mut leaf = chars_of(unique);
    leaf.push('-');
    append_chars(&mut leaf, &name);
    string_from_chars(&join_chars(&chars_of(root), &leaf))
}

/// What happened to one path of a quarantine request.
#[derive(Debug)]
pub struct QuarantineItemResult {
    pub media_path: String,
    pub quarantined_path: Option<String>,
    pub operation_id: Option<String>,
    pub success: bool,
    pub error: Option<String>,
    pub note: Option<String>,
}

pub open spec fn opt_text(o: Option<String>) -> Option<Seq<char>> {
    match o {
        Some(s) => Some(s@),
        None => None,
    }
}

/// The kept path is reported as kept.
pub fn kept_item(media_path: &str) -> (r: QuarantineItemResult)
    ensures
        r.media_path@ == media_path@,
        r.success,
        r.quarantined_path is None && r.operation_id is None && r.error is None,
        opt_text(r.note) == Some("kept"@),
{
    QuarantineItemResult {
        media_path: owned(media_path),
        quarantined_path: None,
        operation_id: None,
        success: true,
        error: None,
        note: Some(owned("kept")),
    }
}

/// A path that fails the path policy is skipped with the policy's message.
pub fn skipped_item(media_path: &str, message: &str) -> (r: QuarantineItemResult)
    ensures
        r.media_path@ == media_path@,
        !r.success,
        r.quarantined_path is None && r.operation_id is None,
        opt_text(r.error) == Some(message@),
        opt_text(r.note) == Some("skipped"@),
{
    QuarantineItemResult {
        media_path: owned(media_path),
        quarantined_path: None,
        operation_id: None,
        success: false,
        error: Some(owned(message)),
        note: Some(owned("skipped")),
    }
}

/// The move into quarantine: its operation id, or its error.
pub fn moved_item(media_path: &str, target: &str, moved: Result<String, String>) -> (r: QuarantineItemResult)
    ensures
        r.media_path@ == media_path@,
        moved matches Ok(op) ==> (r.success && opt_text(r.quarantined_path) == Some(target@) && opt_text(
            r.operation_id,
        ) == Some(op@) && r.error is None && opt_text(r.note) == Some("quarantined"@)),
        moved matches Err(e) ==> (!r.success && r.quarantined_path is None && r.operation_id is None
            && opt_text(r.error) == Some(e@) && opt_text(r.note) == Some("failed"@)),
{
    match moved {
        Ok(op) => QuarantineItemResult {
            media_path: owned(media_path),
            quarantined_path: Some(owned(target)),
            operation_id: Some(op),
            success: true,
            error: None,
            note: Some(owned("quarantined")),
        },
        Err(e) => QuarantineItemResult {
            media_path: owned(media_path),
            quarantined_path: None,
            operation_id: None,
            success: false,
            error: Some(e),
            note: Some(owned("failed")),
        },
    }
}

/// Results of the paths other than the kept one that succeeded (`ok`) or
/// failed (`!ok`).
pub open spec fn count_moves(items: Seq<QuarantineItemResult>, keep: Seq<char>, ok: bool) -> nat
    decreases items.len(),
{
    if items.len() == 0 {
        0
    } else {
        count_moves(items.drop_last(), keep, ok) + if items.last().media_path@ != keep
            && items.last().success == ok {
            1nat
        } else {
            0nat
        }
    }
}

proof fn lemma_moves_bound(items: Seq<QuarantineItemResult>, keep: Seq<char>)
    ensures
        count_moves(items, keep, true) + count_moves(items, keep, false) <= items.len(),
    decreases items.len(),
{
    if items.len() > 0 {
        lemma_moves_bound(items.drop_last(), keep);
    }
}

/// The totals of a quarantine: moves that succeeded and paths that were
/// skipped or failed; the kept path counts as neither.
pub fn quarantine_totals(items: &Vec<QuarantineItemResult>, keep_media_path: &str) -> (r: (usize, usize))
    ensures
        r.0 as nat == count_moves(items@, keep_media_path@, true),
        r.1 as nat == count_moves(items@, keep_media_path@, false),
        r.0 + r.1 <= items@.len(),
{
    let mut succeeded: usize = 0;
    let mut failed: usize = 0;
    let mut i: usize = 0;
    while i < items.len()
        invariant
            i <= items.len(),
            succeeded as nat == count_moves(items@.take(i as int), keep_media_path@, true),
            failed as nat == count_moves(items@.take(i as int), keep_media_path@, false),
            succeeded + failed <= i,
        decreases items.len() - i,
    {
        proof {
            assert(items@.take(i + 1).drop_last() =~= items@.take(i as int));
            assert(items@.take(i + 1).last() == items@[i as int]);
            lemma_moves_bound(items@.take(i as int), keep_media_path@);
        }
        if !str_eq(items[i].media_path.as_str(), keep_media_path) {
            if items[i].success {
                succeeded += 1;
            } else {
                failed += 1;
            }
        }
        i += 1;
    }
    proof {
        assert(items@.take(items.len() as int) =~= items@);
    }
    (succeeded, failed)
}


/// `start_library_index`: indexing needs configured library roots (424) and
/// no index job already running (409).
pub fn check_index_start(root_count: usize, running_index_jobs: usize) -> (r: Result<(), ApiError>)
    ensures
        root_count == 0 ==> refused(r, FAILED_DEPENDENCY, "MM_LIBRARY_ROOTS is not configured"@),
        root_count > 0 && running_index_jobs > 0 ==> refused(r, CONFLICT, "an index job is already running"@),
        root_count > 0 && running_index_jobs == 0 ==> r is Ok,
{
    if root_count == 0 {
        Err(api_error(FAILED_DEPENDENCY, "MM_LIBRARY_ROOTS is not configured"))
    } else if running_index_jobs > 0 {
        Err(api_error(CONFLICT, "an index job is already running"))
    } else {
        Ok(())
    }
}

} // verus!
