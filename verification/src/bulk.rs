use vstd::prelude::*;

use std::collections::hash_map::DefaultHasher;
use std::hash::Hasher;
use vstd::std_specs::hash::DefaultHasherAdditionalSpecFns;

use crate::fingerprint::{native_little_endian, str_writes, u16_bytes, u32_bytes, write_bool, write_str, write_u16_in, write_u32_in};
use crate::api_error::{api_error, refused, ApiError, BAD_REQUEST, CONFLICT, FAILED_DEPENDENCY, FORBIDDEN};
use crate::paths::{file_name_of, file_stem_of, join_chars, parent_of, path_file_name, path_file_stem, path_join, path_parent};
use crate::domain::sidecar::{fresh_sidecar_view, SidecarState};
use crate::metadata::MetadataCandidate;
use crate::sidecar_workflow::SidecarPlanAction;
use crate::text::{
    append_chars, append_str, chars_of, copy_string, decimal, decimal_chars, hex_fixed, hex_fixed_chars, owned,
    string_from_chars, trim_chars, trim_ws,
};

verus! {

// ---------------------------------------------------------------------------
// Items of a bulk request
// ---------------------------------------------------------------------------

/// `derive_item_uid`: the given id, trimmed, when it is not blank; else the
/// media file's stem, or "unknown-item".
pub open spec fn spec_item_uid(item_uid: Option<String>, media_path: Seq<char>) -> Seq<char> {
    match item_uid {
        Some(u) if trim_ws(u@).len() > 0 => trim_ws(u@),
        _ => match path_file_stem(media_path) {
            Some(s) => s,
            None => "unknown-item"@,
        },
    }
}

pub fn derive_item_uid(item_uid: &Option<String>, media_path: &str) -> (r: String)
    ensures
        r@ == spec_item_uid(*item_uid, media_path@),
{
    if let Some(u) = item_uid {
        let t = trim_chars(&chars_of(u.as_str()));
        if t.len() > 0 {
            return string_from_chars(&t);
        }
    }
    match file_stem_of(&chars_of(media_path)) {
        Some(s) => string_from_chars(&s),
        None => owned("unknown-item"),
    }
}

/// A path check that fails with 403 or 424 refuses the whole preview; other
/// failures only mark the item.
pub open spec fn spec_path_error_escalates(status: u16) -> bool {
    status == FORBIDDEN || status == FAILED_DEPENDENCY
}

pub fn path_error_escalates(status: u16) -> (r: bool)
    ensures
        r == spec_path_error_escalates(status),
{
    status == FORBIDDEN || status == FAILED_DEPENDENCY
}

// ---------------------------------------------------------------------------
// NFO files
// ---------------------------------------------------------------------------

/// `compute_nfo_target`: "<stem>.nfo" beside the media file.
pub open spec fn spec_nfo_target(media_path: Seq<char>) -> Result<Seq<char>, Seq<char>> {
    match path_parent(media_path) {
        None => Err("cannot determine media parent directory"@),
        Some(parent) => match path_file_stem(media_path) {
            None => Err("cannot determine media file stem"@),
            Some(stem) => Ok(path_join(parent, stem + ".nfo"@)),
        },
    }
}

pub fn nfo_target_path(media_path: &str) -> (r: Result<String, String>)
    ensures
        match (r, spec_nfo_target(media_path@)) {
            (Ok(a), Ok(b)) => a@ == b,
            (Err(a), Err(b)) => a@ == b,
            _ => false,
        },
{
    let p = chars_of(media_path);
    let parent = match parent_of(&p) {
        Some(x) => x,
        None => {
            return Err(owned("cannot determine media parent directory"));
        },
    };
    let mut stem = match file_stem_of(&p) {
        Some(s) => s,
        None => {
            return Err(owned("cannot determine media file stem"));
        },
    };
    append_str(&mut stem, ".nfo");
    Ok(string_from_chars(&join_chars(&parent, &stem)))
}

/// What `compute_nfo_target` reports of the NFO it found: its text, `None`
/// when there is no file (an unreadable file reads as empty).
pub open spec fn spec_nfo_note(existing: Option<String>) -> Seq<char> {
    match existing {
        None => "nfo missing; will create"@,
        Some(c) => if trim_ws(c@).len() == 0 {
            "nfo empty; will rewrite"@
        } else {
            "nfo exists and appears valid"@
        },
    }
}

pub fn nfo_target_note(existing: &Option<String>) -> (r: String)
    ensures
        r@ == spec_nfo_note(*existing),
{
    match existing {
        None => owned("nfo missing; will create"),
        Some(c) => if trim_chars(&chars_of(c.as_str())).len() == 0 {
            owned("nfo empty; will rewrite")
        } else {
            owned("nfo exists and appears valid")
        },
    }
}

/// `generate_nfo_content`: a minimal movie NFO naming the item and the file.
pub open spec fn spec_nfo_content(media_path: Seq<char>, item_uid: Seq<char>) -> Seq<char> {
    let file_name = match path_file_name(media_path) {
        Some(n) => n,
        None => media_path,
    };
    "<movie>\n  <title>"@ + item_uid + "</title>\n  <originalfilename>"@ + file_name
        + "</originalfilename>\n  <id>"@ + item_uid + "</id>\n</movie>\n"@
}

pub fn generate_nfo_content(media_path: &str, item_uid: &str) -> (r: String)
    ensures
        r@ == spec_nfo_content(media_path@, item_uid@),
{
    let p = chars_of(media_path);
    let name = match file_name_of(&p) {
        Some(n) => n,
        None => p,
    };
    let mut v = chars_of("<movie>\n  <title>");
    append_str(&mut v, item_uid);
    append_str(&mut v, "</title>\n  <originalfilename>");
    append_chars(&mut v, &name);
    append_str(&mut v, "</originalfilename>\n  <id>");
    append_str(&mut v, item_uid);
    append_str(&mut v, "</id>\n</movie>\n");
    string_from_chars(&v)
}

// ---------------------------------------------------------------------------
// Previews
// ---------------------------------------------------------------------------

/// "duplicate group size=<n>" for a group with others, else a note that the
/// item is unique in the selection.
pub open spec fn spec_duplicate_note(group_size: nat) -> Seq<char> {
    if group_size > 1 {
        "duplicate group size="@ + decimal(group_size)
    } else {
        "unique item (no duplicates in current selection)"@
    }
}

pub fn duplicate_note(group_size: usize) -> (r: String)
    ensures
        r@ == spec_duplicate_note(group_size as nat),
{
    if group_size > 1 {
        let mut v = chars_of("duplicate group size=");
        let d = decimal_chars(group_size as u64);
        append_chars(&mut v, &d);
        string_from_chars(&v)
    } else {
        owned("unique item (no duplicates in current selection)")
    }
}

/// "metadata candidate title=<t> year=<y or unknown> confidence=<c>", the
/// confidence given as text with two decimals.
pub open spec fn spec_metadata_note(title: Seq<char>, year: Option<u16>, confidence: Seq<char>) -> Seq<char> {
    "metadata candidate title="@ + title + " year="@ + match year {
        Some(y) => decimal(y as nat),
        None => "unknown"@,
    } + " confidence="@ + confidence
}

pub fn metadata_note(title: &str, year: Option<u16>, confidence: &str) -> (r: String)
    ensures
        r@ == spec_metadata_note(title@, year, confidence@),
{
    let mut v = chars_of("metadata candidate title=");
    append_str(&mut v, title);
    append_str(&mut v, " year=");
    match year {
        Some(y) => {
            let d = decimal_chars(y as u64);
            append_chars(&mut v, &d);
        },
        None => append_str(&mut v, "unknown"),
    }
    append_str(&mut v, " confidence=");
    append_str(&mut v, confidence);
    string_from_chars(&v)
}

/// Counts of a preview: plans that create, update or leave a sidecar, and
/// items without a plan.
#[derive(Debug)]
pub struct BulkDryRunSummary {
    pub creates: usize,
    pub updates: usize,
    pub noops: usize,
    pub invalid: usize,
}

pub open spec fn count_plans(plans: Seq<Option<SidecarPlanAction>>, which: Option<SidecarPlanAction>) -> nat
    decreases plans.len(),
{
    if plans.len() == 0 {
        0
    } else {
        count_plans(plans.drop_last(), which) + if plans.last() == which {
            1nat
        } else {
            0nat
        }
    }
}

/// The preview's counts over each item's plan action (`None` for an item
/// without a plan); the batch is ready when no item lacks a plan.  The four
/// counts add up to the number of items.
pub fn summarize_preview(plans: &Vec<Option<SidecarPlanAction>>) -> (r: (BulkDryRunSummary, bool))
    ensures
        r.0.creates as nat == count_plans(plans@, Some(SidecarPlanAction::Create)),
        r.0.updates as nat == count_plans(plans@, Some(SidecarPlanAction::Update)),
        r.0.noops as nat == count_plans(plans@, Some(SidecarPlanAction::Noop)),
        r.0.invalid as nat == count_plans(plans@, None),
        r.0.creates + r.0.updates + r.0.noops + r.0.invalid == plans@.len(),
        r.1 <==> r.0.invalid == 0,
{
    let mut c: usize = 0;
    let mut u: usize = 0;
    let mut n: usize = 0;
    let mut inv: usize = 0;
    let mut i: usize = 0;
    while i < plans.len()
        invariant
            i <= plans.len(),
            c as nat == count_plans(plans@.take(i as int), Some(SidecarPlanAction::Create)),
            u as nat == count_plans(plans@.take(i as int), Some(SidecarPlanAction::Update)),
            n as nat == count_plans(plans@.take(i as int), Some(SidecarPlanAction::Noop)),
            inv as nat == count_plans(plans@.take(i as int), None),
            c + u + n + inv == i,
        decreases plans.len() - i,
    {
        assert(plans@.take(i + 1).drop_last() =~= plans@.take(i as int));
        assert(plans@.take(i + 1).last() == plans@[i as int]);
        match plans[i] {
            Some(SidecarPlanAction::Create) => c += 1,
            Some(SidecarPlanAction::Update) => u += 1,
            Some(SidecarPlanAction::Noop) => n += 1,
            None => inv += 1,
        }
        i += 1;
    }
    assert(plans@.take(plans.len() as int) =~= plans@);
    (BulkDryRunSummary { creates: c, updates: u, noops: n, invalid: inv }, inv == 0)
}

// ---------------------------------------------------------------------------
// Applying
// ---------------------------------------------------------------------------

/// What applying one previewed item did.
#[derive(Debug)]
pub struct BulkApplyItemResult {
    pub media_path: String,
    pub final_media_path: Option<String>,
    pub item_uid: String,
    pub applied_provider_id: Option<String>,
    pub success: bool,
    pub operation_id: Option<String>,
    pub sidecar_path: Option<String>,
    pub error: Option<String>,
}

pub open spec fn opt_text(o: Option<String>) -> Option<Seq<char>> {
    match o {
        Some(s) => Some(s@),
        None => None,
    }
}

/// A failed item: nothing applied, with the error.
pub open spec fn is_failure(r: BulkApplyItemResult, media_path: Seq<char>, final_path: Option<Seq<char>>, item_uid: Seq<char>, error: Seq<char>) -> bool {
    &&& r.media_path@ == media_path
    &&& opt_text(r.final_media_path) == final_path
    &&& r.item_uid@ == item_uid
    &&& r.applied_provider_id is None
    &&& !r.success
    &&& r.operation_id is None
    &&& r.sidecar_path is None
    &&& opt_text(r.error) == Some(error)
}

fn failure(media_path: &str, final_path: Option<String>, item_uid: &str, error: String) -> (r: BulkApplyItemResult)
    ensures
        is_failure(r, media_path@, opt_text(final_path), item_uid@, error@),
{
    BulkApplyItemResult {
        media_path: owned(media_path),
        final_media_path: final_path,
        item_uid: owned(item_uid),
        applied_provider_id: None,
        success: false,
        operation_id: None,
        sidecar_path: None,
        error: Some(error),
    }
}

/// An item the preview marked as not applicable fails with the preview's
/// note, or "item is not applicable".
pub fn not_applicable(media_path: &str, item_uid: &str, note: &Option<String>) -> (r: BulkApplyItemResult)
    ensures
        is_failure(
            r,
            media_path@,
            None,
            item_uid@,
            match note {
                Some(n) => n@,
                None => "item is not applicable"@,
            },
        ),
{
    let e = match note {
        Some(n) => copy_string(n),
        None => owned("item is not applicable"),
    };
    failure(media_path, None, item_uid, e)
}

/// A sidecar item whose plan could not be built fails with the planning
/// error, or "plan unavailable" when there is none.
pub fn plan_unavailable(media_path: &str, item_uid: &str, error: &Option<String>) -> (r: BulkApplyItemResult)
    ensures
        is_failure(
            r,
            media_path@,
            None,
            item_uid@,
            match error {
                Some(e) => e@,
                None => "plan unavailable"@,
            },
        ),
{
    let e = match error {
        Some(e) => copy_string(e),
        None => owned("plan unavailable"),
    };
    failure(media_path, None, item_uid, e)
}

/// The next step of applying a rename.
pub enum RenameStep {
    /// The item is settled.
    Finished(BulkApplyItemResult),
    /// Rename `media_path` to `target` (with rollback), then its family.
    Perform { target: String },
}

/// The checks before a rename: the preview must name a target; the source
/// must still pass the path checks (`source_check`, its refusal message on
/// failure); nothing is done when source and target are the same path; an
/// existing target is refused.
pub fn rename_apply_step(
    media_path: &str,
    item_uid: &str,
    proposed: &Option<String>,
    source_check: &Result<(), String>,
    target_exists: bool,
) -> (r: RenameStep)
    ensures
        match proposed {
            None => r matches RenameStep::Finished(res) && is_failure(
                res,
                media_path@,
                None,
                item_uid@,
                "rename preview did not include target path"@,
            ),
            Some(t) => match source_check {
                Err(m) => r matches RenameStep::Finished(res) && is_failure(
                    res,
                    media_path@,
                    Some(t@),
                    item_uid@,
                    "rename source changed after preview and is no longer valid: "@ + m@,
                ),
                Ok(_) => if crate::paths::same_path(t@, media_path@) {
                    r matches RenameStep::Finished(res) && res.success && res.media_path@ == media_path@
                        && opt_text(res.final_media_path) == Some(t@) && res.item_uid@ == item_uid@
                        && res.operation_id is None && res.error is None && res.sidecar_path is None
                        && res.applied_provider_id is None
                } else if target_exists {
                    r matches RenameStep::Finished(res) && is_failure(
                        res,
                        media_path@,
                        Some(t@),
                        item_uid@,
                        "target rename path already exists"@,
                    )
                } else {
                    r matches RenameStep::Perform { target } && target@ == t@
                },
            },
        },
{
    let t = match proposed {
        Some(t) => t,
        None => {
            return RenameStep::Finished(
                failure(media_path, None, item_uid, owned("rename preview did not include target path")),
            );
        },
    };
    if let Err(m) = source_check {
        let mut e = chars_of("rename source changed after preview and is no longer valid: ");
        append_str(&mut e, m.as_str());
        return RenameStep::Finished(
            failure(media_path, Some(copy_string(t)), item_uid, string_from_chars(&e)),
        );
    }
    if crate::paths::same_path_str(t.as_str(), media_path) {
        return RenameStep::Finished(
            BulkApplyItemResult {
                media_path: owned(media_path),
                final_media_path: Some(copy_string(t)),
                item_uid: owned(item_uid),
                applied_provider_id: None,
                success: true,
                operation_id: None,
                sidecar_path: None,
                error: None,
            },
        );
    }
    if target_exists {
        return RenameStep::Finished(
            failure(media_path, Some(copy_string(t)), item_uid, owned("target rename path already exists")),
        );
    }
    RenameStep::Perform { target: copy_string(t) }
}

/// The error of a rename whose family could not follow: the family's error
/// and how rolling the media file back went.
pub open spec fn spec_family_failure(err: Seq<char>, rollback: Result<String, String>) -> Seq<char> {
    "rename sidecar update failed: "@ + err + match rollback {
        Ok(d) => "; media rollback succeeded: "@ + d@,
        Err(e) => "; media rollback failed: "@ + e@,
    }
}

/// How a performed rename ended: the media rename's operation id or error;
/// when the family could not follow, the media rename is rolled back and the
/// item fails.
pub fn rename_apply_outcome(
    media_path: &str,
    item_uid: &str,
    target: &str,
    renamed: Result<String, String>,
    family: &Result<(), String>,
    rollback: Result<String, String>,
) -> (r: BulkApplyItemResult)
    ensures
        renamed matches Err(e) ==> is_failure(r, media_path@, Some(target@), item_uid@, e@),
        renamed matches Ok(op) ==> match family {
            Err(err) => is_failure(
                r,
                media_path@,
                Some(target@),
                item_uid@,
                spec_family_failure(err@, rollback),
            ),
            Ok(_) => r.success && r.media_path@ == media_path@ && opt_text(r.final_media_path)
                == Some(target@) && r.item_uid@ == item_uid@ && opt_text(r.operation_id) == Some(op@)
                && r.error is None && r.sidecar_path is None && r.applied_provider_id is None,
        },
{
    match &renamed {
        Err(e) => {
            failure(media_path, Some(owned(target)), item_uid, copy_string(e))
        },
        Ok(op) => match family {
            Err(err) => {
                let mut m = chars_of("rename sidecar update failed: ");
                append_str(&mut m, err.as_str());
                match &rollback {
                    Ok(d) => {
                        append_str(&mut m, "; media rollback succeeded: ");
                        append_str(&mut m, d.as_str());
                    },
                    Err(e) => {
                        append_str(&mut m, "; media rollback failed: ");
                        append_str(&mut m, e.as_str());
                    },
                }
                assert(m@ =~= spec_family_failure(err@, rollback));
                failure(media_path, Some(owned(target)), item_uid, string_from_chars(&m))
            },
            Ok(_) => BulkApplyItemResult {
                media_path: owned(media_path),
                final_media_path: Some(owned(target)),
                item_uid: owned(item_uid),
                applied_provider_id: None,
                success: true,
                operation_id: Some(copy_string(op)),
                sidecar_path: None,
                error: None,
            },
        },
    }
}

/// A successful or failed write of a file: the operation id or the error.
pub fn write_outcome(
    media_path: &str,
    item_uid: &str,
    final_path: Option<String>,
    written: Result<String, String>,
) -> (r: BulkApplyItemResult)
    ensures
        match written {
            Err(e) => is_failure(r, media_path@, opt_text(final_path), item_uid@, e@),
            Ok(op) => r.success && r.media_path@ == media_path@ && opt_text(r.final_media_path)
                == opt_text(final_path) && r.item_uid@ == item_uid@ && opt_text(r.operation_id)
                == Some(op@) && r.error is None && r.sidecar_path is None && r.applied_provider_id is None,
        },
{
    match written {
        Err(e) => failure(media_path, final_path, item_uid, e),
        Ok(op) => BulkApplyItemResult {
            media_path: owned(media_path),
            final_media_path: final_path,
            item_uid: owned(item_uid),
            applied_provider_id: None,
            success: true,
            operation_id: Some(op),
            sidecar_path: None,
            error: None,
        },
    }
}

/// Successes among the results.
pub open spec fn count_successes(items: Seq<BulkApplyItemResult>) -> nat
    decreases items.len(),
{
    if items.len() == 0 {
        0
    } else {
        count_successes(items.drop_last()) + if items.last().success {
            1nat
        } else {
            0nat
        }
    }
}

proof fn lemma_successes_bound(items: Seq<BulkApplyItemResult>)
    ensures
        count_successes(items) <= items.len(),
    decreases items.len(),
{
    if items.len() > 0 {
        lemma_successes_bound(items.drop_last());
    }
}

/// The totals of an apply: items, successes and failures; every item is
/// counted once, as a success or as a failure.
pub fn bulk_apply_totals(items: &Vec<BulkApplyItemResult>) -> (r: (usize, usize, usize))
    ensures
        r.0 == items@.len(),
        r.1 as nat == count_successes(items@),
        r.1 + r.2 == r.0,
{
    let mut s: usize = 0;
    let mut i: usize = 0;
    while i < items.len()
        invariant
            i <= items.len(),
            s as nat == count_successes(items@.take(i as int)),
            s <= i,
        decreases items.len() - i,
    {
        assert(items@.take(i + 1).drop_last() =~= items@.take(i as int));
        assert(items@.take(i + 1).last() == items@[i as int]);
        if items[i].success {
            s += 1;
        }
        i += 1;
    }
    assert(items@.take(items.len() as int) =~= items@);
    (items.len(), s, items.len() - s)
}

// ---------------------------------------------------------------------------
// What a preview proposes for one item
// ---------------------------------------------------------------------------

/// What was found for one item under the requested action.
pub enum ActionFinding {
    /// `rename`: the target and note of `compute_rename_target`, or its refusal.
    Rename(Result<(String, String), String>),
    /// `validate_nfo`: the NFO path (or why there is none), and the text of
    /// that NFO when the file exists.
    Nfo(Result<String, String>, Option<String>),
    /// `combine_duplicates`: the uid shared by the item's duplicate group and
    /// the group's size; `None` when no groups were built.
    Duplicates(Option<(String, usize)>),
    /// `metadata_lookup`: the inferred candidate and its confidence as text.
    Metadata(MetadataCandidate, String),
    /// An action that proposes nothing beyond the sidecar plan.
    Other,
}

/// The proposal part of a preview item.
pub struct PreviewFields {
    pub proposed_media_path: Option<String>,
    pub proposed_item_uid: Option<String>,
    pub proposed_provider_id: Option<String>,
    pub metadata_title: Option<String>,
    pub metadata_year: Option<u16>,
    pub can_apply: bool,
    pub note: Option<String>,
    pub error: Option<String>,
}

/// Fields that propose only `path`, `uid` and `provider` (each `None` when
/// absent) besides the metadata, note and error given.
pub open spec fn proposes(
    f: PreviewFields,
    path: Option<Seq<char>>,
    uid: Option<Seq<char>>,
    provider: Option<Seq<char>>,
    title: Option<Seq<char>>,
    year: Option<u16>,
    can_apply: bool,
    note: Option<Seq<char>>,
    error: Option<Seq<char>>,
) -> bool {
    &&& opt_text(f.proposed_media_path) == path
    &&& opt_text(f.proposed_item_uid) == uid
    &&& opt_text(f.proposed_provider_id) == provider
    &&& opt_text(f.metadata_title) == title
    &&& f.metadata_year == year
    &&& f.can_apply == can_apply
    &&& opt_text(f.note) == note
    &&& opt_text(f.error) == error
}

/// Nothing proposed: the item cannot be applied, for the reason given.
pub open spec fn refuses(f: PreviewFields, error: Seq<char>) -> bool {
    proposes(f, None, None, None, None, None, false, None, Some(error))
}

fn refusal(error: String) -> (r: PreviewFields)
    ensures
        refuses(r, error@),
{
    PreviewFields {
        proposed_media_path: None,
        proposed_item_uid: None,
        proposed_provider_id: None,
        metadata_title: None,
        metadata_year: None,
        can_apply: false,
        note: None,
        error: Some(error),
    }
}

/// The part of `build_bulk_preview` that turns what was found for an item
/// into its proposal: a rename target, an NFO path, a shared uid or the
/// inferred metadata, each with its note; a refusal when nothing was found.
pub fn preview_fields(finding: ActionFinding) -> (r: PreviewFields)
    ensures
        match finding {
            ActionFinding::Rename(Ok((t, n))) => proposes(r, Some(t@), None, None, None, None, true, Some(n@), None),
            ActionFinding::Rename(Err(e)) => refuses(r, e@),
            ActionFinding::Nfo(Ok(p), existing) => proposes(
                r,
                Some(p@),
                None,
                None,
                None,
                None,
                true,
                Some(spec_nfo_note(existing)),
                None,
            ),
            ActionFinding::Nfo(Err(e), _) => refuses(r, e@),
            ActionFinding::Duplicates(Some((u, n))) => proposes(
                r,
                None,
                Some(u@),
                None,
                None,
                None,
                true,
                Some(spec_duplicate_note(n as nat)),
                None,
            ),
            ActionFinding::Duplicates(None) => refuses(r, "duplicate groups unavailable"@),
            ActionFinding::Metadata(c, conf) => proposes(
                r,
                None,
                None,
                Some(c.provider_id@),
                Some(c.title@),
                c.year,
                true,
                Some(spec_metadata_note(c.title@, c.year, conf@)),
                None,
            ),
            ActionFinding::Other => proposes(r, None, None, None, None, None, true, None, None),
        },
{
    match finding {
        ActionFinding::Rename(Ok((t, n))) => PreviewFields {
            proposed_media_path: Some(t),
            proposed_item_uid: None,
            proposed_provider_id: None,
            metadata_title: None,
            metadata_year: None,
            can_apply: true,
            note: Some(n),
            error: None,
        },
        ActionFinding::Rename(Err(e)) => refusal(e),
        ActionFinding::Nfo(Ok(p), existing) => {
            let note = nfo_target_note(&existing);
            PreviewFields {
                proposed_media_path: Some(p),
                proposed_item_uid: None,
                proposed_provider_id: None,
                metadata_title: None,
                metadata_year: None,
                can_apply: true,
                note: Some(note),
                error: None,
            }
        },
        ActionFinding::Nfo(Err(e), _) => refusal(e),
        ActionFinding::Duplicates(Some((u, n))) => {
            let note = duplicate_note(n);
            PreviewFields {
                proposed_media_path: None,
                proposed_item_uid: Some(u),
                proposed_provider_id: None,
                metadata_title: None,
                metadata_year: None,
                can_apply: true,
                note: Some(note),
                error: None,
            }
        },
        ActionFinding::Duplicates(None) => refusal(owned("duplicate groups unavailable")),
        ActionFinding::Metadata(c, conf) => {
            let note = metadata_note(c.title.as_str(), c.year, conf.as_str());
            PreviewFields {
                proposed_media_path: None,
                proposed_item_uid: None,
                proposed_provider_id: Some(c.provider_id),
                metadata_title: Some(c.title),
                metadata_year: c.year,
                can_apply: true,
                note: Some(note),
                error: None,
            }
        },
        ActionFinding::Other => PreviewFields {
            proposed_media_path: None,
            proposed_item_uid: None,
            proposed_provider_id: None,
            metadata_title: None,
            metadata_year: None,
            can_apply: true,
            note: None,
            error: None,
        },
    }
}

// ---------------------------------------------------------------------------
// Applying NFO and sidecar items
// ---------------------------------------------------------------------------

/// A success that changed nothing on disk.
pub open spec fn is_settled(r: BulkApplyItemResult, media_path: Seq<char>, final_path: Option<Seq<char>>, item_uid: Seq<char>) -> bool {
    &&& r.media_path@ == media_path
    &&& opt_text(r.final_media_path) == final_path
    &&& r.item_uid@ == item_uid
    &&& r.applied_provider_id is None
    &&& r.success
    &&& r.operation_id is None
    &&& r.sidecar_path is None
    &&& r.error is None
}

/// The next step of applying an NFO item.
pub enum NfoStep {
    /// The item is settled.
    Finished(BulkApplyItemResult),
    /// Write `content` to `target` (with rollback).
    Write { target: String, content: String },
}

/// The checks before writing an NFO: the preview must name the file; a file
/// that already holds text is kept; otherwise the generated NFO is written.
/// `existing` is the text of the target when it exists.
pub fn nfo_apply_step(media_path: &str, item_uid: &str, proposed: &Option<String>, existing: &Option<String>) -> (r: NfoStep)
    ensures
        match proposed {
            None => r matches NfoStep::Finished(res) && is_failure(
                res,
                media_path@,
                None,
                item_uid@,
                "nfo preview did not include target path"@,
            ),
            Some(t) => if existing matches Some(c) && trim_ws(c@).len() > 0 {
                r matches NfoStep::Finished(res) && is_settled(res, media_path@, Some(t@), item_uid@)
            } else {
                r matches NfoStep::Write { target, content } && target@ == t@ && content@ == spec_nfo_content(
                    media_path@,
                    item_uid@,
                )
            },
        },
{
    let t = match proposed {
        Some(t) => t,
        None => {
            return NfoStep::Finished(
                failure(media_path, None, item_uid, owned("nfo preview did not include target path")),
            );
        },
    };
    if let Some(c) = existing {
        if trim_chars(&chars_of(c.as_str())).len() > 0 {
            return NfoStep::Finished(
                BulkApplyItemResult {
                    media_path: owned(media_path),
                    final_media_path: Some(copy_string(t)),
                    item_uid: owned(item_uid),
                    applied_provider_id: None,
                    success: true,
                    operation_id: None,
                    sidecar_path: None,
                    error: None,
                },
            );
        }
    }
    NfoStep::Write { target: copy_string(t), content: generate_nfo_content(media_path, item_uid) }
}

/// How writing an item's sidecar ended: its operation id and sidecar path,
/// and the provider id it applied; or the error.
pub fn sidecar_write_outcome(
    media_path: &str,
    item_uid: &str,
    provider_id: Option<String>,
    written: Result<(String, String), String>,
) -> (r: BulkApplyItemResult)
    ensures
        match written {
            Err(e) => is_failure(r, media_path@, None, item_uid@, e@),
            Ok((op, path)) => {
                &&& r.success
                &&& r.media_path@ == media_path@
                &&& r.final_media_path is None
                &&& r.item_uid@ == item_uid@
                &&& opt_text(r.applied_provider_id) == opt_text(provider_id)
                &&& opt_text(r.operation_id) == Some(op@)
                &&& opt_text(r.sidecar_path) == Some(path@)
                &&& r.error is None
            },
        },
{
    match written {
        Err(e) => failure(media_path, None, item_uid, e),
        Ok((op, path)) => BulkApplyItemResult {
            media_path: owned(media_path),
            final_media_path: None,
            item_uid: owned(item_uid),
            applied_provider_id: provider_id,
            success: true,
            operation_id: Some(op),
            sidecar_path: Some(path),
            error: None,
        },
    }
}

/// The sidecar a metadata lookup writes: the existing state (a fresh one
/// when there is none) with the item's uid, the provider id as its TMDB id
/// and the lookup recorded as the applied state; nothing else changes.
pub fn metadata_sidecar_state(
    existing: Option<SidecarState>,
    item_uid: &str,
    provider_id: &str,
    applied_state: String,
) -> (r: SidecarState)
    ensures
        ({
            let base = match existing {
                Some(s) => s@,
                None => fresh_sidecar_view(item_uid@),
            };
            &&& r@.schema_version == base.schema_version
            &&& r@.item_uid == item_uid@
            &&& r@.source_fingerprints == base.source_fingerprints
            &&& r@.provider_ids.tmdb == Some(provider_id@)
            &&& r@.provider_ids.imdb == base.provider_ids.imdb
            &&& r@.provider_ids.tvdb == base.provider_ids.tvdb
            &&& r@.nfo_state == base.nfo_state
            &&& r@.preferred_policy_state == base.preferred_policy_state
            &&& r@.applied_state == applied_state@
            &&& r@.derived_artifacts == base.derived_artifacts
            &&& r@.last_reconcile_result == base.last_reconcile_result
            &&& r@.last_operation_id == base.last_operation_id
            &&& r@.protected_flags == base.protected_flags
        }),
{
    let mut state = match existing {
        Some(s) => s,
        None => SidecarState::new(owned(item_uid)),
    };
    state.item_uid = owned(item_uid);
    state.provider_ids.tmdb = Some(owned(provider_id));
    state.applied_state = applied_state;
    state
}


// ---------------------------------------------------------------------------
// Request checks
// ---------------------------------------------------------------------------

/// A bulk dry run or apply must name at least one item (400).
pub fn require_items(count: usize) -> (r: Result<(), ApiError>)
    ensures
        r is Ok <==> count > 0,
        count == 0 ==> refused(r, BAD_REQUEST, "items must not be empty"@),
{
    if count == 0 {
        Err(api_error(BAD_REQUEST, "items must not be empty"))
    } else {
        Ok(())
    }
}

/// A bulk rollback must name at least one operation (400).
pub fn require_operation_ids(count: usize) -> (r: Result<(), ApiError>)
    ensures
        r is Ok <==> count > 0,
        count == 0 ==> refused(r, BAD_REQUEST, "operation_ids must not be empty"@),
{
    if count == 0 {
        Err(api_error(BAD_REQUEST, "operation_ids must not be empty"))
    } else {
        Ok(())
    }
}

/// A bulk apply goes ahead only on the batch the operator approved: the
/// preview made now must have the approved hash (409 otherwise).
pub fn check_batch_hash(current: &str, approved: &str) -> (r: Result<(), ApiError>)
    ensures
        r is Ok <==> current@ == approved@,
        current@ != approved@ ==> refused(
            r,
            CONFLICT,
            "approved_batch_hash does not match current dry-run batch hash"@,
        ),
{
    if crate::text::str_eq(current, approved) {
        Ok(())
    } else {
        Err(api_error(CONFLICT, "approved_batch_hash does not match current dry-run batch hash"))
    }
}

// ---------------------------------------------------------------------------
// Rollbacks
// ---------------------------------------------------------------------------

/// What rolling back one operation did.
#[derive(Debug)]
pub struct BulkRollbackItemResult {
    pub operation_id: String,
    pub success: bool,
    pub detail: Option<String>,
    pub error: Option<String>,
}

/// The detail of a restored sidecar: "sidecar restored at <path>".
pub fn sidecar_restored_detail(sidecar_path: &str) -> (r: String)
    ensures
        r@ == "sidecar restored at "@ + sidecar_path@,
{
    let mut m = chars_of("sidecar restored at ");
    append_str(&mut m, sidecar_path);
    string_from_chars(&m)
}

/// The result of rolling back `operation_id`: its detail, or its error.
pub fn rollback_item(operation_id: String, outcome: Result<String, String>) -> (r: BulkRollbackItemResult)
    ensures
        r.operation_id@ == operation_id@,
        match outcome {
            Ok(d) => r.success && opt_text(r.detail) == Some(d@) && r.error is None,
            Err(e) => !r.success && r.detail is None && opt_text(r.error) == Some(e@),
        },
{
    match outcome {
        Ok(d) => BulkRollbackItemResult { operation_id, success: true, detail: Some(d), error: None },
        Err(e) => BulkRollbackItemResult { operation_id, success: false, detail: None, error: Some(e) },
    }
}

/// Rollbacks that succeeded.
pub open spec fn count_restored(items: Seq<BulkRollbackItemResult>) -> nat
    decreases items.len(),
{
    if items.len() == 0 {
        0
    } else {
        count_restored(items.drop_last()) + if items.last().success {
            1nat
        } else {
            0nat
        }
    }
}

proof fn lemma_restored_bound(items: Seq<BulkRollbackItemResult>)
    ensures
        count_restored(items) <= items.len(),
    decreases items.len(),
{
    if items.len() > 0 {
        lemma_restored_bound(items.drop_last());
    }
}

/// The totals of a bulk rollback: operations, successes and failures; each
/// operation is counted once, as a success or as a failure.
pub fn rollback_totals(items: &Vec<BulkRollbackItemResult>) -> (r: (usize, usize, usize))
    ensures
        r.0 == items@.len(),
        r.1 as nat == count_restored(items@),
        r.1 + r.2 == r.0,
{
    let mut s: usize = 0;
    let mut i: usize = 0;
    while i < items.len()
        invariant
            i <= items.len(),
            s as nat == count_restored(items@.take(i as int)),
            s <= i,
        decreases items.len() - i,
    {
        proof {
            assert(items@.take(i + 1).drop_last() =~= items@.take(i as int));
            assert(items@.take(i + 1).last() == items@[i as int]);
            lemma_restored_bound(items@.take(i as int));
        }
        if items[i].success {
            s += 1;
        }
        i += 1;
    }
    proof {
        assert(items@.take(items.len() as int) =~= items@);
    }
    (items.len(), s, items.len() - s)
}


// ---------------------------------------------------------------------------
// Dispatch of an apply
// ---------------------------------------------------------------------------

/// How a previewed item is applied.
#[derive(Debug, Clone, Copy, PartialEq, Eq, Structural)]
pub enum ApplyKind {
    NotApplicable,
    Rename,
    Nfo,
    Metadata,
    Duplicates,
    Plan,
}

/// `execute_bulk_apply`'s dispatch: an item the preview marked as not
/// applicable fails; otherwise the action, compared as the request spells
/// it, decides; any other spelling applies the item's sidecar plan.
pub open spec fn spec_apply_kind(action: Seq<char>, can_apply: bool) -> ApplyKind {
    if !can_apply {
        ApplyKind::NotApplicable
    } else if action == "rename"@ {
        ApplyKind::Rename
    } else if action == "validate_nfo"@ {
        ApplyKind::Nfo
    } else if action == "metadata_lookup"@ {
        ApplyKind::Metadata
    } else if action == "combine_duplicates"@ {
        ApplyKind::Duplicates
    } else {
        ApplyKind::Plan
    }
}

pub fn apply_kind(action: &str, can_apply: bool) -> (r: ApplyKind)
    ensures
        r == spec_apply_kind(action@, can_apply),
{
    if !can_apply {
        ApplyKind::NotApplicable
    } else if crate::text::str_eq(action, "rename") {
        ApplyKind::Rename
    } else if crate::text::str_eq(action, "validate_nfo") {
        ApplyKind::Nfo
    } else if crate::text::str_eq(action, "metadata_lookup") {
        ApplyKind::Metadata
    } else if crate::text::str_eq(action, "combine_duplicates") {
        ApplyKind::Duplicates
    } else {
        ApplyKind::Plan
    }
}


// ---------------------------------------------------------------------------
// Generated NFO files read back
// ---------------------------------------------------------------------------

proof fn lemma_find_first(s: Seq<char>, p: Seq<char>, from: int, k: int)
    requires
        0 <= from <= k,
        crate::text::occurs_at(s, p, k),
        forall|j: int| from <= j < k ==> !crate::text::occurs_at(s, p, j),
    ensures
        crate::text::find_from(s, p, from) == k,
    decreases k - from,
{
    if from < k {
        lemma_find_first(s, p, from + 1, k);
    }
}

/// A generated NFO reads back its title: the title tag of the NFO made for
/// an item holds the item's uid (trimmed), provided the uid is not blank and
/// does not itself close a title tag.
pub proof fn lemma_generated_nfo_title_roundtrip(media_path: Seq<char>, item_uid: Seq<char>)
    requires
        trim_ws(item_uid).len() > 0,
        !crate::text::contains_seq(crate::text::ascii_lower(item_uid), "</title>"@),
    ensures
        crate::metadata::spec_tag_value(spec_nfo_content(media_path, item_uid), "title"@) == Some(
            trim_ws(item_uid),
        ),
{
    reveal_strlit("<movie>\n  <title>");
    reveal_strlit("</title>\n  <originalfilename>");
    reveal_strlit("title");
    reveal_strlit("</title>");
    let c = spec_nfo_content(media_path, item_uid);
    let head = "<movie>\n  <title>"@;
    let tail = "</title>\n  <originalfilename>"@;
    let l = crate::text::ascii_lower(c);
    let open = seq!['<'] + "title"@ + seq!['>'];
    let close = seq!['<', '/'] + "title"@ + seq!['>'];
    assert(close =~= "</title>"@);
    let u = item_uid.len() as int;
    let q = 17 + u;
    assert(head.len() == 17);
    assert forall|k: int| 0 <= k < 17 implies #[trigger] c[k] == head[k] by {}
    assert forall|k: int| 17 <= k < q implies #[trigger] c[k] == item_uid[k - 17] by {}
    assert forall|k: int| q <= k < q + 8 implies #[trigger] c[k] == tail[k - q] by {}
    assert(c.len() >= q + 8);
    // The opening tag.
    assert(l.subrange(10, 17) =~= open);
    assert forall|j: int| 0 <= j < 10 implies !crate::text::occurs_at(l, open, j) by {
        if crate::text::occurs_at(l, open, j) {
            assert(l.subrange(j, j + 7)[0] == l[j]);
            assert(l.subrange(j, j + 7)[1] == l[j + 1]);
        }
    }
    lemma_find_first(l, open, 0, 10);
    // The closing tag, right after the uid.
    assert(l.subrange(q, q + 8) =~= close);
    let lu = crate::text::ascii_lower(item_uid);
    assert forall|k: int| 17 <= k < q implies #[trigger] l[k] == lu[k - 17] by {}
    assert(l[q] == '<');
    assert forall|d: int| 1 <= d < 8 implies #[trigger] close[d] != '<' by {}
    assert forall|j: int| 17 <= j < q implies !crate::text::occurs_at(l, close, j) by {
        if crate::text::occurs_at(l, close, j) {
            if j + 8 <= q {
                assert(lu.subrange(j - 17, j - 17 + 8) =~= l.subrange(j, j + 8));
                assert(crate::text::occurs_at(lu, close, j - 17));
                assert(crate::text::contains_seq(lu, close));
            } else {
                let d = q - j;
                assert(l.subrange(j, j + 8)[d] == l[q]);
                assert(close[d] != '<');
            }
        }
    }
    lemma_find_first(l, close, 17, q);
    assert(c.subrange(17, q) =~= item_uid);
}

// ---------------------------------------------------------------------------
// Preview fingerprint
// ---------------------------------------------------------------------------

/// What the fingerprint of a bulk preview reads of one item (the
/// confidence by the bits of its `f32`, the plan by its hash).
pub struct PreviewFingerprintItem {
    pub media_path: String,
    pub item_uid: String,
    pub can_apply: bool,
    pub proposed_media_path: Option<String>,
    pub proposed_item_uid: Option<String>,
    pub proposed_provider_id: Option<String>,
    pub metadata_title: Option<String>,
    pub metadata_year: Option<u16>,
    pub metadata_confidence_bits: Option<u32>,
    pub note: Option<String>,
    pub plan_hash: Option<String>,
    pub error: Option<String>,
}

/// What hashing an optional text feeds: the text if there is one.
pub open spec fn opt_str_writes(o: Option<String>) -> Seq<Seq<u8>> {
    match o {
        Some(s) => str_writes(s@),
        None => seq![],
    }
}

/// What one item feeds the hasher before its integers: its paths, uid,
/// whether it can be applied, and the proposed values and title it has.
pub open spec fn item_head_writes(it: PreviewFingerprintItem) -> Seq<Seq<u8>> {
    str_writes(it.media_path@) + str_writes(it.item_uid@) + seq![seq![if it.can_apply { 1u8 } else { 0u8 }]]
        + opt_str_writes(it.proposed_media_path) + opt_str_writes(it.proposed_item_uid)
        + opt_str_writes(it.proposed_provider_id) + opt_str_writes(it.metadata_title)
}

/// The year and the confidence bits, where present, in the machine's byte
/// order (least significant first when `little`).
pub open spec fn item_int_writes(it: PreviewFingerprintItem, little: bool) -> Seq<Seq<u8>> {
    (match it.metadata_year {
        Some(y) => seq![u16_bytes(y, little)],
        None => seq![],
    }) + (match it.metadata_confidence_bits {
        Some(c) => seq![u32_bytes(c, little)],
        None => seq![],
    })
}

/// The note, the plan hash and the error, where present.
pub open spec fn item_tail_writes(it: PreviewFingerprintItem) -> Seq<Seq<u8>> {
    opt_str_writes(it.note) + opt_str_writes(it.plan_hash) + opt_str_writes(it.error)
}

/// What one item feeds the hasher, in the order the preview hashes it.
pub open spec fn item_writes(it: PreviewFingerprintItem, little: bool) -> Seq<Seq<u8>> {
    item_head_writes(it) + item_int_writes(it, little) + item_tail_writes(it)
}

pub open spec fn items_writes(items: Seq<PreviewFingerprintItem>, little: bool) -> Seq<Seq<u8>>
    decreases items.len(),
{
    if items.len() == 0 {
        seq![]
    } else {
        items_writes(items.drop_last(), little) + item_writes(items.last(), little)
    }
}

/// `hash_bulk_preview`: the default hash of the action and of what each item
/// proposes, in sixteen lower-case hex digits, on a machine with the given
/// byte order.
pub open spec fn spec_preview_fingerprint(action: Seq<char>, items: Seq<PreviewFingerprintItem>, little: bool) -> Seq<char> {
    hex_fixed(DefaultHasher::spec_finish(str_writes(action) + items_writes(items, little)) as nat, 16)
}

fn write_opt_str(h: &mut DefaultHasher, o: &Option<String>)
    ensures
        final(h)@ == old(h)@ + opt_str_writes(*o),
{
    match o {
        Some(s) => write_str(h, s.as_str()),
        None => {
            assert(old(h)@ + opt_str_writes(*o) =~= old(h)@);
        },
    }
}

fn write_item_head(h: &mut DefaultHasher, it: &PreviewFingerprintItem)
    ensures
        final(h)@ == old(h)@ + item_head_writes(*it),
{
    let ghost s0 = h@;
    write_str(h, it.media_path.as_str());
    write_str(h, it.item_uid.as_str());
    let ghost s1 = h@;
    assert(s1 =~= s0 + (str_writes(it.media_path@) + str_writes(it.item_uid@)));
    write_bool(h, it.can_apply);
    let ghost s2 = h@;
    assert(s2 =~= s0 + (str_writes(it.media_path@) + str_writes(it.item_uid@) + seq![
        seq![if it.can_apply { 1u8 } else { 0u8 }],
    ]));
    write_opt_str(h, &it.proposed_media_path);
    write_opt_str(h, &it.proposed_item_uid);
    let ghost s3 = h@;
    assert(s3 =~= s0 + (str_writes(it.media_path@) + str_writes(it.item_uid@) + seq![
        seq![if it.can_apply { 1u8 } else { 0u8 }],
    ] + opt_str_writes(it.proposed_media_path) + opt_str_writes(it.proposed_item_uid)));
    write_opt_str(h, &it.proposed_provider_id);
    write_opt_str(h, &it.metadata_title);
    assert(h@ =~= s0 + item_head_writes(*it));
}

fn write_item_ints(h: &mut DefaultHasher, it: &PreviewFingerprintItem, little: bool)
    ensures
        final(h)@ == old(h)@ + item_int_writes(*it, little),
{
    let ghost s0 = h@;
    match it.metadata_year {
        Some(y) => write_u16_in(h, y, little),
        None => {},
    }
    match it.metadata_confidence_bits {
        Some(c) => write_u32_in(h, c, little),
        None => {},
    }
    assert(h@ =~= s0 + item_int_writes(*it, little));
}

fn write_item_tail(h: &mut DefaultHasher, it: &PreviewFingerprintItem)
    ensures
        final(h)@ == old(h)@ + item_tail_writes(*it),
{
    let ghost s0 = h@;
    write_opt_str(h, &it.note);
    write_opt_str(h, &it.plan_hash);
    write_opt_str(h, &it.error);
    assert(h@ =~= s0 + item_tail_writes(*it));
}

fn write_item(h: &mut DefaultHasher, it: &PreviewFingerprintItem, little: bool)
    ensures
        final(h)@ == old(h)@ + item_writes(*it, little),
{
    let ghost s0 = h@;
    write_item_head(h, it);
    write_item_ints(h, it, little);
    write_item_tail(h, it);
    assert(h@ =~= s0 + item_writes(*it, little));
}

/// The preview fingerprint as a machine with the given byte order computes it.
pub fn preview_fingerprint_in_order(action: &str, items: &Vec<PreviewFingerprintItem>, little: bool) -> (r: String)
    ensures
        r@ == spec_preview_fingerprint(action@, items@, little),
{
    let mut hasher = DefaultHasher::new();
    write_str(&mut hasher, action);
    let mut i: usize = 0;
    while i < items.len()
        invariant
            i <= items.len(),
            hasher@ == str_writes(action@) + items_writes(items@.take(i as int), little),
        decreases items.len() - i,
    {
        assert(items@.take(i + 1).drop_last() =~= items@.take(i as int));
        assert(items@.take(i + 1).last() == items@[i as int]);
        write_item(&mut hasher, &items[i], little);
        assert(hasher@ =~= str_writes(action@) + items_writes(items@.take(i + 1), little));
        i += 1;
    }
    assert(items@.take(items.len() as int) =~= items@);
    let h = hasher.finish();
    string_from_chars(&hex_fixed_chars(h, 16))
}

/// `hash_bulk_preview`: the batch hash an apply must be approved with.  The
/// integers are hashed in this machine's byte order, so the hash is the one
/// for one of the two orders.
pub fn hash_bulk_preview(action: &str, items: &Vec<PreviewFingerprintItem>) -> (r: String)
    ensures
        r@ == spec_preview_fingerprint(action@, items@, true) || r@ == spec_preview_fingerprint(action@, items@, false),
{
    let little = native_little_endian();
    preview_fingerprint_in_order(action, items, little)
}

} // verus!
