use vstd::prelude::*;

use std::collections::hash_map::DefaultHasher;
use std::hash::Hasher;
use vstd::std_specs::hash::DefaultHasherAdditionalSpecFns;

use crate::domain::sidecar::{
    copy_opt_state, fresh_sidecar_view, opt_state_view, SidecarState, SidecarStateView,
};
use crate::fingerprint::{str_writes, write_str};
use crate::paths::{join_chars, path_join};
use crate::text::{append_str, chars_of, copy_string, hex_fixed, hex_fixed_chars, str_eq, string_from_chars};

verus! {

#[derive(Debug, Clone, Copy, PartialEq, Eq, Structural)]
pub enum SidecarPlanAction {
    Create,
    Update,
    Noop,
}

/// A dry-run of writing the sidecar for one media item.
#[derive(Debug)]
pub struct SidecarPlan {
    pub plan_hash: String,
    pub media_path: String,
    pub sidecar_path: String,
    pub action: SidecarPlanAction,
    pub existing_state: Option<SidecarState>,
    pub next_state: SidecarState,
}

/// What is needed to undo an applied plan: the sidecar as it was before.
#[derive(Debug)]
pub struct RollbackSnapshot {
    pub operation_id: String,
    pub created_at_ms: u128,
    pub sidecar_path: String,
    pub previous_state: Option<SidecarState>,
}

#[derive(Debug)]
pub struct SidecarApplyResult {
    pub operation_id: String,
    pub sidecar_path: String,
    pub applied_state: SidecarState,
}

#[derive(Debug)]
pub struct SidecarRollbackResult {
    pub operation_id: String,
    pub sidecar_path: String,
    pub restored: bool,
}

#[derive(Debug)]
pub enum SidecarWorkflowError {
    Store(String),
    PlanMismatch,
    RollbackSnapshotMissing(String),
    RollbackSnapshotDecode(String),
    RollbackSnapshotEncode(String),
    RollbackSnapshotWrite(String),
    RollbackSnapshotDelete(String),
}

pub open spec fn workflow_error_message(e: SidecarWorkflowError) -> Seq<char> {
    match e {
        SidecarWorkflowError::Store(d) => "sidecar store error: "@ + d@,
        SidecarWorkflowError::PlanMismatch => "plan mismatch: approved hash does not match current plan"@,
        SidecarWorkflowError::RollbackSnapshotMissing(d) => "rollback snapshot not found for operation: "@ + d@,
        SidecarWorkflowError::RollbackSnapshotDecode(d) => "rollback snapshot decode failed: "@ + d@,
        SidecarWorkflowError::RollbackSnapshotEncode(d) => "rollback snapshot encode failed: "@ + d@,
        SidecarWorkflowError::RollbackSnapshotWrite(d) => "rollback snapshot write failed: "@ + d@,
        SidecarWorkflowError::RollbackSnapshotDelete(d) => "rollback snapshot delete failed: "@ + d@,
    }
}

impl SidecarWorkflowError {
    /// The error's message text.
    pub fn message(&self) -> (r: String)
        ensures
            r@ == workflow_error_message(*self),
    {
        let mut v: Vec<char> = Vec::new();
        match self {
            SidecarWorkflowError::Store(d) => {
                append_str(&mut v, "sidecar store error: ");
                append_str(&mut v, d.as_str());
            },
            SidecarWorkflowError::PlanMismatch => {
                append_str(&mut v, "plan mismatch: approved hash does not match current plan");
                assert(v@ =~= "plan mismatch: approved hash does not match current plan"@);
            },
            SidecarWorkflowError::RollbackSnapshotMissing(d) => {
                append_str(&mut v, "rollback snapshot not found for operation: ");
                append_str(&mut v, d.as_str());
            },
            SidecarWorkflowError::RollbackSnapshotDecode(d) => {
                append_str(&mut v, "rollback snapshot decode failed: ");
                append_str(&mut v, d.as_str());
            },
            SidecarWorkflowError::RollbackSnapshotEncode(d) => {
                append_str(&mut v, "rollback snapshot encode failed: ");
                append_str(&mut v, d.as_str());
            },
            SidecarWorkflowError::RollbackSnapshotWrite(d) => {
                append_str(&mut v, "rollback snapshot write failed: ");
                append_str(&mut v, d.as_str());
            },
            SidecarWorkflowError::RollbackSnapshotDelete(d) => {
                append_str(&mut v, "rollback snapshot delete failed: ");
                append_str(&mut v, d.as_str());
            },
        }
        string_from_chars(&v)
    }
}

// ---------------------------------------------------------------------------
// Planning
// ---------------------------------------------------------------------------

/// The state a plan writes: the existing state with the requested item uid,
/// or a fresh state for that uid when no sidecar exists yet.
pub open spec fn spec_next_state(
    existing: Option<SidecarStateView>,
    item_uid: Seq<char>,
) -> SidecarStateView {
    match existing {
        None => fresh_sidecar_view(item_uid),
        Some(s) => SidecarStateView { item_uid, ..s },
    }
}

/// Create when no sidecar exists, Noop when it already carries the uid,
/// Update otherwise.
pub open spec fn spec_plan_action(
    existing: Option<SidecarStateView>,
    item_uid: Seq<char>,
) -> SidecarPlanAction {
    match existing {
        None => SidecarPlanAction::Create,
        Some(s) => if s.item_uid == item_uid {
            SidecarPlanAction::Noop
        } else {
            SidecarPlanAction::Update
        },
    }
}

/// The action and the next state for giving an item the uid `item_uid`.
pub fn plan_next_state(existing: &Option<SidecarState>, item_uid: &str) -> (r: (
    SidecarPlanAction,
    SidecarState,
))
    ensures
        r.0 == spec_plan_action(opt_state_view(*existing), item_uid@),
        r.1@ == spec_next_state(opt_state_view(*existing), item_uid@),
{
    let uid = crate::text::owned(item_uid);
    match existing {
        None => (SidecarPlanAction::Create, SidecarState::new(uid)),
        Some(current) => {
            let same = str_eq(current.item_uid.as_str(), item_uid);
            let mut next = current.copy();
            next.item_uid = uid;
            let action = if same {
                SidecarPlanAction::Noop
            } else {
                SidecarPlanAction::Update
            };
            (action, next)
        },
    }
}

/// The plan for the sidecar at `sidecar_path`, given the state read from it
/// (`None` when it does not exist) and the fingerprint `plan_hash` of the
/// planned change.
pub fn build_plan(
    media_path: String,
    sidecar_path: String,
    existing_state: Option<SidecarState>,
    item_uid: &str,
    plan_hash: String,
) -> (r: SidecarPlan)
    ensures
        r.plan_hash@ == plan_hash@,
        r.media_path@ == media_path@,
        r.sidecar_path@ == sidecar_path@,
        opt_state_view(r.existing_state) == opt_state_view(existing_state),
        r.action == spec_plan_action(opt_state_view(existing_state), item_uid@),
        r.next_state@ == spec_next_state(opt_state_view(existing_state), item_uid@),
{
    let (action, next_state) = plan_next_state(&existing_state, item_uid);
    SidecarPlan { plan_hash, media_path, sidecar_path, action, existing_state, next_state }
}

/// The state a plan with a desired policy writes: the plain next state, whose
/// preferred policy becomes the desired one (a JSON document) when given.
pub open spec fn spec_next_state_with_policy(
    existing: Option<SidecarStateView>,
    item_uid: Seq<char>,
    policy: Option<Seq<char>>,
) -> SidecarStateView {
    let s = spec_next_state(existing, item_uid);
    match policy {
        None => s,
        Some(p) => SidecarStateView { preferred_policy_state: p, ..s },
    }
}

/// Create when no sidecar exists; Noop when it already carries the uid and,
/// when one is given, the desired policy; Update otherwise.
pub open spec fn spec_plan_action_with_policy(
    existing: Option<SidecarStateView>,
    item_uid: Seq<char>,
    policy: Option<Seq<char>>,
) -> SidecarPlanAction {
    match existing {
        None => SidecarPlanAction::Create,
        Some(s) => if s.item_uid == item_uid && (policy matches Some(p) ==> s.preferred_policy_state == p) {
            SidecarPlanAction::Noop
        } else {
            SidecarPlanAction::Update
        },
    }
}

pub open spec fn opt_policy(o: Option<String>) -> Option<Seq<char>> {
    match o {
        Some(p) => Some(p@),
        None => None,
    }
}

/// The action and the next state for giving an item the uid `item_uid` and,
/// when given, the preferred policy `policy`.
pub fn plan_next_state_with_policy(
    existing: &Option<SidecarState>,
    item_uid: &str,
    policy: &Option<String>,
) -> (r: (SidecarPlanAction, SidecarState))
    ensures
        r.0 == spec_plan_action_with_policy(opt_state_view(*existing), item_uid@, opt_policy(*policy)),
        r.1@ == spec_next_state_with_policy(opt_state_view(*existing), item_uid@, opt_policy(*policy)),
{
    let (action, mut next) = plan_next_state(existing, item_uid);
    let mut action = action;
    if let Some(p) = policy {
        if let Some(current) = existing {
            if !str_eq(current.preferred_policy_state.as_str(), p.as_str()) {
                action = match action {
                    SidecarPlanAction::Create => SidecarPlanAction::Create,
                    _ => SidecarPlanAction::Update,
                };
            }
        }
        next.preferred_policy_state = copy_string(p);
    }
    (action, next)
}

/// `build_plan_with_desired_state`: the plan for the sidecar at
/// `sidecar_path` that gives the item `item_uid` and, when given, the desired
/// policy document `desired_policy`.
pub fn build_plan_with_desired_state(
    media_path: String,
    sidecar_path: String,
    existing_state: Option<SidecarState>,
    item_uid: &str,
    desired_policy: Option<String>,
    plan_hash: String,
) -> (r: SidecarPlan)
    ensures
        r.plan_hash@ == plan_hash@,
        r.media_path@ == media_path@,
        r.sidecar_path@ == sidecar_path@,
        opt_state_view(r.existing_state) == opt_state_view(existing_state),
        r.action == spec_plan_action_with_policy(opt_state_view(existing_state), item_uid@, opt_policy(desired_policy)),
        r.next_state@ == spec_next_state_with_policy(opt_state_view(existing_state), item_uid@, opt_policy(desired_policy)),
{
    let (action, next_state) = plan_next_state_with_policy(&existing_state, item_uid, &desired_policy);
    SidecarPlan { plan_hash, media_path, sidecar_path, action, existing_state, next_state }
}

// ---------------------------------------------------------------------------
// Apply
// ---------------------------------------------------------------------------

/// What applying a plan does: record the snapshot, then write the state.
#[derive(Debug)]
pub struct SidecarApply {
    pub snapshot: RollbackSnapshot,
    pub result: SidecarApplyResult,
}

/// `a` is the apply of `plan` under operation `operation_id` at `created_at_ms`:
/// the snapshot keeps the sidecar as the plan found it, and exactly the
/// planned state is written to the planned path.
pub open spec fn applies_plan(
    plan: SidecarPlan,
    operation_id: Seq<char>,
    created_at_ms: u128,
    a: SidecarApply,
) -> bool {
    &&& a.snapshot.operation_id@ == operation_id
    &&& a.snapshot.created_at_ms == created_at_ms
    &&& a.snapshot.sidecar_path@ == plan.sidecar_path@
    &&& opt_state_view(a.snapshot.previous_state) == opt_state_view(plan.existing_state)
    &&& a.result.operation_id@ == operation_id
    &&& a.result.sidecar_path@ == plan.sidecar_path@
    &&& a.result.applied_state@ == plan.next_state@
}

/// Applies a dry-run plan only when its hash is the approved one; the apply
/// then writes exactly what the dry-run showed.
pub fn apply_plan(
    plan: &SidecarPlan,
    approved_plan_hash: &str,
    operation_id: String,
    created_at_ms: u128,
) -> (r: Result<SidecarApply, SidecarWorkflowError>)
    ensures
        r is Err <==> plan.plan_hash@ != approved_plan_hash@,
        r matches Err(e) ==> e is PlanMismatch,
        r matches Ok(a) ==> applies_plan(*plan, operation_id@, created_at_ms, a),
{
    if !str_eq(plan.plan_hash.as_str(), approved_plan_hash) {
        return Err(SidecarWorkflowError::PlanMismatch);
    }
    let snapshot = RollbackSnapshot {
        operation_id: copy_string(&operation_id),
        created_at_ms,
        sidecar_path: copy_string(&plan.sidecar_path),
        previous_state: copy_opt_state(&plan.existing_state),
    };
    let result = SidecarApplyResult {
        operation_id,
        sidecar_path: copy_string(&plan.sidecar_path),
        applied_state: plan.next_state.copy(),
    };
    Ok(SidecarApply { snapshot, result })
}

// ---------------------------------------------------------------------------
// Rollback
// ---------------------------------------------------------------------------

/// A change to one sidecar file.
#[derive(Debug)]
pub enum SidecarFileChange {
    Write { path: String, state: SidecarState },
    Delete { path: String },
}

#[derive(Debug)]
pub struct SidecarRollback {
    pub change: SidecarFileChange,
    pub result: SidecarRollbackResult,
}

/// The change that puts a sidecar back as the snapshot recorded it:
/// rewrite the previous state, or remove the file when there was none.
pub open spec fn restores_snapshot(snapshot: RollbackSnapshot, change: SidecarFileChange) -> bool {
    match snapshot.previous_state {
        Some(prev) => change matches SidecarFileChange::Write { path, state } && path@
            == snapshot.sidecar_path@ && state@ == prev@,
        None => change matches SidecarFileChange::Delete { path } && path@
            == snapshot.sidecar_path@,
    }
}

/// Undoes operation `operation_id` from its snapshot (`None` when no snapshot
/// is stored for it).
pub fn rollback_operation(operation_id: &str, snapshot: Option<RollbackSnapshot>) -> (r: Result<
    SidecarRollback,
    SidecarWorkflowError,
>)
    ensures
        snapshot is None <==> r is Err,
        r matches Err(e) ==> (e matches SidecarWorkflowError::RollbackSnapshotMissing(id) && id@
            == operation_id@),
        r matches Ok(rb) ==> {
            &&& restores_snapshot(snapshot->Some_0, rb.change)
            &&& rb.result.operation_id@ == operation_id@
            &&& rb.result.sidecar_path@ == snapshot->Some_0.sidecar_path@
            &&& rb.result.restored
        },
{
    match snapshot {
        None => Err(SidecarWorkflowError::RollbackSnapshotMissing(crate::text::owned(operation_id))),
        Some(snap) => {
            let result = SidecarRollbackResult {
                operation_id: crate::text::owned(operation_id),
                sidecar_path: copy_string(&snap.sidecar_path),
                restored: true,
            };
            let change = match snap.previous_state {
                Some(prev) => SidecarFileChange::Write { path: snap.sidecar_path, state: prev },
                None => SidecarFileChange::Delete { path: snap.sidecar_path },
            };
            Ok(SidecarRollback { change, result })
        },
    }
}

/// Where the snapshot of operation `operation_id` is kept:
/// `<state_dir>/rollback/<operation_id>.json`.
pub open spec fn spec_rollback_snapshot_path(state_dir: Seq<char>, operation_id: Seq<char>) -> Seq<
    char,
> {
    path_join(path_join(state_dir, "rollback"@), operation_id + ".json"@)
}

pub fn rollback_snapshot_path(state_dir: &str, operation_id: &str) -> (r: String)
    ensures
        r@ == spec_rollback_snapshot_path(state_dir@, operation_id@),
{
    let dir = chars_of(state_dir);
    let sub = chars_of("rollback");
    let mut name = chars_of(operation_id);
    append_str(&mut name, ".json");
    let d = join_chars(&dir, &sub);
    let p = join_chars(&d, &name);
    string_from_chars(&p)
}

// ---------------------------------------------------------------------------
// The sidecar files as a map, and what apply and rollback do to them
// ---------------------------------------------------------------------------

/// The sidecar state stored at `path`, if any.
pub open spec fn stored_at(files: Map<Seq<char>, SidecarStateView>, path: Seq<char>) -> Option<
    SidecarStateView,
> {
    if files.contains_key(path) {
        Some(files[path])
    } else {
        None
    }
}

/// The sidecar files after an apply wrote its state.
pub open spec fn after_apply(files: Map<Seq<char>, SidecarStateView>, a: SidecarApply) -> Map<
    Seq<char>,
    SidecarStateView,
> {
    files.insert(a.result.sidecar_path@, a.result.applied_state@)
}

/// The sidecar files after a change was made.
pub open spec fn after_change(
    files: Map<Seq<char>, SidecarStateView>,
    change: SidecarFileChange,
) -> Map<Seq<char>, SidecarStateView> {
    match change {
        SidecarFileChange::Write { path, state } => files.insert(path@, state@),
        SidecarFileChange::Delete { path } => files.remove(path@),
    }
}

/// Rolling back an applied plan restores every sidecar file as it was when
/// the plan was made: the changed file gets its old state back, or is removed
/// when it did not exist, and no other file is touched.
pub proof fn lemma_rollback_restores_sidecar_files(
    files: Map<Seq<char>, SidecarStateView>,
    plan: SidecarPlan,
    operation_id: Seq<char>,
    created_at_ms: u128,
    applied: SidecarApply,
    rollback: SidecarRollback,
)
    requires
        opt_state_view(plan.existing_state) == stored_at(files, plan.sidecar_path@),
        applies_plan(plan, operation_id, created_at_ms, applied),
        restores_snapshot(applied.snapshot, rollback.change),
    ensures
        after_change(after_apply(files, applied), rollback.change) == files,
{
    let p = plan.sidecar_path@;
    match applied.snapshot.previous_state {
        Some(prev) => {
            assert(files.contains_key(p));
            assert(after_change(after_apply(files, applied), rollback.change) =~= files);
        },
        None => {
            assert(!files.contains_key(p));
            assert(after_change(after_apply(files, applied), rollback.change) =~= files);
        },
    }
}

/// After a plan for `item_uid` is applied, planning the same uid again for
/// the same sidecar finds nothing to do.
pub proof fn lemma_replan_after_apply_is_noop(
    files: Map<Seq<char>, SidecarStateView>,
    plan: SidecarPlan,
    item_uid: Seq<char>,
    operation_id: Seq<char>,
    created_at_ms: u128,
    applied: SidecarApply,
)
    requires
        plan.next_state@ == spec_next_state(opt_state_view(plan.existing_state), item_uid),
        applies_plan(plan, operation_id, created_at_ms, applied),
    ensures
        spec_plan_action(stored_at(after_apply(files, applied), plan.sidecar_path@), item_uid)
            == SidecarPlanAction::Noop,
        spec_next_state(stored_at(after_apply(files, applied), plan.sidecar_path@), item_uid)
            == plan.next_state@,
{
}


/// After a plan that gives an item a uid and a desired policy is applied,
/// planning the same uid and policy again for the same sidecar finds nothing
/// to do.
pub proof fn lemma_replan_with_policy_after_apply_is_noop(
    files: Map<Seq<char>, SidecarStateView>,
    plan: SidecarPlan,
    item_uid: Seq<char>,
    policy: Option<Seq<char>>,
    operation_id: Seq<char>,
    created_at_ms: u128,
    applied: SidecarApply,
)
    requires
        plan.next_state@ == spec_next_state_with_policy(opt_state_view(plan.existing_state), item_uid, policy),
        applies_plan(plan, operation_id, created_at_ms, applied),
    ensures
        spec_plan_action_with_policy(stored_at(after_apply(files, applied), plan.sidecar_path@), item_uid, policy)
            == SidecarPlanAction::Noop,
        spec_next_state_with_policy(stored_at(after_apply(files, applied), plan.sidecar_path@), item_uid, policy)
            == plan.next_state@,
{
    let stored = plan.next_state@;
    assert(stored_at(after_apply(files, applied), plan.sidecar_path@) == Some(stored));
    match policy {
        None => {},
        Some(p) => {
            assert(spec_next_state_with_policy(Some(stored), item_uid, policy) =~= stored);
        },
    }
}

/// What a plan's fingerprint feeds the default hasher: the sidecar path and
/// the two JSON documents, each as a `str` hashes.
pub open spec fn plan_hash_writes(sidecar_path: Seq<char>, existing_json: Seq<char>, next_json: Seq<char>) -> Seq<Seq<u8>> {
    str_writes(sidecar_path) + str_writes(existing_json) + str_writes(next_json)
}

/// The fingerprint of a planned sidecar change: the default hash of the
/// sidecar path and the JSON of the existing and next states, in sixteen
/// lower-case hex digits.
pub open spec fn spec_plan_hash(sidecar_path: Seq<char>, existing_json: Seq<char>, next_json: Seq<char>) -> Seq<char> {
    hex_fixed(DefaultHasher::spec_finish(plan_hash_writes(sidecar_path, existing_json, next_json)) as nat, 16)
}

/// The plan hash that an apply must be approved with.
pub fn plan_hash(sidecar_path: &str, existing_json: &str, next_json: &str) -> (r: String)
    ensures
        r@ == spec_plan_hash(sidecar_path@, existing_json@, next_json@),
{
    let mut hasher = DefaultHasher::new();
    write_str(&mut hasher, sidecar_path);
    write_str(&mut hasher, existing_json);
    write_str(&mut hasher, next_json);
    assert(hasher@ =~= plan_hash_writes(sidecar_path@, existing_json@, next_json@));
    let h = hasher.finish();
    string_from_chars(&hex_fixed_chars(h, 16))
}

} // verus!
