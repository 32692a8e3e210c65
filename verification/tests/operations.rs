use std::collections::HashSet;

use sha2::{Digest, Sha256};

use media_manager::bulk::{
    bulk_apply_totals, derive_item_uid, duplicate_note, generate_nfo_content, metadata_note,
    not_applicable, nfo_target_note, nfo_target_path, path_error_escalates, rename_apply_outcome,
    rename_apply_step, summarize_preview, write_outcome, RenameStep,
};
use media_manager::consolidation::{check_quarantine_request, kept_item, moved_item, quarantine_target, skipped_item};
use media_manager::api_error::api_error;
use media_manager::fs_rollback::{is_fs_operation_id, rename_snapshot, rollback_fs_operation, write_text_snapshot, FsChange};
use media_manager::ids::format_operation_id;
use media_manager::jobs::{check_cancel_job, check_retry_job, JobRecord, JobStatus, RetryKind};
use media_manager::operations::{OperationKind, OperationLog, MAX_EVENTS};
use media_manager::probe::{digest_hex, summarize_streams, StreamInfo};
use media_manager::sidecar_workflow::{apply_plan, build_plan, rollback_operation, SidecarPlanAction};
use media_manager::domain::sidecar::SidecarState;
use media_manager::stores::{migrations, pending_migrations, AuditStoreError, DbMigrationError, LATEST_SCHEMA_VERSION};

fn job(kind: &str, status: JobStatus) -> Option<JobRecord> {
    Some(JobRecord {
        id: 7,
        kind: kind.to_string(),
        status,
        created_at_ms: 1,
        updated_at_ms: 2,
        payload_json: "{}".to_string(),
        result_json: None,
        error: None,
    })
}

#[test]
fn operation_ids_are_unique_for_many_generations() {
    let mut ids = HashSet::new();
    for nonce in 0..2_000_u64 {
        let id = format_operation_id("op", 1_700_000_000_000, nonce, 4242);
        assert!(ids.insert(id));
    }
    assert_eq!(format_operation_id("fsop", 12, 3, 45), "fsop-12-3-45");
    assert!(is_fs_operation_id("fsop-12-3-45"));
    assert!(!is_fs_operation_id("op-12-3-45"));
}

#[test]
fn operation_log_keeps_newest_first_and_caps() {
    let mut log = OperationLog::new();
    for i in 0..(MAX_EVENTS + 5) {
        log.push(OperationKind::ScanSummary, format!("event {i}"), i % 2 == 0);
    }
    assert_eq!(log.len(), MAX_EVENTS);
    let recent = log.recent(3);
    assert_eq!(recent.len(), 3);
    assert_eq!(recent[0].detail, format!("event {}", MAX_EVENTS + 4));
    assert_eq!(recent[2].detail, format!("event {}", MAX_EVENTS + 2));
    assert_eq!(OperationKind::from_db_str(OperationKind::JobControl.as_str()), OperationKind::JobControl);
}

#[test]
fn job_controls() {
    assert!(check_cancel_job(7, &job("bulk_apply", JobStatus::Running)).is_ok());
    let e = check_cancel_job(7, &None).expect_err("missing");
    assert_eq!((e.status, e.message.as_str()), (404, "job 7 was not found"));
    let e = check_cancel_job(7, &job("library_index", JobStatus::Running)).expect_err("not bulk");
    assert_eq!(e.status, 400);
    let e = check_cancel_job(7, &job("bulk_apply", JobStatus::Failed)).expect_err("not running");
    assert_eq!(e.status, 409);
    assert_eq!(check_retry_job(7, &job("bulk_dry_run", JobStatus::Failed)).ok(), Some(RetryKind::BulkDryRun));
    assert_eq!(check_retry_job(7, &job("bulk_apply", JobStatus::Succeeded)).ok(), Some(RetryKind::BulkApply));
    assert_eq!(check_retry_job(7, &job("bulk_other", JobStatus::Failed)).ok(), Some(RetryKind::Unsupported));
    assert_eq!(check_retry_job(-3, &None).err().map(|e| e.message), Some("job -3 was not found".to_string()));
    assert_eq!(JobStatus::from_str(JobStatus::Canceled.as_str()), JobStatus::Canceled);
}

#[test]
fn sidecar_dry_run_apply_and_rollback() {
    let plan = build_plan(
        "/lib/a.mkv".to_string(),
        "/lib/.mm.json".to_string(),
        None,
        "item-1",
        "hash-1".to_string(),
    );
    assert_eq!(plan.action, SidecarPlanAction::Create);
    assert_eq!(plan.next_state.item_uid, "item-1");
    assert!(apply_plan(&plan, "other-hash", "op-1".to_string(), 5).is_err());
    let applied = apply_plan(&plan, "hash-1", "op-1".to_string(), 5).expect("applied");
    assert_eq!(applied.result.sidecar_path, "/lib/.mm.json");
    assert!(applied.snapshot.previous_state.is_none());
    let rb = rollback_operation("op-1", Some(applied.snapshot)).expect("rollback");
    assert!(rb.result.restored);
    assert!(rollback_operation("op-2", None).is_err());

    let existing = SidecarState::new("old-uid".to_string());
    let plan2 = build_plan("/lib/a.mkv".to_string(), "/lib/.mm.json".to_string(), Some(existing), "new-uid", "h".to_string());
    assert_eq!(plan2.action, SidecarPlanAction::Update);
    let same = SidecarState::new("same".to_string());
    let plan3 = build_plan("/lib/a.mkv".to_string(), "/lib/.mm.json".to_string(), Some(same), "same", "h".to_string());
    assert_eq!(plan3.action, SidecarPlanAction::Noop);
}

#[test]
fn file_operation_rollbacks() {
    let snap = rename_snapshot("fsop-1".to_string(), 1, "/a".to_string(), "/b".to_string());
    let step = rollback_fs_operation(snap, false, true).expect("undo");
    assert_eq!(step.detail, "renamed /b back to /a");
    assert!(matches!(step.change, FsChange::RenameFile { .. }));
    let snap = rename_snapshot("fsop-1".to_string(), 1, "/a".to_string(), "/b".to_string());
    assert_eq!(rollback_fs_operation(snap, false, false).err(), Some("rollback failed: target path missing (/b)".to_string()));
    let snap = rename_snapshot("fsop-1".to_string(), 1, "/a".to_string(), "/b".to_string());
    assert_eq!(rollback_fs_operation(snap, true, true).err(), Some("rollback failed: source path already exists (/a)".to_string()));
    let snap = write_text_snapshot("fsop-2".to_string(), 1, "/n.nfo".to_string(), None);
    let step = rollback_fs_operation(snap, false, false).expect("remove");
    assert!(matches!(step.change, FsChange::RemoveFileIfExists { .. }));
    assert_eq!(step.detail, "restored file /n.nfo");
}

#[test]
fn bulk_item_ids_notes_and_nfo() {
    assert_eq!(derive_item_uid(&Some("  abc ".to_string()), "/x/Film.mkv"), "abc");
    assert_eq!(derive_item_uid(&Some("   ".to_string()), "/x/Film.mkv"), "Film");
    assert_eq!(derive_item_uid(&None, ""), "unknown-item");
    assert!(path_error_escalates(403));
    assert!(path_error_escalates(424));
    assert!(!path_error_escalates(400));
    assert_eq!(duplicate_note(3), "duplicate group size=3");
    assert_eq!(duplicate_note(1), "unique item (no duplicates in current selection)");
    assert_eq!(metadata_note("Film", Some(2001), "0.90"), "metadata candidate title=Film year=2001 confidence=0.90");
    assert_eq!(metadata_note("Film", None, "0.45"), "metadata candidate title=Film year=unknown confidence=0.45");
    assert_eq!(nfo_target_path("/lib/Title.2024.mkv"), Ok("/lib/Title.2024.nfo".to_string()));
    assert_eq!(nfo_target_path(""), Err("cannot determine media parent directory".to_string()));
    assert_eq!(nfo_target_note(&None), "nfo missing; will create");
    assert_eq!(nfo_target_note(&Some(" \n".to_string())), "nfo empty; will rewrite");
    assert_eq!(nfo_target_note(&Some("<movie><title>x</title></movie>".to_string())), "nfo exists and appears valid");
    assert_eq!(
        generate_nfo_content("/lib/a.mkv", "uid-1"),
        "<movie>\n  <title>uid-1</title>\n  <originalfilename>a.mkv</originalfilename>\n  <id>uid-1</id>\n</movie>\n"
    );
}

#[test]
fn preview_summary_counts_each_plan_once() {
    let plans = vec![
        Some(SidecarPlanAction::Create),
        None,
        Some(SidecarPlanAction::Update),
        Some(SidecarPlanAction::Create),
        Some(SidecarPlanAction::Noop),
    ];
    let (summary, ready) = summarize_preview(&plans);
    assert_eq!((summary.creates, summary.updates, summary.noops, summary.invalid), (2, 1, 1, 1));
    assert!(!ready);
    let (summary, ready) = summarize_preview(&vec![Some(SidecarPlanAction::Noop)]);
    assert_eq!(summary.invalid, 0);
    assert!(ready);
}

#[test]
fn rename_apply_steps_and_totals() {
    match rename_apply_step("/a.mkv", "u", &None, &Ok(()), false) {
        RenameStep::Finished(r) => assert_eq!(r.error.as_deref(), Some("rename preview did not include target path")),
        RenameStep::Perform { .. } => panic!("no target"),
    }
    match rename_apply_step("/a.mkv", "u", &Some("/b.mkv".to_string()), &Err("gone".to_string()), false) {
        RenameStep::Finished(r) => assert_eq!(
            r.error.as_deref(),
            Some("rename source changed after preview and is no longer valid: gone")
        ),
        RenameStep::Perform { .. } => panic!("source changed"),
    }
    match rename_apply_step("/a.mkv", "u", &Some("/a.mkv".to_string()), &Ok(()), true) {
        RenameStep::Finished(r) => assert!(r.success && r.operation_id.is_none()),
        RenameStep::Perform { .. } => panic!("same path"),
    }
    match rename_apply_step("/a.mkv", "u", &Some("/b.mkv".to_string()), &Ok(()), true) {
        RenameStep::Finished(r) => assert_eq!(r.error.as_deref(), Some("target rename path already exists")),
        RenameStep::Perform { .. } => panic!("target exists"),
    }
    match rename_apply_step("/a.mkv", "u", &Some("/b.mkv".to_string()), &Ok(()), false) {
        RenameStep::Perform { target } => assert_eq!(target, "/b.mkv"),
        RenameStep::Finished(_) => panic!("should rename"),
    }
    let ok = rename_apply_outcome("/a.mkv", "u", "/b.mkv", Ok("fsop-1".to_string()), &Ok(()), Err("unused".to_string()));
    assert!(ok.success);
    let rolled = rename_apply_outcome("/a.mkv", "u", "/b.mkv", Ok("fsop-1".to_string()), &Err("busy".to_string()), Ok("renamed /b.mkv back to /a.mkv".to_string()));
    assert_eq!(
        rolled.error.as_deref(),
        Some("rename sidecar update failed: busy; media rollback succeeded: renamed /b.mkv back to /a.mkv")
    );
    let stuck = rename_apply_outcome("/a.mkv", "u", "/b.mkv", Ok("fsop-1".to_string()), &Err("busy".to_string()), Err("nope".to_string()));
    assert_eq!(stuck.error.as_deref(), Some("rename sidecar update failed: busy; media rollback failed: nope"));
    let failed = rename_apply_outcome("/a.mkv", "u", "/b.mkv", Err("denied".to_string()), &Ok(()), Err(String::new()));
    assert_eq!(failed.error.as_deref(), Some("denied"));
    let wrote = write_outcome("/a.mkv", "u", Some("/a.nfo".to_string()), Ok("fsop-9".to_string()));
    assert_eq!(wrote.operation_id.as_deref(), Some("fsop-9"));
    let skipped = not_applicable("/a.mkv", "u", &None);
    assert_eq!(skipped.error.as_deref(), Some("item is not applicable"));

    let results = vec![ok, rolled, stuck, failed, wrote, skipped];
    assert_eq!(bulk_apply_totals(&results), (6, 2, 4));
}

#[test]
fn quarantine_requests() {
    let paths = vec!["/lib/a.mkv".to_string(), "/lib/b.mkv".to_string()];
    assert!(check_quarantine_request(&paths, "/lib/a.mkv", Ok(())).is_ok());
    let e = check_quarantine_request(&paths[..1].to_vec(), "/lib/a.mkv", Ok(())).expect_err("too few");
    assert_eq!((e.status, e.message.as_str()), (400, "at least two media paths are required to quarantine duplicates"));
    let e = check_quarantine_request(&paths, "/lib/c.mkv", Ok(())).expect_err("not included");
    assert_eq!(e.message, "keep_media_path must be included in media_paths");
    let e = check_quarantine_request(&paths, "/lib/a.mkv", Err(api_error(403, "outside"))).expect_err("policy");
    assert_eq!((e.status, e.message.as_str()), (403, "outside"));
    assert_eq!(quarantine_target("/state/quarantine", "1-2-3", "/lib/b.mkv"), "/state/quarantine/1-2-3-b.mkv");
    assert_eq!(quarantine_target("/q", "u", ""), "/q/u-unknown.bin");
    assert_eq!(kept_item("/lib/a.mkv").note.as_deref(), Some("kept"));
    assert_eq!(skipped_item("/x", "bad").note.as_deref(), Some("skipped"));
    let moved = moved_item("/lib/b.mkv", "/q/u-b.mkv", Ok("fsop-3".to_string()));
    assert_eq!(moved.quarantined_path.as_deref(), Some("/q/u-b.mkv"));
    let failed = moved_item("/lib/b.mkv", "/q/u-b.mkv", Err("busy".to_string()));
    assert_eq!((failed.success, failed.note.as_deref()), (false, Some("failed")));
}

#[test]
fn probe_summaries_and_digests() {
    let s = |t: Option<&str>, n: Option<&str>, w: Option<i64>| StreamInfo {
        codec_type: t.map(|v| v.to_string()),
        codec_name: n.map(|v| v.to_string()),
        width: w,
        height: w.map(|v| v / 2),
    };
    let streams = vec![
        s(Some("audio"), Some("aac"), None),
        s(Some("video"), None, Some(100)),
        s(Some("video"), Some("h264"), Some(1920)),
        s(Some("video"), Some("hevc"), Some(3840)),
        s(Some("audio"), Some("dts"), None),
        s(None, Some("x"), None),
    ];
    let summary = summarize_streams(&streams);
    assert_eq!(summary.video_codec.as_deref(), Some("h264"));
    assert_eq!(summary.width, Some(1920));
    assert_eq!(summary.height, Some(960));
    assert_eq!(summary.audio_codec.as_deref(), Some("aac"));

    let digest = Sha256::digest(b"abc");
    assert_eq!(digest_hex(&digest.to_vec()), format!("{digest:x}"));
    assert_eq!(digest_hex(&vec![0, 15, 255]), "000fff");
}

#[test]
fn store_errors_and_migrations() {
    assert_eq!(AuditStoreError::Sql("busy".to_string()).message(), "sqlite error: busy");
    assert_eq!(AuditStoreError::LockPoisoned.message(), "store lock poisoned");
    assert_eq!(DbMigrationError::Open("x".to_string()).message(), "sqlite open failed: x");
    assert_eq!(DbMigrationError::Sql("y".to_string()).message(), "sqlite migrate failed: y");
    assert_eq!(pending_migrations(migrations(), 0).len(), 1);
    assert!(pending_migrations(migrations(), LATEST_SCHEMA_VERSION).is_empty());
    assert_eq!(migrations()[0].name, "initial_audit_and_jobs");
}
