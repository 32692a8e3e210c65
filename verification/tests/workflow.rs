use media_manager::bulk::generate_nfo_content;
use media_manager::display::sanitize_display_filename_component;
use media_manager::golden_state::{MetadataProvider, NamingFormat};
use media_manager::metadata::extract_xml_tag_value;
use media_manager::naming::{normalize_duplicate_key, normalize_filename_stem};
use media_manager::rename::should_move_into_canonical_folder;
use media_manager::auth::{bearer_token, is_public_path, request_allowed};
use media_manager::bulk::{
    check_batch_hash, metadata_sidecar_state, nfo_apply_step, preview_fields, require_items,
    require_operation_ids, rollback_item, rollback_totals, sidecar_restored_detail,
    sidecar_write_outcome, ActionFinding, NfoStep,
};
use media_manager::consolidation::{check_index_start, kept_item, moved_item, quarantine_totals, skipped_item};
use media_manager::scanner::check_root_index;
use media_manager::sidecar_workflow::{
    build_plan_with_desired_state, plan_next_state_with_policy, SidecarPlanAction,
};
use media_manager::domain::sidecar::SidecarState;
use media_manager::metadata::MetadataCandidate;
use media_manager::preflight::{require_ready, PreflightCheck, PreflightReport};

fn some(s: &str) -> Option<String> {
    Some(s.to_string())
}

#[test]
fn token_is_required_except_on_public_endpoints() {
    let token = some("s3cret");
    assert!(request_allowed("/api/health", &token, &None));
    assert!(request_allowed("/api/config/branding", &token, &None));
    assert!(!request_allowed("/api/scan/summary", &token, &None));
    assert!(!request_allowed("/api/scan/summary", &token, &some("Bearer wrong")));
    assert!(!request_allowed("/api/scan/summary", &token, &some("bearer s3cret")));
    assert!(!request_allowed("/api/scan/summary", &token, &some("s3cret")));
    assert!(request_allowed("/api/scan/summary", &token, &some("Bearer s3cret")));
    assert!(request_allowed("/api/scan/summary", &None, &None));
    assert!(is_public_path("/api/health"));
    assert!(!is_public_path("/api/health/"));
    assert_eq!(bearer_token(&some("Bearer abc def")), some("abc def"));
    assert_eq!(bearer_token(&some("Bearer ")), some(""));
    assert_eq!(bearer_token(&some("Basic abc")), None);
    assert_eq!(bearer_token(&None), None);
}

#[test]
fn mutations_need_a_ready_preflight() {
    let check = |ok: bool| PreflightCheck { name: "x".to_string(), ok, detail: String::new() };
    let ready = PreflightReport { ready: true, checks: vec![check(true)] };
    assert!(require_ready(&ready).is_ok());
    let blocked = PreflightReport { ready: false, checks: vec![check(false)] };
    let e = require_ready(&blocked).expect_err("blocked");
    assert_eq!(e.status, 424);
    assert_eq!(e.message, "preflight is not ready; fix diagnostics before mutating operations");
}

#[test]
fn preview_proposals_per_action() {
    let f = preview_fields(ActionFinding::Rename(Ok(("/lib/A (2000)/A (2000).mkv".to_string(), "note".to_string()))));
    assert_eq!(f.proposed_media_path.as_deref(), Some("/lib/A (2000)/A (2000).mkv"));
    assert!(f.can_apply && f.error.is_none() && f.note.as_deref() == Some("note"));

    let f = preview_fields(ActionFinding::Rename(Err("rename collision".to_string())));
    assert!(!f.can_apply && f.proposed_media_path.is_none() && f.note.is_none());
    assert_eq!(f.error.as_deref(), Some("rename collision"));

    let f = preview_fields(ActionFinding::Nfo(Ok("/lib/a.nfo".to_string()), None));
    assert_eq!(f.note.as_deref(), Some("nfo missing; will create"));
    let f = preview_fields(ActionFinding::Nfo(Ok("/lib/a.nfo".to_string()), some("  ")));
    assert_eq!(f.note.as_deref(), Some("nfo empty; will rewrite"));
    let f = preview_fields(ActionFinding::Nfo(Ok("/lib/a.nfo".to_string()), some("<movie/>")));
    assert_eq!(f.note.as_deref(), Some("nfo exists and appears valid"));
    assert_eq!(f.proposed_media_path.as_deref(), Some("/lib/a.nfo"));

    let f = preview_fields(ActionFinding::Duplicates(Some(("heat".to_string(), 3))));
    assert_eq!(f.proposed_item_uid.as_deref(), Some("heat"));
    assert_eq!(f.note.as_deref(), Some("duplicate group size=3"));
    let f = preview_fields(ActionFinding::Duplicates(None));
    assert_eq!(f.error.as_deref(), Some("duplicate groups unavailable"));

    let candidate = MetadataCandidate {
        title: "Heat".to_string(),
        year: Some(1995),
        provider_id: "tmdb-949".to_string(),
        confidence_pct: 85,
    };
    let f = preview_fields(ActionFinding::Metadata(candidate, "0.85".to_string()));
    assert_eq!(f.proposed_provider_id.as_deref(), Some("tmdb-949"));
    assert_eq!((f.metadata_title.as_deref(), f.metadata_year), (Some("Heat"), Some(1995)));
    assert_eq!(f.note.as_deref(), Some("metadata candidate title=Heat year=1995 confidence=0.85"));

    let f = preview_fields(ActionFinding::Other);
    assert!(f.can_apply && f.note.is_none() && f.error.is_none() && f.proposed_media_path.is_none());
}

#[test]
fn nfo_apply_keeps_valid_files_and_writes_others() {
    let target = some("/lib/Heat (1995)/Heat.nfo");
    match nfo_apply_step("/lib/Heat (1995)/Heat.mkv", "heat", &None, &None) {
        NfoStep::Finished(r) => {
            assert!(!r.success);
            assert_eq!(r.error.as_deref(), Some("nfo preview did not include target path"));
        }
        NfoStep::Write { .. } => panic!("no target"),
    }
    match nfo_apply_step("/lib/Heat (1995)/Heat.mkv", "heat", &target, &some("<movie/>")) {
        NfoStep::Finished(r) => {
            assert!(r.success && r.operation_id.is_none());
            assert_eq!(r.final_media_path, target);
        }
        NfoStep::Write { .. } => panic!("valid file is kept"),
    }
    match nfo_apply_step("/lib/Heat (1995)/Heat.mkv", "heat", &target, &some(" \n")) {
        NfoStep::Write { target: t, content } => {
            assert_eq!(Some(t), target);
            assert_eq!(
                content,
                "<movie>\n  <title>heat</title>\n  <originalfilename>Heat.mkv</originalfilename>\n  <id>heat</id>\n</movie>\n"
            );
        }
        NfoStep::Finished(_) => panic!("blank file is rewritten"),
    }
}

#[test]
fn sidecar_writes_and_metadata_state() {
    let ok = sidecar_write_outcome(
        "/lib/a.mkv",
        "a",
        some("tmdb-1"),
        Ok(("fsop-1-0-9".to_string(), "/lib/.mm.json".to_string())),
    );
    assert!(ok.success);
    assert_eq!(ok.applied_provider_id.as_deref(), Some("tmdb-1"));
    assert_eq!(ok.operation_id.as_deref(), Some("fsop-1-0-9"));
    assert_eq!(ok.sidecar_path.as_deref(), Some("/lib/.mm.json"));
    let failed = sidecar_write_outcome("/lib/a.mkv", "a", some("tmdb-1"), Err("write failed".to_string()));
    assert!(!failed.success && failed.applied_provider_id.is_none());
    assert_eq!(failed.error.as_deref(), Some("write failed"));

    let fresh = metadata_sidecar_state(None, "heat", "tmdb-949", "{\"x\":1}".to_string());
    assert_eq!(fresh.item_uid, "heat");
    assert_eq!(fresh.provider_ids.tmdb.as_deref(), Some("tmdb-949"));
    assert_eq!(fresh.applied_state, "{\"x\":1}");
    assert_eq!(fresh.preferred_policy_state, "null");

    let mut existing = SidecarState::new("old".to_string());
    existing.provider_ids.imdb = some("imdb-tt1");
    existing.preferred_policy_state = "{\"p\":2}".to_string();
    let updated = metadata_sidecar_state(Some(existing), "new", "tmdb-2", "{}".to_string());
    assert_eq!(updated.item_uid, "new");
    assert_eq!(updated.provider_ids.imdb.as_deref(), Some("imdb-tt1"));
    assert_eq!(updated.provider_ids.tmdb.as_deref(), Some("tmdb-2"));
    assert_eq!(updated.preferred_policy_state, "{\"p\":2}");
}

#[test]
fn quarantine_counts_skip_the_kept_path() {
    let items = vec![
        kept_item("/lib/a.mkv"),
        moved_item("/lib/b.mkv", "/q/u-b.mkv", Ok("fsop-1".to_string())),
        moved_item("/lib/c.mkv", "/q/u-c.mkv", Err("busy".to_string())),
        skipped_item("/other/d.mkv", "outside"),
    ];
    assert_eq!(quarantine_totals(&items, "/lib/a.mkv"), (1, 2));
    assert_eq!(quarantine_totals(&Vec::new(), "/lib/a.mkv"), (0, 0));
}

#[test]
fn request_checks() {
    assert!(check_root_index(2, None).is_ok());
    assert!(check_root_index(2, Some(1)).is_ok());
    let e = check_root_index(2, Some(7)).expect_err("out of bounds");
    assert_eq!((e.status, e.message.as_str()), (400, "root_index 7 is out of bounds"));

    let e = check_index_start(0, 0).expect_err("no roots");
    assert_eq!((e.status, e.message.as_str()), (424, "MM_LIBRARY_ROOTS is not configured"));
    let e = check_index_start(1, 1).expect_err("busy");
    assert_eq!((e.status, e.message.as_str()), (409, "an index job is already running"));
    assert!(check_index_start(3, 0).is_ok());

    assert_eq!(require_items(0).expect_err("empty").message, "items must not be empty");
    assert!(require_items(1).is_ok());
    assert_eq!(require_operation_ids(0).expect_err("empty").message, "operation_ids must not be empty");
    assert!(require_operation_ids(2).is_ok());

    assert!(check_batch_hash("00ff", "00ff").is_ok());
    let e = check_batch_hash("00ff", "00fe").expect_err("changed batch");
    assert_eq!(
        (e.status, e.message.as_str()),
        (409, "approved_batch_hash does not match current dry-run batch hash")
    );
}

#[test]
fn rollback_results_and_totals() {
    assert_eq!(sidecar_restored_detail("/lib/.mm.json"), "sidecar restored at /lib/.mm.json");
    let ok = rollback_item("op-1-0-7".to_string(), Ok("restored file /lib/a.nfo".to_string()));
    assert!(ok.success && ok.error.is_none());
    assert_eq!(ok.detail.as_deref(), Some("restored file /lib/a.nfo"));
    let failed = rollback_item("fsop-2-1-7".to_string(), Err("missing".to_string()));
    assert!(!failed.success && failed.detail.is_none());
    assert_eq!(failed.operation_id, "fsop-2-1-7");
    let items = vec![ok, failed];
    assert_eq!(rollback_totals(&items), (2, 1, 1));
    assert_eq!(rollback_totals(&Vec::new()), (0, 0, 0));
}

#[test]
fn desired_policy_plans() {
    let policy = some("{\"container\":\"mkv\"}");
    let (action, next) = plan_next_state_with_policy(&None, "heat", &policy);
    assert_eq!(action, SidecarPlanAction::Create);
    assert_eq!(next.preferred_policy_state, "{\"container\":\"mkv\"}");
    assert_eq!(next.item_uid, "heat");

    let mut current = SidecarState::new("heat".to_string());
    current.preferred_policy_state = "{\"container\":\"mkv\"}".to_string();
    let (action, _) = plan_next_state_with_policy(&Some(current.clone()), "heat", &policy);
    assert_eq!(action, SidecarPlanAction::Noop);
    let (action, next) = plan_next_state_with_policy(&Some(current.clone()), "heat", &some("{}"));
    assert_eq!(action, SidecarPlanAction::Update);
    assert_eq!(next.preferred_policy_state, "{}");
    let (action, next) = plan_next_state_with_policy(&Some(current.clone()), "heat", &None);
    assert_eq!(action, SidecarPlanAction::Noop);
    assert_eq!(next.preferred_policy_state, "{\"container\":\"mkv\"}");
    let (action, _) = plan_next_state_with_policy(&Some(current.clone()), "other", &policy);
    assert_eq!(action, SidecarPlanAction::Update);

    let plan = build_plan_with_desired_state(
        "/lib/a.mkv".to_string(),
        "/lib/.mm.json".to_string(),
        Some(current),
        "heat",
        some("{}"),
        "00aa".to_string(),
    );
    assert_eq!(plan.action, SidecarPlanAction::Update);
    assert_eq!(plan.plan_hash, "00aa");
    assert_eq!(plan.next_state.preferred_policy_state, "{}");
    assert_eq!(plan.existing_state.map(|s| s.preferred_policy_state), some("{\"container\":\"mkv\"}"));
}

#[test]
fn laws_on_concrete_values() {

    assert_eq!(normalize_duplicate_key("Movie.Name.2024"), normalize_duplicate_key("movie name 2024"));
    assert_eq!(normalize_duplicate_key("Movie_Name-2024"), "movie name|2024");

    let clean = sanitize_display_filename_component("  Alien: Covenant -- Part / 2 ??  ");
    assert_eq!(clean, "Alien- Covenant - Part - 2");
    assert_eq!(sanitize_display_filename_component(&clean), clean);

    let stem = normalize_filename_stem("..The_Matrix--Reloaded.. 2003..");
    assert_eq!(stem, "The Matrix Reloaded 2003");
    assert_eq!(normalize_filename_stem(&stem), stem);

    let nfo = generate_nfo_content("/lib/Heat (1995)/Heat.mkv", " heat-1995 ");
    assert_eq!(extract_xml_tag_value(&nfo, "title"), Some("heat-1995".to_string()));

    assert_eq!(MetadataProvider::parse(" IMDb "), Some(MetadataProvider::Imdb));
    assert_eq!(MetadataProvider::parse("omdb"), None);
    assert_eq!(NamingFormat::parse(" MOVIE_TITLE_YEAR "), Some(NamingFormat::MovieTitleYear));

    let two = vec![Some("mkv".to_string()), Some("mp4".to_string())];
    let chars = |s: &str| s.chars().collect::<Vec<char>>();
    assert!(!should_move_into_canonical_folder(&chars("/lib/Folder"), &chars("Heat (1995)"), false, Some(&two)));
    assert!(should_move_into_canonical_folder(&chars("/lib/Folder"), &chars("Heat (1995)"), true, Some(&two)));
}
