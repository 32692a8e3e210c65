use media_manager::api_error::BAD_REQUEST;
use media_manager::consolidation::{clamp_or, duplicate_query_bounds, index_page_limit};
use media_manager::queries::{
    normalize_bulk_action, normalize_job_status_filter, normalize_library_limit,
    normalize_recent_limit, DEFAULT_LIBRARY_LIMIT, DEFAULT_RECENT_LIMIT, MAX_LIBRARY_LIMIT,
    MAX_RECENT_LIMIT,
};

#[test]
fn recent_limit_defaults_and_caps() {
    assert_eq!(normalize_recent_limit(None), DEFAULT_RECENT_LIMIT);
    assert_eq!(normalize_recent_limit(Some(7)), 7);
    assert_eq!(
        normalize_recent_limit(Some(MAX_RECENT_LIMIT + 10)),
        MAX_RECENT_LIMIT
    );
}

#[test]
fn library_limit_defaults_and_caps() {
    assert_eq!(normalize_library_limit(None), DEFAULT_LIBRARY_LIMIT);
    assert_eq!(normalize_library_limit(Some(0)), DEFAULT_LIBRARY_LIMIT);
    assert_eq!(normalize_library_limit(Some(250)), 250);
    assert_eq!(
        normalize_library_limit(Some(MAX_LIBRARY_LIMIT + 25)),
        MAX_LIBRARY_LIMIT
    );
}

#[test]
fn job_status_filter_normalization() {
    assert_eq!(normalize_job_status_filter(None), None);
    assert_eq!(normalize_job_status_filter(Some("all")), None);
    assert_eq!(
        normalize_job_status_filter(Some(" running ")),
        Some("running".to_string())
    );
    assert_eq!(normalize_job_status_filter(Some("unknown")), None);
}

#[test]
fn bulk_action_accepts_expected_values() {
    assert_eq!(
        normalize_bulk_action("rename").expect("valid action"),
        "rename"
    );
    assert_eq!(
        normalize_bulk_action(" metadata_lookup ").expect("valid action"),
        "metadata_lookup"
    );
    assert!(normalize_bulk_action("unknown").is_err());
}

#[test]
fn bulk_action_refusal_is_bad_request_with_message() {
    let err = normalize_bulk_action("delete_everything").expect_err("refused");
    assert_eq!(err.status, BAD_REQUEST);
    assert_eq!(
        err.message,
        "unsupported action; expected one of metadata_lookup, combine_duplicates, rename, validate_nfo"
    );
    assert_eq!(
        normalize_bulk_action("VALIDATE_NFO").expect("case-insensitive"),
        "validate_nfo"
    );
    assert_eq!(
        normalize_bulk_action("Combine_Duplicates").expect("case-insensitive"),
        "combine_duplicates"
    );
}

#[test]
fn recent_limit_keeps_values_below_cap() {
    assert_eq!(normalize_recent_limit(Some(0)), 0);
    assert_eq!(normalize_recent_limit(Some(199)), 199);
    assert_eq!(normalize_recent_limit(Some(200)), 200);
    assert_eq!(normalize_library_limit(Some(500)), 500);
    assert_eq!(normalize_library_limit(Some(1)), 1);
}

#[test]
fn job_status_filter_accepts_each_status() {
    assert_eq!(normalize_job_status_filter(Some("SUCCEEDED")), Some("succeeded".to_string()));
    assert_eq!(normalize_job_status_filter(Some("failed")), Some("failed".to_string()));
    assert_eq!(normalize_job_status_filter(Some(" Canceled")), Some("canceled".to_string()));
    assert_eq!(normalize_job_status_filter(Some("")), None);
}

#[test]
fn duplicate_and_index_query_bounds_are_clamped() {
    assert_eq!(duplicate_query_bounds(None, None), (40, 2));
    assert_eq!(duplicate_query_bounds(Some(0), Some(1)), (1, 2));
    assert_eq!(duplicate_query_bounds(Some(500), Some(5000)), (200, 1000));
    assert_eq!(duplicate_query_bounds(Some(17), Some(3)), (17, 3));
    assert_eq!(index_page_limit(None), 120);
    assert_eq!(index_page_limit(Some(0)), 1);
    assert_eq!(index_page_limit(Some(9999)), 500);
    assert_eq!(clamp_or(Some(5), 1, 2, 4), 4);
}
