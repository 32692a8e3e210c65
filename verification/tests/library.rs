use media_manager::config::{parse_u16, AppConfig, ConfigSettings};
use media_manager::path_policy::{ensure_media_file_path_allowed, is_path_within_roots, MediaPathFacts};
use media_manager::preflight::{run_preflight, LibraryRootStatus, RootProblem};
use media_manager::scanner::{
    library_sidecar_path, list_library_media, scan_library_roots, LibraryBrowseOptions, RootWalk,
    WalkedFile,
};
use media_manager::toolchain::{
    choose_binary_path, probe_toolchain, resolved_binary, ProbeStatus, ResolvedBinary,
    ToolchainError, ToolchainSnapshot, VersionProbe,
};

fn binary(name: &str, status: ProbeStatus) -> ResolvedBinary {
    ResolvedBinary {
        command_name: name.to_string(),
        path: format!("/usr/bin/{name}"),
        version_output: None,
        status,
    }
}

fn toolchain_ok() -> ToolchainSnapshot {
    ToolchainSnapshot {
        ffmpeg: binary("ffmpeg", ProbeStatus::Available),
        ffprobe: binary("ffprobe", ProbeStatus::Available),
        mediainfo: None,
    }
}

fn walked(path: &str, root: &str) -> WalkedFile {
    WalkedFile { media_path: path.to_string(), root: root.to_string(), sidecar_exists: false }
}

#[test]
fn counts_media_files_and_reports_walk_errors() {
    let roots = vec![
        RootWalk {
            root: "/lib".to_string(),
            exists: true,
            file_extensions: vec![Some("mkv".to_string()), Some("txt".to_string()), Some("MP4".to_string()), None],
            errors: vec![],
        },
        RootWalk {
            root: "/blocked".to_string(),
            exists: true,
            file_extensions: vec![Some("ts".to_string())],
            errors: vec!["permission denied".to_string(), "again".to_string()],
        },
        RootWalk { root: "/gone".to_string(), exists: false, file_extensions: vec![], errors: vec![] },
    ];
    let summary = scan_library_roots(&roots);
    assert_eq!(summary.total_media_files, 3);
    assert_eq!(summary.roots[0].media_files, 2);
    assert!(summary.roots[0].error.is_none());
    assert_eq!(
        summary.roots[1].error.as_deref(),
        Some("encountered 2 traversal error(s); first: permission denied")
    );
    assert!(!summary.roots[2].exists);
    assert_eq!(summary.roots[2].error.as_deref(), Some("path does not exist"));
}

#[test]
fn lists_media_with_search_sorting_and_paging() {
    let files = vec![
        walked("/lib/movies/beta.mp4", "/lib"),
        walked("/lib/movies/note.txt", "/lib"),
        walked("/lib/movies/alpha.mkv", "/lib"),
    ];
    let all = list_library_media(1, &LibraryBrowseOptions { offset: 0, limit: 10, ..Default::default() }, &files)
        .expect("all");
    assert_eq!(all.total_matches, 2);
    assert_eq!(all.items[0].file_name, "alpha.mkv");
    assert_eq!(all.items[0].relative_path, "movies/alpha.mkv");
    assert_eq!(all.items[0].sidecar_path, "/lib/movies/.mm.json");
    assert_eq!(all.items[1].extension, "mp4");

    let filtered = list_library_media(
        1,
        &LibraryBrowseOptions { query: Some(" ALPHA ".to_string()), offset: 0, limit: 10, ..Default::default() },
        &files,
    )
    .expect("filtered");
    assert_eq!(filtered.total_matches, 1);
    assert_eq!(filtered.items[0].file_name, "alpha.mkv");

    let paged = list_library_media(1, &LibraryBrowseOptions { offset: 1, limit: 1, ..Default::default() }, &files)
        .expect("paged");
    assert_eq!(paged.total_matches, 2);
    assert_eq!(paged.items.len(), 1);
    assert_eq!(paged.items[0].file_name, "beta.mp4");

    let beyond = list_library_media(1, &LibraryBrowseOptions { offset: 9, limit: 0, ..Default::default() }, &files)
        .expect("beyond");
    assert_eq!(beyond.limit, 120);
    assert!(beyond.items.is_empty());

    let bad = list_library_media(1, &LibraryBrowseOptions { root_index: Some(3), ..Default::default() }, &files);
    assert_eq!(bad.err(), Some("invalid root_index: 3".to_string()));
    let none = list_library_media(0, &LibraryBrowseOptions { root_index: Some(3), ..Default::default() }, &files)
        .expect("no roots");
    assert_eq!(none.total_matches, 0);
    assert_eq!(library_sidecar_path("/lib/a.mkv"), Some("/lib/.mm.json".to_string()));
}

#[test]
fn paths_within_roots() {
    let roots = vec![None, Some("/srv/library".to_string())];
    assert!(is_path_within_roots(&Some("/srv/library/movie.mkv".to_string()), &roots));
    assert!(is_path_within_roots(&Some("/srv/library".to_string()), &roots));
    assert!(!is_path_within_roots(&Some("/srv/library2/movie.mkv".to_string()), &roots));
    assert!(!is_path_within_roots(&None, &roots));
    assert!(!is_path_within_roots(&Some("/srv/library/movie.mkv".to_string()), &vec![]));
    assert!(is_path_within_roots(&Some("/x".to_string()), &vec![Some("/".to_string())]));
}

#[test]
fn media_path_checks_in_order() {
    let facts = |exists, is_file, within| MediaPathFacts {
        display: "/lib/m.mkv".to_string(),
        exists,
        is_file,
        within_roots: within,
    };
    assert!(ensure_media_file_path_allowed(true, &facts(true, true, true)).is_ok());
    let e = ensure_media_file_path_allowed(false, &facts(true, true, true)).expect_err("424");
    assert_eq!((e.status, e.message.as_str()), (424, "MM_LIBRARY_ROOTS is not configured"));
    let e = ensure_media_file_path_allowed(true, &facts(false, false, false)).expect_err("400");
    assert_eq!((e.status, e.message.as_str()), (400, "media path does not exist: /lib/m.mkv"));
    let e = ensure_media_file_path_allowed(true, &facts(true, false, true)).expect_err("400");
    assert_eq!((e.status, e.message.as_str()), (400, "media path is not a file: /lib/m.mkv"));
    let e = ensure_media_file_path_allowed(true, &facts(true, true, false)).expect_err("403");
    assert_eq!(
        (e.status, e.message.as_str()),
        (403, "media path is outside configured library roots: /lib/m.mkv")
    );
}

#[test]
fn preflight_reports_each_check() {
    let roots = vec![LibraryRootStatus { display: "/lib".to_string(), problem: None }];
    let report = run_preflight(&roots, "/state", &Ok(()), &toolchain_ok());
    assert!(report.ready);
    assert_eq!(report.checks.len(), 4);
    assert_eq!(report.checks[0].detail, "1 root(s) configured");
    assert_eq!(report.checks[1].detail, "writable: /state");
    assert_eq!(report.checks[2].name, "ffmpeg");
    assert_eq!(report.checks[3].detail, "available");

    let bad_roots = vec![
        LibraryRootStatus { display: "/a".to_string(), problem: Some(RootProblem::NotADirectory) },
        LibraryRootStatus { display: "/b".to_string(), problem: None },
        LibraryRootStatus { display: "/c".to_string(), problem: Some(RootProblem::Unreadable("denied".to_string())) },
    ];
    let mut tools = toolchain_ok();
    tools.mediainfo = Some(binary("mediainfo", ProbeStatus::Unavailable));
    let report = run_preflight(&bad_roots, "/state", &Err("read-only".to_string()), &tools);
    assert!(!report.ready);
    assert_eq!(report.checks.len(), 5);
    assert_eq!(report.checks[0].detail, "invalid root(s): /a (not a directory), /c (unreadable: denied)");
    assert_eq!(report.checks[1].detail, "cannot create state dir /state (read-only)");
    assert_eq!(report.checks[4].name, "mediainfo");
    assert_eq!(report.checks[4].detail, "unavailable");

    let empty = run_preflight(&vec![], "/state", &Ok(()), &toolchain_ok());
    assert!(!empty.ready);
    assert_eq!(empty.checks[0].detail, "MM_LIBRARY_ROOTS is empty");
    let missing = run_preflight(
        &vec![LibraryRootStatus { display: "/m".to_string(), problem: Some(RootProblem::Missing) }],
        "/s",
        &Ok(()),
        &toolchain_ok(),
    );
    assert_eq!(missing.checks[0].detail, "invalid root(s): /m (missing)");
}

#[test]
fn toolchain_resolution() {
    assert_eq!(
        choose_binary_path(&Some("/opt/ffmpeg".to_string()), &vec![Some("/usr/bin/ffmpeg".to_string())]),
        Some("/opt/ffmpeg".to_string())
    );
    assert_eq!(
        choose_binary_path(&None, &vec![None, Some("/usr/bin/ffprobe".to_string()), Some("/x".to_string())]),
        Some("/usr/bin/ffprobe".to_string())
    );
    assert_eq!(choose_binary_path(&None, &vec![None, None]), None);

    let ok = resolved_binary("ffmpeg", "/usr/bin/ffmpeg", Some(VersionProbe { exited_ok: true, first_line: Some("ffmpeg version 6".to_string()) }));
    assert_eq!(ok.status, ProbeStatus::Available);
    assert_eq!(ok.version_output.as_deref(), Some("ffmpeg version 6"));
    let failed = resolved_binary("ffmpeg", "/usr/bin/ffmpeg", Some(VersionProbe { exited_ok: false, first_line: None }));
    assert_eq!(failed.status, ProbeStatus::Unavailable);
    let missing = resolved_binary("ffmpeg", "/nowhere", None);
    assert_eq!(missing.status, ProbeStatus::Unavailable);
    assert!(missing.version_output.is_none());

    match probe_toolchain(None, None, None) {
        Err(ToolchainError::RequiredBinaryMissing(name)) => assert_eq!(name, "ffmpeg"),
        Ok(_) => panic!("ffmpeg is required"),
    }
    let err = probe_toolchain(Some(binary("ffmpeg", ProbeStatus::Available)), None, None).err().expect("ffprobe required");
    assert_eq!(err.message(), "required binary not found: ffprobe");
    let snapshot = probe_toolchain(
        Some(binary("ffmpeg", ProbeStatus::Available)),
        Some(binary("ffprobe", ProbeStatus::Unavailable)),
        None,
    )
    .expect("both present");
    assert_eq!(snapshot.ffprobe.status, ProbeStatus::Unavailable);
    assert!(snapshot.mediainfo.is_none());
}

#[test]
fn config_defaults_and_port_parsing() {
    assert_eq!(parse_u16("8080"), Some(8080));
    assert_eq!(parse_u16("+80"), Some(80));
    assert_eq!(parse_u16("0065535"), Some(65535));
    assert_eq!(parse_u16("65536"), None);
    assert_eq!(parse_u16("-1"), None);
    assert_eq!(parse_u16("+"), None);
    assert_eq!(parse_u16(""), None);
    assert_eq!(parse_u16(" 80"), None);
    for text in ["0", "1", "443", "+7", "99999", "x1", "12a"] {
        assert_eq!(parse_u16(text), text.parse::<u16>().ok(), "{text}");
    }

    let empty = ConfigSettings {
        host: None,
        port: Some("not-a-port".to_string()),
        app_name: None,
        short_name: None,
        logo_url: None,
        browser_title_template: None,
        accent: None,
        accent_contrast: None,
        ffmpeg_path: None,
        ffprobe_path: Some("/opt/ffprobe".to_string()),
        mediainfo_path: None,
    };
    let config = AppConfig::from_settings(&empty);
    assert_eq!(config.server.host, "0.0.0.0");
    assert_eq!(config.server.port, 8080);
    assert_eq!(config.branding.app_name, "Media Manager");
    assert_eq!(config.branding.short_name, "MM");
    assert_eq!(config.branding.logo_url, "/assets/logo.svg");
    assert_eq!(config.branding.browser_title_template, "{app_name}");
    assert_eq!(config.branding.theme_tokens.accent, "#0f766e");
    assert_eq!(config.branding.theme_tokens.accent_contrast, "#f8fafc");
    assert_eq!(config.toolchain.ffprobe_path.as_deref(), Some("/opt/ffprobe"));
    assert!(config.toolchain.ffmpeg_path.is_none());

    let set = ConfigSettings { host: Some("127.0.0.1".to_string()), port: Some("9000".to_string()), ..empty };
    let config = AppConfig::from_settings(&set);
    assert_eq!(config.server.host, "127.0.0.1");
    assert_eq!(config.server.port, 9000);
}
