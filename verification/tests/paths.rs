use media_manager::bulk::{apply_kind, rename_apply_step, ApplyKind, RenameStep};
use media_manager::family::{family_stems, family_entry_target, EntryKind, FamilyEntry};
use media_manager::paths::{components_of, file_name_of, join_chars, parent_of, same_path_str};
use media_manager::preflight::{root_problem, RootProblem};
use media_manager::rename::{rename_outcome, rename_stem_fits_limits, with_file_name_chars, RenamePlan};

fn chars(s: &str) -> Vec<char> {
    s.chars().collect()
}

fn text(v: &[char]) -> String {
    v.iter().collect()
}

fn parent(p: &str) -> Option<String> {
    parent_of(&chars(p)).map(|v| text(&v))
}

fn name(p: &str) -> Option<String> {
    file_name_of(&chars(p)).map(|v| text(&v))
}

#[test]
fn path_parts_follow_std_path() {
    for p in ["/lib/.", "/lib/./", ".", "./", "a/./b", "/lib//x.mkv", "/", "", "a/..", "./a", "//", "/a/b/", "a"] {
        let std_path = std::path::Path::new(p);
        assert_eq!(parent(p), std_path.parent().map(|v| v.display().to_string()), "parent of {p:?}");
        assert_eq!(
            name(p),
            std_path.file_name().map(|v| v.to_string_lossy().to_string()),
            "file name of {p:?}"
        );
    }
    assert_eq!(name("/lib/."), Some("lib".to_string()));
    assert_eq!(parent("/lib/."), Some("/".to_string()));
    assert_eq!(parent("."), Some(String::new()));
    assert_eq!(name("."), None);
}

#[test]
fn join_follows_std_path() {
    for (base, leaf) in [("/lib", "x.mkv"), ("/lib/", "x.mkv"), ("", "x"), ("/lib", "/x.mkv"), ("a", "")] {
        let joined = text(&join_chars(&chars(base), &chars(leaf)));
        assert_eq!(joined, std::path::Path::new(base).join(leaf).display().to_string());
    }
    assert_eq!(text(&with_file_name_chars(&chars("/lib/Old"), &chars("/abs"))), "/abs");
    assert_eq!(
        text(&with_file_name_chars(&chars("/lib/Old"), &chars("New"))),
        std::path::Path::new("/lib/Old").with_file_name("New").display().to_string()
    );
}

#[test]
fn absolute_stems_fit_as_std_joins_them() {
    let parent = format!("/{}", "a".repeat(4090));
    assert!(rename_stem_fits_limits(&chars(&parent), false, &chars("/x"), &chars(".mkv")));
    assert!(!rename_stem_fits_limits(&chars(&parent), false, &chars("x"), &chars(".mkv")));
}

#[test]
fn paths_compare_by_components() {
    for (a, b) in [("/lib//x.mkv", "/lib/x.mkv"), ("/lib/./x", "/lib/x"), ("/lib/x/", "/lib/x"), ("./a", "a"), ("a/..", "a"), ("/a", "a")] {
        assert_eq!(
            same_path_str(a, b),
            std::path::Path::new(a) == std::path::Path::new(b),
            "{a:?} vs {b:?}"
        );
    }
    let comps: Vec<String> = components_of(&chars("/lib//./x.mkv")).iter().map(|v| text(v)).collect();
    assert_eq!(comps, vec!["/", "lib", "x.mkv"]);

    let plan = RenamePlan { target: "/lib/x.mkv".to_string(), truncated: false };
    let (_, note) = rename_outcome("/lib//x.mkv", &plan, true).expect("same file");
    assert_eq!(note, "already matches Movie Name - Subtitle (Year) format");
    match rename_apply_step("/lib//x.mkv", "x", &Some("/lib/x.mkv".to_string()), &Ok(()), true) {
        RenameStep::Finished(r) => assert!(r.success && r.operation_id.is_none()),
        RenameStep::Perform { .. } => panic!("same path needs no rename"),
    }
    assert!(matches!(family_stems("/lib/a/x.mkv", "/lib//a/x.mkv"), Ok(None)));
    let stems = family_stems("/lib/a/x.mkv", "/lib/a/y.mkv").expect("stems").expect("renamed");
    let media = FamilyEntry { path: "/lib/a//x.mkv".to_string(), kind: EntryKind::File };
    assert_eq!(family_entry_target("/lib/a/x.mkv", &stems, &media), Ok(None));
}

#[test]
fn apply_dispatch_and_root_problems() {
    assert_eq!(apply_kind("rename", false), ApplyKind::NotApplicable);
    assert_eq!(apply_kind("rename", true), ApplyKind::Rename);
    assert_eq!(apply_kind("validate_nfo", true), ApplyKind::Nfo);
    assert_eq!(apply_kind("metadata_lookup", true), ApplyKind::Metadata);
    assert_eq!(apply_kind("combine_duplicates", true), ApplyKind::Duplicates);
    assert_eq!(apply_kind(" Rename", true), ApplyKind::Plan);

    assert!(matches!(root_problem(false, false, Ok(())), Some(RootProblem::Missing)));
    assert!(matches!(root_problem(true, false, Ok(())), Some(RootProblem::NotADirectory)));
    assert!(root_problem(true, true, Ok(())).is_none());
    match root_problem(true, true, Err("denied".to_string())) {
        Some(RootProblem::Unreadable(m)) => assert_eq!(m, "denied"),
        _ => panic!("unreadable root"),
    }
}
