use media_manager::family::{
    family_entry_target, family_stems, is_folder_level_image_alias, is_trickplay_directory_name,
    linked_family_target_name, plan_family_renames, rename_trickplay_directory_name, EntryKind,
    FamilyEntry,
};
use media_manager::metadata::MetadataOverride;
use media_manager::rename::{
    build_rename_stem_with_limits, plan_rename_target, rename_outcome, rename_stem_fits_limits,
    should_move_into_canonical_folder, MAX_PATH_COMPONENT_BYTES,
};

fn chars(s: &str) -> Vec<char> {
    s.chars().collect()
}

fn text(v: &[char]) -> String {
    v.iter().collect()
}

fn over(title: &str, year: Option<u16>) -> MetadataOverride {
    MetadataOverride { title: Some(title.to_string()), year, provider_id: None }
}

fn target_of(media: &str, o: Option<&MetadataOverride>, allow: bool, files: Option<&Vec<Option<String>>>) -> (String, String) {
    let plan = plan_rename_target(media, o, allow, &vec![None, None], files).expect("plan");
    rename_outcome(media, &plan, false).expect("outcome")
}

#[test]
fn rename_target_keeps_extension_and_canonical_parent() {
    let files = vec![Some("mkv".to_string())];
    let (target, note) = target_of("/root/My Movie (2024)/My.Movie_2024.mkv", None, false, Some(&files));
    assert_eq!(target, "/root/My Movie (2024)/My Movie (2024).mkv");
    assert_eq!(note, "will rename to Movie Name - Subtitle (Year) format");
}

#[test]
fn rename_target_moves_noisy_single_movie_folder() {
    let files = vec![Some("mkv".to_string())];
    let (target, _) = target_of("/root/My.Movie.2024.1080p/My.Movie.2024.1080p.mkv", None, true, Some(&files));
    assert_eq!(target, "/root/My Movie 1080p (2024)/My Movie 1080p (2024).mkv");
}

#[test]
fn rename_target_moves_multi_file_folder_only_when_allowed() {
    let files = vec![Some("mkv".to_string()), Some("MP4".to_string()), Some("txt".to_string()), None];
    let (stay, _) = target_of("/root/My.Movie.2024.Collection/My.Movie.2024.Part1.mkv", None, false, Some(&files));
    assert!(stay.starts_with("/root/My.Movie.2024.Collection/"));
    let (moved, _) = target_of("/root/My.Movie.2024.Collection/My.Movie.2024.Part1.mkv", None, true, Some(&files));
    assert!(!moved.starts_with("/root/My.Movie.2024.Collection/"));
}

#[test]
fn rename_target_uses_nfo_title_and_year() {
    let nfo = vec![Some("<movie><title>Actual Movie Name</title><year>2022</year></movie>".to_string()), None];
    let plan = plan_rename_target("/root/some.random.1080p.mkv", None, false, &nfo, None).expect("plan");
    assert_eq!(plan.target, "/root/Actual Movie Name (2022).mkv");
    assert!(!plan.truncated);
}

#[test]
fn rename_target_formats_subtitles_and_invalid_characters() {
    let o = over("Movie: Title", Some(2024));
    let (t, _) = target_of("/root/Movie Title (2024)/Movie.Title.2024.mkv", Some(&o), false, Some(&vec![Some("mkv".to_string())]));
    assert!(t.ends_with("/Movie - Title (2024).mkv"));
    let o2 = over("Movie Name: Part/2", Some(2024));
    let (t2, _) = target_of("/root/Some.Movie.File.mkv", Some(&o2), false, None);
    assert_eq!(t2, "/root/Movie Name - Part-2 (2024).mkv");
}

#[test]
fn rename_target_truncates_long_titles() {
    let long = format!("Unique{}", "A".repeat(320));
    let o = over(&long, Some(2024));
    let plan = plan_rename_target("/root/Some.Movie.File.mkv", Some(&o), false, &vec![None, None], None).expect("plan");
    assert!(plan.truncated);
    let file_name = plan.target.rsplit('/').next().expect("name").to_string();
    assert!(file_name.ends_with(" (2024).mkv"));
    assert!(file_name.len() <= MAX_PATH_COMPONENT_BYTES);
    let (_, note) = rename_outcome("/root/Some.Movie.File.mkv", &plan, false).expect("ok");
    assert!(note.contains("truncated to fit filesystem limits"));
    let collision = rename_outcome("/root/Some.Movie.File.mkv", &plan, true).expect_err("collision");
    assert!(collision.starts_with("rename collision after truncation: target already exists ("));
}

#[test]
fn rename_outcomes() {
    let plan = plan_rename_target("/root/A/Film (2001).mkv", None, false, &vec![None, None], None).expect("plan");
    let same = rename_outcome("/root/A/Film (2001).mkv", &plan, true).expect("no-op");
    assert_eq!(same.1, "already matches Movie Name - Subtitle (Year) format");
    let plan2 = plan_rename_target("/root/A/film.2001.mkv", None, false, &vec![None, None], None).expect("plan");
    assert_eq!(plan2.target, "/root/A/film (2001).mkv");
    assert_eq!(
        rename_outcome("/root/A/film.2001.mkv", &plan2, true),
        Err("rename collision: target already exists (/root/A/film (2001).mkv)".to_string())
    );
    assert_eq!(
        plan_rename_target("", None, false, &vec![None, None], None).err(),
        Some("cannot determine rename parent directory".to_string())
    );
}

#[test]
fn rename_stem_limits_and_shortening() {
    let parent = chars("/lib");
    assert!(rename_stem_fits_limits(&parent, false, &chars("Film (2001)"), &chars(".mkv")));
    assert!(!rename_stem_fits_limits(&parent, false, &chars(&"é".repeat(128)), &chars("")));
    assert!(rename_stem_fits_limits(&parent, false, &chars(&"é".repeat(127)), &chars("")));
    let (stem, truncated) = build_rename_stem_with_limits(&parent, false, &chars("  Plain  "), None, &chars(".mkv")).expect("fits");
    assert_eq!(text(&stem), "Plain");
    assert!(!truncated);
    let (stem2, truncated2) = build_rename_stem_with_limits(&parent, false, &chars(&format!("{} -x", "b".repeat(250))), Some(1999), &chars(".mkv")).expect("fits after shortening");
    assert!(truncated2);
    assert!(text(&stem2).ends_with(" (1999)"));
    assert!(!text(&stem2).contains('-'));
    assert_eq!(
        build_rename_stem_with_limits(&parent, false, &chars("   "), None, &chars("")).err(),
        Some("rename target stem is empty after normalization".to_string())
    );
    let deep = chars(&format!("/{}", "d/".repeat(2100)));
    assert_eq!(
        build_rename_stem_with_limits(&deep, false, &chars("Title"), None, &chars(".mkv")).err(),
        Some("rename target exceeds filesystem limits and cannot be truncated safely".to_string())
    );
}

#[test]
fn folder_moves_only_for_single_movie_folders_with_other_names() {
    let parent = chars("/lib/Heat.1995.1080p");
    let one = vec![Some("mkv".to_string()), Some("nfo".to_string())];
    assert!(should_move_into_canonical_folder(&parent, &chars("Heat (1995)"), false, Some(&one)));
    assert!(!should_move_into_canonical_folder(&chars("/lib/HEAT (1995)"), &chars("Heat (1995)"), false, Some(&one)));
    assert!(!should_move_into_canonical_folder(&parent, &chars("Heat (1995)"), false, None));
    assert!(!should_move_into_canonical_folder(&parent, &chars("Heat (1995)"), false, Some(&vec![Some("srt".to_string())])));
    let two = vec![Some("mkv".to_string()), Some("WEBM".to_string())];
    assert!(!should_move_into_canonical_folder(&parent, &chars("Heat (1995)"), false, Some(&two)));
    assert!(should_move_into_canonical_folder(&parent, &chars("Heat (1995)"), true, Some(&two)));
}

#[test]
fn linked_family_names() {
    assert_eq!(linked_family_target_name("Old Name.nfo", "Old Name", "New Name (2024)"), Some("New Name (2024).nfo".to_string()));
    assert_eq!(linked_family_target_name("movie.nfo", "Old Name", "New Name (2024)"), Some("New Name (2024)-movie.nfo".to_string()));
    assert_eq!(linked_family_target_name("Old Name.jpg", "Old Name", "New Name (2024)"), Some("New Name (2024).jpg".to_string()));
    assert_eq!(linked_family_target_name("Old Name.en.SRT", "Old Name", "New"), Some("New.en.srt".to_string()));
    assert_eq!(linked_family_target_name("Old Name-poster.jpg", "Old Name", "New"), Some("New-poster.jpg".to_string()));
    assert_eq!(linked_family_target_name("fanart.JPG", "Old Name", "New Name (2024)"), Some("New Name (2024)-fanart.jpg".to_string()));
    assert_eq!(linked_family_target_name("fanart.txt", "Old Name", "New"), None);
    assert_eq!(linked_family_target_name("Other.srt", "Old Name", "New"), None);
    assert!(is_folder_level_image_alias("poster", Some("webp")));
    assert!(!is_folder_level_image_alias("poster", None));
    assert!(!is_folder_level_image_alias("cover", Some("jpg")));
}

#[test]
fn trickplay_folders() {
    assert!(is_trickplay_directory_name("Old Name-trickplay", "Old Name"));
    assert!(is_trickplay_directory_name("OLD NAME.Trickplay", "old name"));
    assert!(!is_trickplay_directory_name("Old Name-extras", "Old Name"));
    assert_eq!(rename_trickplay_directory_name("Old Name-trickplay", "Old Name", "New Name (2024)"), "New Name (2024)-trickplay");
    assert_eq!(rename_trickplay_directory_name("OLD NAME-trickplay", "Old Name", "New"), "New-trickplay");
    assert_eq!(rename_trickplay_directory_name("x-trickplay", "Old Name", "New"), "x-trickplay");
}

#[test]
fn family_plan_orders_renames_and_refuses_symlinks() {
    let stems = family_stems("/lib/Old Folder/Old Name.mkv", "/lib/New Folder/New Name (2024).mkv")
        .expect("stems")
        .expect("something to do");
    assert_eq!(stems.target_parent, "/lib/New Folder");
    let entries = vec![
        FamilyEntry { path: "/lib/Old Folder/Old Name.srt".to_string(), kind: EntryKind::File },
        FamilyEntry { path: "/lib/Old Folder/Old Name.mkv".to_string(), kind: EntryKind::File },
        FamilyEntry { path: "/lib/Old Folder/Old Name-trickplay".to_string(), kind: EntryKind::Dir },
        FamilyEntry { path: "/lib/Old Folder/notes.txt".to_string(), kind: EntryKind::File },
    ];
    assert_eq!(
        family_entry_target("/lib/Old Folder/Old Name.mkv", &stems, &entries[2]),
        Ok(Some("/lib/New Folder/New Name (2024)-trickplay".to_string()))
    );
    let pairs = plan_family_renames("/lib/Old Folder/Old Name.mkv", &stems, &entries, &vec![false; 4]).expect("plan");
    assert_eq!(pairs.len(), 2);
    assert_eq!(pairs[0].source, "/lib/Old Folder/Old Name-trickplay");
    assert_eq!(pairs[1].source, "/lib/Old Folder/Old Name.srt");
    assert_eq!(pairs[1].target, "/lib/New Folder/New Name (2024).srt");

    let clash = plan_family_renames("/lib/Old Folder/Old Name.mkv", &stems, &entries, &vec![true, false, false, false]);
    assert_eq!(clash.err(), Some("target linked sidecar path already exists (/lib/New Folder/New Name (2024).srt)".to_string()));

    let with_link = vec![FamilyEntry { path: "/lib/Old Folder/link.jpg".to_string(), kind: EntryKind::Symlink }];
    assert_eq!(
        plan_family_renames("/lib/Old Folder/Old Name.mkv", &stems, &with_link, &vec![false]).err(),
        Some("linked sidecar entry is symlink and cannot be renamed safely (/lib/Old Folder/link.jpg)".to_string())
    );
    assert!(family_stems("/lib/A/x.mkv", "/lib/A/x.mkv").expect("ok").is_none());
    assert_eq!(family_stems("", "/x.mkv").err(), Some("cannot determine source parent directory".to_string()));
}
