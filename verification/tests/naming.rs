use media_manager::display::{normalize_title_for_display_name, sanitize_display_filename_component};
use media_manager::duplicates::{
    build_duplicate_groups, build_semantic_duplicate_key, count_variants, duplicate_key_for_media_path,
    duplicate_uid_for_item, partition_semantic_group_items, semantic_subgroups, KeyedPath,
    SemanticDuplicateItem,
};
use media_manager::naming::{
    extract_episode_signature_from_media_path, normalize_duplicate_key, normalize_filename_stem,
    parse_year_token,
};

fn item(path: &str, hash: Option<&str>) -> SemanticDuplicateItem {
    SemanticDuplicateItem {
        media_path: path.to_string(),
        file_size: 10,
        content_hash: hash.map(|v| v.to_string()),
        video_codec: None,
        audio_codec: None,
        width: None,
        height: None,
    }
}

#[test]
fn filename_normalization_compacts_separators() {
    assert_eq!(
        normalize_filename_stem("Movie.Name_2024-1080p"),
        "Movie Name 2024 1080p"
    );
    assert_eq!(normalize_filename_stem("  A..B__C  "), "A B C");
}

#[test]
fn duplicate_key_removes_noise_tokens() {
    assert_eq!(
        normalize_duplicate_key("The.Movie.2021.1080p.BluRay.x264"),
        "the movie|2021"
    );
}

#[test]
fn episode_signature_is_extracted_from_media_path() {
    let path = "/media/tv/MythBusters/Season 2006/MythBusters - S2006E01 - Paper Crossbow.mkv";
    assert_eq!(
        extract_episode_signature_from_media_path(path),
        Some("S2006E001".to_string())
    );
}

#[test]
fn semantic_partition_splits_tv_season_into_episode_buckets() {
    let items = vec![
        SemanticDuplicateItem {
            media_path: "/media/tv/Show/Season 1/Show - S01E01 - A.mkv".to_string(),
            file_size: 10,
            content_hash: Some("hash-a".to_string()),
            video_codec: None,
            audio_codec: None,
            width: None,
            height: None,
        },
        SemanticDuplicateItem {
            media_path: "/media/tv/Show/Season 1/Show - S01E02 - B.mkv".to_string(),
            file_size: 11,
            content_hash: Some("hash-b".to_string()),
            video_codec: None,
            audio_codec: None,
            width: None,
            height: None,
        },
    ];

    let buckets = partition_semantic_group_items(items, 2);
    assert_eq!(buckets.len(), 0);
}

#[test]
fn duplicate_grouping_uses_normalized_key() {
    let paths = ["/tmp/Movie.Name.2024.mkv", "/tmp/movie name 2024.mp4", "/tmp/Other.Movie.mkv"];
    let items: Vec<KeyedPath> = paths
        .iter()
        .map(|p| KeyedPath {
            media_path: p.to_string(),
            key: duplicate_key_for_media_path(p, &vec![None, None]),
        })
        .collect();

    let groups = build_duplicate_groups(&items);
    assert_eq!(
        normalize_duplicate_key("Movie.Name.2024"),
        "movie name|2024"
    );
    assert_eq!(groups.get("movie name|2024").map(Vec::len), Some(2));
    assert_eq!(groups.get("other movie|none").map(Vec::len), Some(1));
}

#[test]
fn duplicate_key_without_year_or_title_words() {
    assert_eq!(normalize_duplicate_key("Some.Film"), "some film|none");
    assert_eq!(normalize_duplicate_key("1080p.x264"), "1080p x264|none");
    assert_eq!(normalize_duplicate_key("2020"), "2020|2020");
    assert_eq!(normalize_duplicate_key("Film.1899"), "film 1899|none");
}

#[test]
fn year_tokens_are_four_digits_in_range() {
    assert_eq!(parse_year_token(" 2024 "), Some(2024));
    assert_eq!(parse_year_token("1900"), Some(1900));
    assert_eq!(parse_year_token("2100"), Some(2100));
    assert_eq!(parse_year_token("2101"), None);
    assert_eq!(parse_year_token("1899"), None);
    assert_eq!(parse_year_token("+999"), None);
    assert_eq!(parse_year_token("20245"), None);
    assert_eq!(parse_year_token("abcd"), None);
}

#[test]
fn episode_signature_absent_and_padded() {
    assert_eq!(extract_episode_signature_from_media_path("/movies/Film (2020).mkv"), None);
    assert_eq!(
        extract_episode_signature_from_media_path("show.s3e7.mkv"),
        Some("S0003E007".to_string())
    );
    assert_eq!(
        extract_episode_signature_from_media_path("/tv/S01E02/Plain.mkv"),
        None
    );
    assert_eq!(
        extract_episode_signature_from_media_path("Series S1E"),
        None
    );
}

#[test]
fn partition_keeps_large_episode_buckets_then_plain_items() {
    let items = vec![
        item("/tv/Show - S01E01 - A.mkv", Some("a")),
        item("/tv/Movie.mkv", Some("m1")),
        item("/tv/Show - S01E01 - A (copy).mkv", Some("b")),
        item("/tv/Movie copy.mkv", Some("m2")),
        item("/tv/Show - S01E02 - B.mkv", Some("c")),
    ];
    let buckets = partition_semantic_group_items(items, 2);
    assert_eq!(buckets.len(), 2);
    assert_eq!(buckets[0].len(), 2);
    assert_eq!(buckets[0][0].media_path, "/tv/Show - S01E01 - A.mkv");
    assert_eq!(buckets[0][1].media_path, "/tv/Show - S01E01 - A (copy).mkv");
    assert_eq!(buckets[1].len(), 2);
    assert_eq!(buckets[1][0].media_path, "/tv/Movie.mkv");
    for bucket in &buckets {
        assert!(bucket.len() >= 2);
        let first = extract_episode_signature_from_media_path(&bucket[0].media_path);
        for member in bucket {
            assert_eq!(extract_episode_signature_from_media_path(&member.media_path), first);
        }
    }
}

#[test]
fn variants_are_counted_by_hash_or_path() {
    let items = vec![
        item("/a.mkv", Some("h1")),
        item("/b.mkv", Some("h1")),
        item("/c.mkv", None),
        item("/c.mkv", None),
        item("/d.mkv", Some("h2")),
    ];
    assert_eq!(count_variants(&items), 3);
    let groups = semantic_subgroups(items, 1);
    assert_eq!(groups.len(), 1);
    assert_eq!(groups[0].item_count, 5);
    assert_eq!(groups[0].variant_count, 3);

    let same = vec![item("/a.mkv", Some("h")), item("/b.mkv", Some("h"))];
    assert!(semantic_subgroups(same, 2).is_empty());
}

#[test]
fn duplicate_uid_uses_least_path_of_group() {
    let items = vec![
        KeyedPath { media_path: "/m/Zeta.Cut.2020.mkv".to_string(), key: "k".to_string() },
        KeyedPath { media_path: "/m/Alpha.Cut.2020.mkv".to_string(), key: "k".to_string() },
        KeyedPath { media_path: "/m/Lone.mkv".to_string(), key: "solo".to_string() },
    ];
    let groups = build_duplicate_groups(&items);
    assert_eq!(groups.groups.len(), 2);
    assert_eq!(
        duplicate_uid_for_item("/m/Zeta.Cut.2020.mkv", "k", &groups),
        ("Alpha Cut 2020".to_string(), 2)
    );
    assert_eq!(
        duplicate_uid_for_item("/m/Lone.mkv", "solo", &groups),
        ("Lone".to_string(), 1)
    );
    assert_eq!(
        duplicate_uid_for_item("/m/Other_File.mkv", "missing", &groups),
        ("Other File".to_string(), 1)
    );
}

#[test]
fn semantic_key_lowercases_and_fills_unknowns() {
    assert_eq!(
        build_semantic_duplicate_key("Sample.Movie", Some(2021), &Some("IMDB-tt7654321".to_string())),
        "sample movie|2021|imdb-tt7654321"
    );
    assert_eq!(build_semantic_duplicate_key("X", None, &None), "x|none|provider:none");
    assert_eq!(
        duplicate_key_for_media_path(
            "/lib/Sample Movie (2021) - [imdb-tt7654321]/sample-file-v1.mkv",
            &vec![None, None]
        ),
        "sample movie|2021|imdb-tt7654321"
    );
    assert_eq!(
        duplicate_key_for_media_path(
            "/lib/Ambiguous Folder (2000)/random-name.mkv",
            &vec![
                Some("<movie><title>Exact Key Movie</title><year>2023</year><tmdbid>778899</tmdbid></movie>".to_string()),
                None
            ]
        ),
        "exact key movie|2023|tmdb-778899"
    );
}

#[test]
fn display_titles_and_components() {
    assert_eq!(normalize_title_for_display_name("Movie.Name: Part-Two"), "Movie Name - Part Two");
    assert_eq!(normalize_title_for_display_name("  a -- b  "), "a b");
    assert_eq!(normalize_title_for_display_name("A - B - C"), "A - B - C");
    assert_eq!(normalize_title_for_display_name("Movie: Title"), "Movie - Title");
    assert_eq!(sanitize_display_filename_component("Movie: Part/Two"), "Movie- Part-Two");
    assert_eq!(sanitize_display_filename_component("  --A  B--  "), "A B");
    assert_eq!(sanitize_display_filename_component("a*?b"), "a-b");
}
