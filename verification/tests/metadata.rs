use std::collections::hash_map::DefaultHasher;
use std::hash::{Hash, Hasher};

use media_manager::metadata::{
    build_local_provider_id, extract_nfo_provider_id, extract_provider_id, extract_xml_tag_value,
    extract_year, infer_metadata_candidate, nfo_candidate_paths, normalize_optional_string,
    parse_movie_folder_pattern, parse_nfo_metadata_content, parse_nfo_metadata_for_media_path,
    MetadataOverride,
};

fn no_nfo() -> Vec<Option<String>> {
    vec![None, None]
}

#[test]
fn metadata_inference_prefers_folder_pattern_when_available() {
    let media =
        "/media/movies/Ghostbusters - Frozen Empire (2024) - [tmdbid-967847]/Ghostbusters.mkv";
    let candidate = infer_metadata_candidate(media, "ghostbusters-uid", None, &no_nfo());
    assert_eq!(candidate.title, "Ghostbusters Frozen Empire");
    assert_eq!(candidate.year, Some(2024));
    assert_eq!(candidate.provider_id, "tmdb-967847");
    assert!(candidate.confidence_pct as f32 / 100.0 >= 0.9);
}

#[test]
fn metadata_inference_parses_imdb_folder_pattern() {
    let media = "/media/movies/Zootopia 2 (2025) - [imdb-tt26443597]/Zootopia 2 (2025).mkv";
    let candidate = infer_metadata_candidate(media, "zootopia-uid", None, &no_nfo());
    assert_eq!(candidate.title, "Zootopia 2");
    assert_eq!(candidate.year, Some(2025));
    assert_eq!(candidate.provider_id, "imdb-tt26443597");
}

#[test]
fn metadata_inference_extracts_title_year_and_provider() {
    let media = "/tmp/The.Movie.2021.1080p.WEBRip.x264.mkv";
    let candidate = infer_metadata_candidate(media, "the-movie-uid", None, &no_nfo());
    assert_eq!(candidate.title, "The Movie");
    assert_eq!(candidate.year, Some(2021));
    assert!(candidate.provider_id.starts_with("tmdb-local-"));
    assert!(candidate.confidence_pct as f32 / 100.0 >= 0.75);
}

#[test]
fn metadata_inference_honors_override_values() {
    let media = "/tmp/The.Movie.2021.1080p.WEBRip.x264.mkv";
    let metadata_override = MetadataOverride {
        title: Some("Custom Title".to_string()),
        year: Some(1999),
        provider_id: Some("tmdb-override-123".to_string()),
    };
    let candidate =
        infer_metadata_candidate(media, "the-movie-uid", Some(&metadata_override), &no_nfo());
    assert_eq!(candidate.title, "Custom Title");
    assert_eq!(candidate.year, Some(1999));
    assert_eq!(candidate.provider_id, "tmdb-override-123");
    assert_eq!(candidate.confidence_pct, 90);
}

#[test]
fn metadata_inference_prefers_nfo_over_folder() {
    let media = "/lib/Wrong Movie (2010) - [imdb-tt0000001]/Wrong.Movie.2010.mkv";
    let nfo = vec![
        Some("<movie><title>Correct Movie</title><year>2024</year><uniqueid type=\"imdb\">tt1234567</uniqueid></movie>".to_string()),
        None,
    ];
    let candidate = infer_metadata_candidate(media, "wrong-movie-uid", None, &nfo);
    assert_eq!(candidate.title, "Correct Movie");
    assert_eq!(candidate.year, Some(2024));
    assert_eq!(candidate.provider_id, "imdb-tt1234567");
    assert_eq!(candidate.confidence_pct, 99);
}

#[test]
fn blank_override_values_are_ignored() {
    let metadata_override = MetadataOverride {
        title: Some("   ".to_string()),
        year: None,
        provider_id: Some("".to_string()),
    };
    let candidate = infer_metadata_candidate(
        "/tmp/Some.Film.mkv",
        "uid",
        Some(&metadata_override),
        &no_nfo(),
    );
    assert_eq!(candidate.title, "Some Film");
    assert_eq!(candidate.year, None);
    assert!(candidate.provider_id.starts_with("tmdb-local-"));
    assert_eq!(candidate.confidence_pct, 60);
    assert_eq!(normalize_optional_string(&Some("  x ".to_string())), Some("x".to_string()));
    assert_eq!(normalize_optional_string(&None), None);
}

#[test]
fn title_falls_back_to_item_uid_when_only_noise_remains() {
    let candidate = infer_metadata_candidate("/tmp/1080p.x264.mkv", "my_uid-here", None, &no_nfo());
    assert_eq!(candidate.title, "my uid here");
    assert_eq!(candidate.year, None);
    assert_eq!(candidate.confidence_pct, 60);
}

#[test]
fn xml_tags_are_read_case_insensitively_and_trimmed() {
    let c = "<Movie><TITLE>  The Film </TITLE><year>1999</year></Movie>";
    assert_eq!(extract_xml_tag_value(c, "title"), Some("The Film".to_string()));
    assert_eq!(extract_xml_tag_value(c, "year"), Some("1999".to_string()));
    assert_eq!(extract_xml_tag_value(c, "plot"), None);
    assert_eq!(extract_xml_tag_value("<title>   </title>", "title"), None);
    assert_eq!(extract_xml_tag_value("<title>x", "title"), None);
}

#[test]
fn nfo_provider_ids_in_order_of_preference() {
    assert_eq!(
        extract_nfo_provider_id("<imdbid> tt 123 </imdbid><tmdbid>5</tmdbid>"),
        Some("imdb-tt123".to_string())
    );
    assert_eq!(
        extract_nfo_provider_id("<imdbid>nm1</imdbid><tmdbid>55</tmdbid>"),
        Some("tmdb-55".to_string())
    );
    assert_eq!(
        extract_nfo_provider_id("<uniqueid type='tmdb'>42</uniqueid>"),
        Some("tmdb-42".to_string())
    );
    assert_eq!(
        extract_nfo_provider_id("<uniqueid type=\"imdb\">bad</uniqueid><uniqueid type=\"imdb\">tt77</uniqueid>"),
        Some("imdb-tt77".to_string())
    );
    assert_eq!(extract_nfo_provider_id("<movie></movie>"), None);
}

#[test]
fn nfo_content_parsing() {
    let parsed = parse_nfo_metadata_content(
        "<movie><originaltitle>Orig.Title</originaltitle><premiered>2003-05-01</premiered></movie>",
    )
    .expect("parsed");
    assert_eq!(parsed.title, "Orig Title");
    assert_eq!(parsed.year, Some(2003));
    assert_eq!(parsed.provider_id, None);
    assert_eq!(parsed.confidence_pct, 99);
    assert!(parse_nfo_metadata_content("<movie><year>2000</year></movie>").is_none());
    assert!(parse_nfo_metadata_content("<title>...</title>").is_none());

    let chosen = parse_nfo_metadata_for_media_path(&vec![
        Some("   ".to_string()),
        Some("<title>Second</title>".to_string()),
    ])
    .expect("second candidate");
    assert_eq!(chosen.title, "Second");
    assert_eq!(
        nfo_candidate_paths("/lib/A/Film.mkv"),
        Some(("/lib/A/Film.nfo".to_string(), "/lib/A/movie.nfo".to_string()))
    );
}

#[test]
fn folder_patterns() {
    let p = parse_movie_folder_pattern("Heat (1995)").expect("year only");
    assert_eq!(p.title, "Heat");
    assert_eq!(p.year, Some(1995));
    assert_eq!(p.provider_id, None);
    assert_eq!(p.confidence_pct, 85);
    let q = parse_movie_folder_pattern("Heat [tmdb-949]").expect("provider only");
    assert_eq!(q.provider_id, Some("tmdb-949".to_string()));
    assert_eq!(q.confidence_pct, 80);
    assert!(parse_movie_folder_pattern("Just A Folder").is_none());
    assert!(parse_movie_folder_pattern("   ").is_none());
    assert!(parse_movie_folder_pattern("(2001)").is_none());
}

#[test]
fn provider_and_year_extraction() {
    assert_eq!(
        extract_provider_id("Film [IMDBTT0111] [x]"),
        (Some("imdb-tt0111".to_string()), "Film [x]".to_string())
    );
    assert_eq!(
        extract_provider_id("Film [junk] [tmdbid 12_3]"),
        (Some("tmdb-123".to_string()), "Film [junk]".to_string())
    );
    assert_eq!(extract_provider_id("No.Ids"), (None, "No Ids".to_string()));
    assert_eq!(extract_year("Movie (2001) Extra"), (Some(2001), "Movie Extra".to_string()));
    assert_eq!(extract_year("1999 Movie 19991"), (Some(1999), "Movie 1".to_string()));
    assert_eq!(extract_year("Movie (Extended) 2004"), (Some(2004), "Movie (Extended)".to_string()));
    assert_eq!(extract_year("Movie"), (None, "Movie".to_string()));
}

#[test]
fn local_provider_id_hashes_lowercased_title_and_year() {
    let id = build_local_provider_id("The Movie", Some(2021));
    assert!(id.starts_with("tmdb-local-"));
    assert_eq!(id.len(), "tmdb-local-".len() + 8);
    assert!(id["tmdb-local-".len()..].chars().all(|c| c.is_ascii_hexdigit() && !c.is_ascii_uppercase()));
    assert_eq!(id, build_local_provider_id("THE MOVIE", Some(2021)));

    let mut hasher = DefaultHasher::new();
    "the movie".to_string().hash(&mut hasher);
    2021_u16.hash(&mut hasher);
    let expected = format!("tmdb-local-{:08x}", hasher.finish() & 0xffff_ffff);
    assert_eq!(id, expected);

    let mut h0 = DefaultHasher::new();
    "x".hash(&mut h0);
    0_u16.hash(&mut h0);
    assert_eq!(build_local_provider_id("X", None), format!("tmdb-local-{:08x}", h0.finish() & 0xffff_ffff));
}
