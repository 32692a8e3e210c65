use std::collections::hash_map::DefaultHasher;
use std::hash::{Hash, Hasher};

use sha2::{Digest, Sha256};

use media_manager::bulk::{hash_bulk_preview, plan_unavailable, preview_fingerprint_in_order, PreviewFingerprintItem};
use media_manager::metadata::{
    build_local_provider_id, infer_metadata_candidate, infer_metadata_candidate_in_order, local_provider_id_in_order,
};
use media_manager::probe::{content_hash_hex, content_hasher_new, content_hasher_update};
use media_manager::sidecar_workflow::plan_hash;

fn native_little_endian() -> bool {
    1u16.to_ne_bytes()[0] == 1
}

fn hash_chunks(chunks: &[&[u8]]) -> String {
    let mut hasher = content_hasher_new();
    for chunk in chunks {
        content_hasher_update(&mut hasher, chunk);
    }
    content_hash_hex(hasher)
}

#[test]
fn content_hash_of_known_inputs() {
    assert_eq!(
        hash_chunks(&[]),
        "e3b0c44298fc1c149afbf4c8996fb92427ae41e4649b934ca495991b7852b855"
    );
    assert_eq!(
        hash_chunks(&[b"abc"]),
        "ba7816bf8f01cfea414140de5dae2223b00361a396177a9cb410ff61f20015ad"
    );
}

#[test]
fn content_hash_ignores_how_content_is_chunked() {
    let whole = hash_chunks(&[b"hello media library"]);
    let split = hash_chunks(&[b"hello ", b"", b"media", b" library"]);
    assert_eq!(whole, split);
    assert_eq!(whole.len(), 64);
}

#[test]
fn content_hash_matches_sha2_directly() {
    let data: Vec<u8> = (0..5000u32).map(|i| (i * 7 % 251) as u8).collect();
    let expected: String = Sha256::digest(&data).iter().map(|b| format!("{b:02x}")).collect();
    assert_eq!(hash_chunks(&[&data[..1000], &data[1000..]]), expected);
    assert_ne!(hash_chunks(&[&data[..4999]]), expected);
}

fn std_plan_hash(path: &str, existing: &str, next: &str) -> String {
    let mut hasher = DefaultHasher::new();
    path.to_string().hash(&mut hasher);
    existing.to_string().hash(&mut hasher);
    next.to_string().hash(&mut hasher);
    format!("{:016x}", hasher.finish())
}

#[test]
fn plan_hash_matches_hashing_the_three_documents() {
    let path = "/library/Movie (2020)/Movie (2020).mkv.sidecar.json";
    let existing = "null";
    let next = "{\"item_uid\":\"movie-uid\"}";
    let h = plan_hash(path, existing, next);
    assert_eq!(h, std_plan_hash(path, existing, next));
    assert_eq!(h.len(), 16);
    assert_eq!(h, plan_hash(path, existing, next));
    assert_ne!(h, plan_hash(path, next, existing));
}

#[test]
fn local_provider_id_follows_the_byte_order() {
    let mut little = DefaultHasher::new();
    "the movie".hash(&mut little);
    little.write(&2021u16.to_le_bytes());
    assert_eq!(
        local_provider_id_in_order("The Movie", Some(2021), true),
        format!("tmdb-local-{:08x}", little.finish() & 0xffff_ffff)
    );
    let mut big = DefaultHasher::new();
    "the movie".hash(&mut big);
    big.write(&2021u16.to_be_bytes());
    assert_eq!(
        local_provider_id_in_order("The Movie", Some(2021), false),
        format!("tmdb-local-{:08x}", big.finish() & 0xffff_ffff)
    );
    let here = native_little_endian();
    assert_eq!(build_local_provider_id("The Movie", Some(2021)), local_provider_id_in_order("The Movie", Some(2021), here));
}

#[test]
fn inferred_candidate_uses_this_machines_order() {
    let here = native_little_endian();
    let media = "/library/Some Film 1999/some.film.1999.mkv";
    let a = infer_metadata_candidate(media, "uid", None, &vec![None, None]);
    let b = infer_metadata_candidate_in_order(media, "uid", None, &vec![None, None], here);
    assert_eq!(a.title, b.title);
    assert_eq!(a.year, b.year);
    assert_eq!(a.provider_id, b.provider_id);
    let other = infer_metadata_candidate_in_order(media, "uid", None, &vec![None, None], !here);
    assert_eq!(other.title, b.title);
    assert_eq!(other.year, b.year);
}

fn sample_items() -> Vec<PreviewFingerprintItem> {
    vec![
        PreviewFingerprintItem {
            media_path: "/library/a.mkv".to_string(),
            item_uid: "a-uid".to_string(),
            can_apply: true,
            proposed_media_path: Some("/library/A (2001)/A (2001).mkv".to_string()),
            proposed_item_uid: None,
            proposed_provider_id: Some("tmdb-1".to_string()),
            metadata_title: Some("A".to_string()),
            metadata_year: Some(2001),
            metadata_confidence_bits: Some(0.75f32.to_bits()),
            note: None,
            plan_hash: Some("0123456789abcdef".to_string()),
            error: None,
        },
        PreviewFingerprintItem {
            media_path: "/library/b.mkv".to_string(),
            item_uid: "b-uid".to_string(),
            can_apply: false,
            proposed_media_path: None,
            proposed_item_uid: None,
            proposed_provider_id: None,
            metadata_title: None,
            metadata_year: None,
            metadata_confidence_bits: None,
            note: Some("already canonical".to_string()),
            plan_hash: None,
            error: Some("denied".to_string()),
        },
    ]
}

fn std_preview_hash(action: &str, items: &[PreviewFingerprintItem]) -> String {
    let mut hasher = DefaultHasher::new();
    action.hash(&mut hasher);
    for item in items {
        item.media_path.hash(&mut hasher);
        item.item_uid.hash(&mut hasher);
        item.can_apply.hash(&mut hasher);
        for text in [
            &item.proposed_media_path,
            &item.proposed_item_uid,
            &item.proposed_provider_id,
            &item.metadata_title,
        ] {
            if let Some(t) = text {
                t.hash(&mut hasher);
            }
        }
        if let Some(year) = item.metadata_year {
            year.hash(&mut hasher);
        }
        if let Some(bits) = item.metadata_confidence_bits {
            bits.hash(&mut hasher);
        }
        for text in [&item.note, &item.plan_hash, &item.error] {
            if let Some(t) = text {
                t.hash(&mut hasher);
            }
        }
    }
    format!("{:016x}", hasher.finish())
}

#[test]
fn preview_hash_matches_hashing_each_field() {
    let items = sample_items();
    let h = hash_bulk_preview("rename", &items);
    assert_eq!(h, std_preview_hash("rename", &items));
    assert_eq!(h, preview_fingerprint_in_order("rename", &items, native_little_endian()));
    assert_ne!(h, hash_bulk_preview("nfo", &items));
    assert_ne!(
        preview_fingerprint_in_order("rename", &items, true),
        preview_fingerprint_in_order("rename", &items, false)
    );
    assert_eq!(hash_bulk_preview("rename", &Vec::new()), std_preview_hash("rename", &[]));
}

#[test]
fn missing_plan_fails_with_its_error() {
    let with_error = plan_unavailable("/library/a.mkv", "a-uid", &Some("sidecar unreadable".to_string()));
    assert!(!with_error.success);
    assert_eq!(with_error.error.as_deref(), Some("sidecar unreadable"));
    assert_eq!(with_error.media_path, "/library/a.mkv");
    assert_eq!(with_error.item_uid, "a-uid");
    let without = plan_unavailable("/library/a.mkv", "a-uid", &None);
    assert_eq!(without.error.as_deref(), Some("plan unavailable"));
    assert!(without.operation_id.is_none());
}
