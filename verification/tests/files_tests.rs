use std::path::PathBuf;

use audiobooker::files::{
    build_library_relative_path, content_path_candidates, join_source, join_source_variants,
    local_root_candidates, removal_target, resolve_download_source, resolve_item_source, sanitize_component,
    download_source_plan, first_found, item_source_tries,
};
use audiobooker::models::BookMetadataPublic;

#[test]
fn remaps_relative_to_local_root() {
    let mapped = resolve_download_source(
        Some("/mnt/user/downloads/Some Book"),
        Some("/mnt/user/downloads"),
        "/downloads",
    );
    assert_eq!(PathBuf::from(mapped), PathBuf::from("/downloads/Some Book"));
}

#[test]
fn strips_doubled_torrent_root() {
    let variants: Vec<PathBuf> = join_source_variants("/downloads/My Pack", "My Pack/Book One/chapter.m4b")
        .into_iter()
        .map(PathBuf::from)
        .collect();
    assert!(variants.contains(&PathBuf::from("/downloads/My Pack/Book One/chapter.m4b")));
}

#[test]
fn incomplete_to_complete_candidate() {
    let alts = content_path_candidates(Some("/data/incomplete/My Pack"));
    assert!(alts.iter().any(|p| p.contains("/complete/")));
}

#[test]
fn content_candidates_list_every_variant_in_order() {
    let alts = content_path_candidates(Some("/data/incomplete/My Pack"));
    assert_eq!(
        alts,
        vec![
            "/data/incomplete/My Pack".to_string(),
            "/data/complete/My Pack".to_string(),
            "/data/completed/My Pack".to_string(),
        ]
    );
    let trailing = content_path_candidates(Some("/data/Incomplete"));
    assert_eq!(
        trailing,
        vec![
            "/data/Incomplete".to_string(),
            "/data/complete".to_string(),
            "/data/completed".to_string(),
        ]
    );
    assert!(content_path_candidates(Some("")).is_empty());
    assert!(content_path_candidates(None).is_empty());
}

#[test]
fn local_roots_prefer_complete_siblings() {
    assert_eq!(
        local_root_candidates(" /data/incomplete "),
        vec![
            "/data/complete".to_string(),
            "/data/completed".to_string(),
            "/data/done".to_string(),
            "/data/incomplete".to_string(),
        ]
    );
    assert_eq!(
        local_root_candidates("/data/complete"),
        vec!["/data/complete".to_string(), "/data/incomplete".to_string()]
    );
    assert_eq!(local_root_candidates("/downloads"), vec!["/downloads".to_string()]);
    assert!(local_root_candidates("   ").is_empty());
}

#[test]
fn variants_of_plain_relative_path() {
    assert_eq!(
        join_source_variants("/downloads/Pack", "/Other/file.m4b"),
        vec!["/downloads/Pack/Other/file.m4b".to_string()]
    );
    assert_eq!(join_source_variants("/downloads/Pack", ""), vec!["/downloads/Pack".to_string()]);
    assert_eq!(
        join_source_variants("/downloads/Pack", "Pack"),
        vec!["/downloads/Pack/Pack".to_string(), "/downloads/Pack".to_string()]
    );
}

#[test]
fn fallbacks_without_anything_on_disk() {
    assert_eq!(resolve_download_source(None, None, "/downloads"), "/downloads");
    assert_eq!(resolve_download_source(None, None, ""), "");
    assert_eq!(
        resolve_download_source(Some("/elsewhere/Book"), None, "/downloads"),
        "/downloads/Book"
    );
    assert_eq!(
        resolve_download_source(None, Some("/qbit/save"), ""),
        "/qbit/save"
    );
}

#[test]
fn item_source_without_anything_on_disk_is_first_try() {
    let p = resolve_item_source(
        Some("/mnt/user/downloads/My Pack"),
        Some("/mnt/user/downloads"),
        "/no-such-root-for-tests",
        "My Pack/Book One/a.m4b",
    );
    assert_eq!(p, "/no-such-root-for-tests/My Pack/My Pack/Book One/a.m4b");
}

#[test]
fn join_source_cleans_relative_path() {
    assert_eq!(join_source("/d/Pack", "/Book\\a.m4b"), "/d/Pack/Book/a.m4b");
    assert_eq!(join_source("/d/Pack", "///"), "/d/Pack");
}

#[test]
fn library_path_is_author_series_title() {
    let meta = BookMetadataPublic {
        asin: "B0TEST0001".into(),
        title: "The Book: Part?".into(),
        subtitle: None,
        authors: vec!["Jane Doe".into(), "Other".into()],
        narrators: vec![],
        series: Some("Saga/One".into()),
        series_index: Some("2".into()),
        cover_url: None,
        description: None,
        region: "us".into(),
    };
    assert_eq!(
        build_library_relative_path("{Author}/{Series}/{Title}", &meta),
        "Jane Doe/Saga_One/2 - The Book_ Part_"
    );
    let bare = BookMetadataPublic {
        asin: "B0TEST0002".into(),
        title: " ... ".into(),
        subtitle: None,
        authors: vec![],
        narrators: vec![],
        series: Some(String::new()),
        series_index: Some(String::new()),
        cover_url: None,
        description: None,
        region: "us".into(),
    };
    assert_eq!(build_library_relative_path("", &bare), "Unknown Author/Unknown");
}

fn safe(name: &str) -> String {
    let chars: Vec<char> = name.chars().collect();
    sanitize_component(&chars).into_iter().collect()
}

#[test]
fn folder_names_are_safe() {
    for name in ["", "..", " . ", "a/b\\c", ".hidden.", "Dune: Part 1?"] {
        let out = safe(name);
        assert!(!out.is_empty());
        assert!(!out.contains('/') && !out.contains('\\'));
        assert!(!out.starts_with('.') && !out.ends_with('.'));
    }
}

#[test]
fn removal_stays_inside_the_library() {
    assert_eq!(removal_target("/audiobooks", "Author/Book"), Some("/audiobooks/Author/Book".to_string()));
    assert_eq!(removal_target("/audiobooks/", "/audiobooks/Author/Book"), Some("/audiobooks/Author/Book".to_string()));
    assert_eq!(removal_target("/audiobooks", "/etc"), None);
    assert_eq!(removal_target("/audiobooks", ""), None);
    assert_eq!(removal_target("/audiobooks", "/audiobooks"), None);
    assert_eq!(removal_target("/audiobooks", "Author/../../etc"), None);
}

#[test]
fn the_first_path_found_wins() {
    let probes = vec!["/a".to_string(), "/b".to_string(), "/c".to_string()];
    assert_eq!(first_found(&probes, &[false, true, true], "/z"), "/b");
    assert_eq!(first_found(&probes, &[true, false, true], "/z"), "/a");
    assert_eq!(first_found(&probes, &[false, false, false], "/z"), "/z");
    assert_eq!(first_found(&[], &[], "/z"), "/z");

    let (probes, fallback) =
        download_source_plan(Some("/mnt/user/downloads/Some Book"), Some("/mnt/user/downloads"), "/downloads");
    assert_eq!(probes[0], "/mnt/user/downloads/Some Book");
    assert_eq!(fallback, "/downloads/Some Book");
    let nothing = vec![false; probes.len()];
    assert_eq!(first_found(&probes, &nothing, &fallback), "/downloads/Some Book");

    let (probes, fallback) = download_source_plan(Some("/data/incomplete/Book"), None, "");
    assert_eq!(probes[1], "/data/complete/Book");
    let mut found = vec![false; probes.len()];
    found[1] = true;
    assert_eq!(first_found(&probes, &found, &fallback), "/data/complete/Book");

    let tries = item_source_tries("/downloads/My Pack", Some("/downloads/My Pack"), "/downloads", "My Pack/Book One/ch1.m4b");
    assert_eq!(tries[0], "/downloads/My Pack/My Pack/Book One/ch1.m4b");
    let pos = tries.iter().position(|t| t == "/downloads/My Pack/Book One/ch1.m4b").unwrap();
    let mut found = vec![false; tries.len()];
    found[pos] = true;
    assert_eq!(first_found(&tries, &found, &tries[0]), "/downloads/My Pack/Book One/ch1.m4b");
    assert_eq!(first_found(&tries, &vec![false; tries.len()], &tries[0]), tries[0]);
}

#[test]
fn nothing_on_disk_joins_the_fallback() {
    let (_, fallback) = download_source_plan(Some("/mnt/none/My Pack"), Some("/mnt/none"), "/no-such-root-for-tests");
    assert_eq!(resolve_download_source(Some("/mnt/none/My Pack"), Some("/mnt/none"), "/no-such-root-for-tests"), fallback);
    let p = resolve_item_source(Some("/mnt/none/My Pack"), Some("/mnt/none"), "/no-such-root-for-tests", "/\\Book\\a.m4b");
    assert_eq!(p, join_source(&fallback, "/Book/a.m4b"));
    assert_eq!(p, "/no-such-root-for-tests/My Pack/Book/a.m4b");
}
