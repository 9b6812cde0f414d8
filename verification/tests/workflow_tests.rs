use audiobooker::error::AppError;
use audiobooker::workflow::{
    check_delete, check_map_target, check_match, check_pack_retried, check_pack_retry,
    check_reimport, check_retry_import, check_start_pack, check_unimport, check_unmap,
    choose_library, collect_map_paths, display_name, import_route, importable_items,
    item_status_for_map, library_root_for, map_state, normalize_source_path, pack_status,
    parse_request_kind, plan_missing_torrent, plan_poll, plan_refresh, poll_notices,
    reimport_cleanup_root, requeue_failed_item, status_after_map, status_after_requeue,
    status_after_unimport, status_after_unmap, DownloadKind, DownloadStatus, ImportRoute,
    ItemStatus, MapItemRequest, TorrentState,
};
use audiobooker::metadata::MetadataMatch;
use audiobooker::models::NotifyKind;

fn bad(msg: &str) -> AppError {
    AppError::BadRequest(msg.to_string())
}

fn a_match() -> MetadataMatch {
    MetadataMatch {
        asin: "B000000001".into(),
        title: "T".into(),
        subtitle: None,
        authors: vec![],
        narrators: vec![],
        series: None,
        series_index: None,
        cover_url: None,
        description: None,
        region: "us".into(),
    }
}

#[test]
fn statuses_round_trip() {
    for s in [
        DownloadStatus::AwaitingMatch,
        DownloadStatus::Queued,
        DownloadStatus::Downloading,
        DownloadStatus::Completed,
        DownloadStatus::Copying,
        DownloadStatus::AwaitingMap,
        DownloadStatus::Partial,
        DownloadStatus::Imported,
        DownloadStatus::Error,
    ] {
        assert_eq!(DownloadStatus::parse(s.as_str()), Some(s));
    }
    for s in [ItemStatus::Pending, ItemStatus::Ready, ItemStatus::Copying, ItemStatus::Imported, ItemStatus::Error] {
        assert_eq!(ItemStatus::parse(s.as_str()), Some(s));
    }
    assert_eq!(DownloadStatus::parse("Queued"), None);
    assert_eq!(DownloadStatus::AwaitingMap.as_str(), "awaiting_map");
    assert_eq!(DownloadKind::from_stored("pack"), DownloadKind::Pack);
    assert_eq!(DownloadKind::from_stored("anything"), DownloadKind::Single);
}

#[test]
fn torrent_states() {
    assert_eq!(map_state("stalledUP", true), TorrentState::Completed);
    assert_eq!(map_state("missingFiles", false), TorrentState::Error);
    assert_eq!(map_state("metaDL", false), TorrentState::Downloading);
    assert_eq!(map_state("pausedDL", false), TorrentState::Queued);
}

#[test]
fn poll_of_a_finishing_single() {
    let p = plan_poll(DownloadStatus::Downloading, TorrentState::Completed, false).unwrap();
    assert_eq!(p.status, DownloadStatus::Completed);
    assert!(p.newly_completed && !p.newly_failed && p.stamp_completed && p.import);
    let notes = poll_notices(&p, DownloadKind::Single, "Dune", "uploading");
    assert_eq!(notes.len(), 1);
    assert_eq!(notes[0].kind, NotifyKind::DownloadFinished);
    assert_eq!(notes[0].title, "Download finished");
    assert_eq!(notes[0].body, "Dune finished downloading \u{2014} importing\u{2026}");
}

#[test]
fn poll_keeps_mapping_status_and_settled_downloads() {
    let p = plan_poll(DownloadStatus::Partial, TorrentState::Completed, true).unwrap();
    assert_eq!(p.status, DownloadStatus::Partial);
    assert!(!p.stamp_completed && p.import && p.promote_pending_items);
    assert!(plan_poll(DownloadStatus::Imported, TorrentState::Error, true).is_none());
    assert!(plan_poll(DownloadStatus::Copying, TorrentState::Completed, true).is_none());
    let p = plan_poll(DownloadStatus::Queued, TorrentState::Error, false).unwrap();
    assert_eq!(p.status, DownloadStatus::Error);
    assert!(p.newly_failed && p.record_error && !p.import);
    let notes = poll_notices(&p, DownloadKind::Pack, "Pack", "error");
    assert_eq!(notes[0].body, "Pack failed in qBittorrent (error)");
    let p = plan_poll(DownloadStatus::Queued, TorrentState::Completed, false).unwrap();
    let notes = poll_notices(&p, DownloadKind::Pack, "Pack", "uploading");
    assert_eq!(notes[0].kind, NotifyKind::PackReady);
    assert_eq!(notes[0].body, "Pack finished downloading \u{2014} map books to import");
}

#[test]
fn torrent_gone_from_qbittorrent() {
    let p = plan_missing_torrent(DownloadStatus::Downloading, DownloadKind::Single);
    assert!(p.mark_error && !p.import);
    let p = plan_missing_torrent(DownloadStatus::AwaitingMap, DownloadKind::Pack);
    assert!(!p.mark_error && p.import);
    let p = plan_missing_torrent(DownloadStatus::Completed, DownloadKind::Pack);
    assert!(p.mark_error && p.import);
}

#[test]
fn refresh_rules() {
    let p = plan_refresh(
        DownloadStatus::Error,
        DownloadKind::Pack,
        TorrentState::Completed,
        true,
        Some("/incomplete"),
        Some("/incomplete/x"),
        "/complete",
        "/complete/x",
    );
    assert_eq!(p.status, DownloadStatus::Completed);
    assert!(p.paths_changed && p.requeue_failed_items && p.requeue_all_failed);
    let p = plan_refresh(
        DownloadStatus::Downloading,
        DownloadKind::Single,
        TorrentState::Downloading,
        false,
        None,
        None,
        "",
        "",
    );
    assert_eq!(p.status, DownloadStatus::Downloading);
    assert!(!p.paths_changed && !p.requeue_failed_items && !p.requeue_all_failed);
    assert!(requeue_failed_item(Some("Source not FOUND here"), false));
    assert!(requeue_failed_item(Some("path /INCOMPLETE/x"), false));
    assert!(!requeue_failed_item(Some("disk full"), false));
    assert!(!requeue_failed_item(None, false));
    assert!(requeue_failed_item(None, true));
    assert_eq!(status_after_requeue(DownloadKind::Pack, DownloadStatus::Imported, 2), DownloadStatus::Completed);
    assert_eq!(status_after_requeue(DownloadKind::Pack, DownloadStatus::Imported, 0), DownloadStatus::Imported);
    assert_eq!(status_after_requeue(DownloadKind::Single, DownloadStatus::Error, 3), DownloadStatus::Error);
}

#[test]
fn import_rules() {
    assert_eq!(import_route(DownloadStatus::Imported, DownloadKind::Pack), ImportRoute::Skip);
    assert_eq!(import_route(DownloadStatus::Completed, DownloadKind::Pack), ImportRoute::Pack);
    assert_eq!(import_route(DownloadStatus::Completed, DownloadKind::Single), ImportRoute::Single);
    assert_eq!(
        importable_items(&[ItemStatus::Pending, ItemStatus::Ready, ItemStatus::Imported, ItemStatus::Error]),
        vec![1, 3]
    );
    assert_eq!(pack_status(0, 0, 0), DownloadStatus::AwaitingMap);
    assert_eq!(pack_status(3, 3, 0), DownloadStatus::Imported);
    assert_eq!(pack_status(3, 1, 2), DownloadStatus::Partial);
    assert_eq!(pack_status(3, 0, 3), DownloadStatus::AwaitingMap);
    assert_eq!(library_root_for(Some(1), Some("/books".into()), "/lib"), Some("/books".into()));
    assert_eq!(library_root_for(Some(1), Some("__unset__/x".into()), "/lib"), None);
    assert_eq!(library_root_for(Some(1), None, "/lib"), Some("/lib".into()));
    assert_eq!(library_root_for(None, None, "  "), None);
}

#[test]
fn unmapping_matches_import_tally() {
    // A law: once a book is imported, unmapping agrees with an import pass.
    for (i, r) in [(1i64, 0i64), (2, 3)] {
        assert_eq!(status_after_unmap(DownloadStatus::Queued, i, r), pack_status(i + r, i, r));
        assert_eq!(status_after_unimport(DownloadStatus::Queued, i, r), pack_status(i + r, i, r));
    }
    assert_eq!(status_after_unmap(DownloadStatus::Downloading, 0, 2), DownloadStatus::Downloading);
    assert_eq!(status_after_unmap(DownloadStatus::Partial, 0, 2), DownloadStatus::AwaitingMap);
    assert_eq!(status_after_unimport(DownloadStatus::Partial, 0, 2), DownloadStatus::Partial);
    assert_eq!(status_after_unimport(DownloadStatus::Imported, 0, 0), DownloadStatus::AwaitingMap);
}

#[test]
fn mapped_paths_are_clean() {
    let req = MapItemRequest {
        source_path: Some("\\Disc 1\\".into()),
        source_paths: Some(vec!["Disc 1/".into(), "/Disc 1/".into(), " Disc 2 ".into()]),
        match_data: a_match(),
        library_id: None,
    };
    let paths = collect_map_paths(&req).unwrap();
    assert_eq!(paths, vec!["Disc 1/".to_string(), "Disc 2".to_string(), "/Disc 1/".to_string()]);
    for (i, p) in paths.iter().enumerate() {
        assert!(!p.is_empty() && !p.contains(".."));
        assert!(paths[i + 1..].iter().all(|q| q != p));
    }
}

#[test]
fn mapping_rules() {
    assert_eq!(item_status_for_map(DownloadStatus::Downloading, false), ItemStatus::Pending);
    assert_eq!(item_status_for_map(DownloadStatus::Downloading, true), ItemStatus::Ready);
    assert_eq!(item_status_for_map(DownloadStatus::Imported, false), ItemStatus::Ready);
    // A law: a ready book reopens the pack so that the next poll imports it.
    let s = status_after_map(DownloadStatus::Imported, ItemStatus::Ready);
    assert_eq!(s, DownloadStatus::Completed);
    assert!(plan_poll(s, TorrentState::Queued, true).unwrap().import);
    assert_eq!(status_after_map(DownloadStatus::Queued, ItemStatus::Pending), DownloadStatus::Queued);
    assert_eq!(normalize_source_path(" /a\\b/c.m4b "), Ok("a/b/c.m4b".to_string()));
    assert_eq!(normalize_source_path("a/../b"), Err(bad("Invalid source path")));
    assert_eq!(normalize_source_path("  /  "), Err(bad("Invalid source path")));
    let req = MapItemRequest {
        source_path: Some("/x".into()),
        source_paths: Some(vec!["x".into(), "y".into(), "/y".into()]),
        match_data: a_match(),
        library_id: None,
    };
    assert_eq!(collect_map_paths(&req), Ok(vec!["x".to_string(), "y".to_string()]));
    let req = MapItemRequest { source_path: None, source_paths: Some(vec![]), match_data: a_match(), library_id: None };
    assert_eq!(collect_map_paths(&req), Err(bad("Select at least one file or folder to map")));
    let req = MapItemRequest { source_path: Some("..".into()), source_paths: None, match_data: a_match(), library_id: None };
    assert_eq!(collect_map_paths(&req), Err(bad("Invalid source path")));
}

#[test]
fn library_choice() {
    let libs = vec![(1, "/a".to_string()), (2, "__unset__/b".to_string())];
    assert_eq!(choose_library(&libs, Some(1)), Ok(1));
    assert_eq!(choose_library(&libs, Some(3)), Err(AppError::Forbidden));
    assert_eq!(
        choose_library(&libs, Some(2)),
        Err(bad("That library has no container path set. Ask an admin to set it under Settings \u{2192} Libraries."))
    );
    assert_eq!(
        choose_library(&libs, None),
        Err(bad("Select which Audiobookshelf library to import into"))
    );
    assert_eq!(choose_library(&libs[..1], None), Ok(1));
    assert_eq!(
        choose_library(&[], None),
        Err(bad("Your account has no libraries assigned. Ask an admin to grant library access."))
    );
}

#[test]
fn guards() {
    assert_eq!(parse_request_kind(None), Ok(DownloadKind::Single));
    assert_eq!(parse_request_kind(Some("")), Ok(DownloadKind::Single));
    assert_eq!(parse_request_kind(Some("pack")), Ok(DownloadKind::Pack));
    assert_eq!(
        parse_request_kind(Some("box")),
        Err(bad("Invalid kind 'box' (use single or pack)"))
    );
    assert_eq!(check_start_pack(DownloadStatus::Queued, true, 1), Err(bad("Pack download already started")));
    assert_eq!(check_start_pack(DownloadStatus::AwaitingMatch, true, 1), Ok(()));
    assert!(check_start_pack(DownloadStatus::AwaitingMatch, true, 0).is_err());
    assert!(check_match(DownloadKind::Pack, true).is_err());
    assert_eq!(check_match(DownloadKind::Single, true), Ok(()));
    assert_eq!(check_map_target(DownloadKind::Pack, DownloadStatus::AwaitingMatch), Err(bad("Start the pack download before mapping books")));
    assert_eq!(check_unmap(None), Err(AppError::NotFound));
    assert_eq!(check_unmap(Some(ItemStatus::Copying)), Err(bad("Imported pack items can't be unmapped")));
    assert_eq!(check_unmap(Some(ItemStatus::Error)), Ok(()));
    assert_eq!(check_unimport(DownloadKind::Pack, Some(ItemStatus::Imported)), Ok(()));
    assert_eq!(check_unimport(DownloadKind::Pack, Some(ItemStatus::Ready)), Err(bad("Only imported pack items can be un-imported")));
    assert!(check_delete(DownloadStatus::Partial, 0).is_err());
    assert!(check_delete(DownloadStatus::Error, 1).is_err());
    assert_eq!(check_delete(DownloadStatus::Queued, 0), Ok(()));
    assert_eq!(check_pack_retry(DownloadKind::Single), Err(bad("Only pack downloads support retry")));
    assert_eq!(check_pack_retried(0), Err(bad("No failed or stuck imports to retry")));
    assert_eq!(check_retry_import(DownloadKind::Single, DownloadStatus::Error, true), Ok(()));
    assert_eq!(check_retry_import(DownloadKind::Single, DownloadStatus::Error, false), Err(bad("Cannot retry import without Audible metadata")));
    assert_eq!(check_reimport(DownloadKind::Single, DownloadStatus::Completed, true), Err(bad("Only imported singles can be re-imported")));
    assert_eq!(reimport_cleanup_root(Some(1), None, "/lib"), None);
    assert_eq!(reimport_cleanup_root(None, None, "/lib"), Some("/lib".to_string()));
}

#[test]
fn display_names() {
    assert_eq!(display_name(Some("Dune")), "Dune");
    assert_eq!(display_name(Some("  ")), "Your audiobook");
    assert_eq!(display_name(None), "Your audiobook");
}
