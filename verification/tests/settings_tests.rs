use audiobooker::error::AppError;
use audiobooker::limits::{
    active_torrent_limit, check_active_torrents, check_global_requests, check_user_requests,
    effective, global_window, request_limit, since_modifier, RequestLimit,
};
use audiobooker::models::{Settings, User};
use audiobooker::settings::{apply_settings_update, qb_test_credentials, TestQbittorrentRequest, UpdateSettingsRequest};

fn settings() -> Settings {
    Settings {
        id: 1,
        qbittorrent_url: "http://qb".into(),
        qbittorrent_username: "admin".into(),
        qbittorrent_password: "secret".into(),
        download_path: "/downloads".into(),
        library_path: "/audiobooks".into(),
        path_template: "{author}/{title}".into(),
        audible_region: "us".into(),
        metadata_provider_url: "https://api.audnex.us".into(),
        sync_interval_ms: 10000,
        vapid_public_key: String::new(),
        vapid_private_key: String::new(),
        vapid_subject: "mailto:admin@localhost".into(),
        audiobookshelf_url: String::new(),
        audiobookshelf_token: String::new(),
        abs_user_sync_enabled: false,
        abs_user_sync_interval_ms: 3600000,
        abs_user_default_password: String::new(),
        abs_user_sync_libraries: true,
        abs_user_last_sync_at: None,
        rate_limit_requests: 0,
        rate_limit_window_secs: 3600,
        rate_limit_active_torrents: 0,
        updated_at: String::new(),
    }
}

fn empty_update() -> UpdateSettingsRequest {
    UpdateSettingsRequest {
        qbittorrent_url: None,
        qbittorrent_username: None,
        qbittorrent_password: None,
        download_path: None,
        library_path: None,
        path_template: None,
        audible_region: None,
        metadata_provider_url: None,
        sync_interval_ms: None,
        vapid_subject: None,
        audiobookshelf_url: None,
        audiobookshelf_token: None,
        abs_user_sync_enabled: None,
        abs_user_sync_interval_ms: None,
        abs_user_default_password: None,
        abs_user_sync_libraries: None,
    }
}

#[test]
fn settings_updates() {
    let mut s = settings();
    let body = UpdateSettingsRequest {
        qbittorrent_url: Some("http://new/".into()),
        qbittorrent_password: Some(String::new()),
        sync_interval_ms: Some(5),
        abs_user_sync_interval_ms: Some(120000),
        abs_user_default_password: Some("  longenough ".into()),
        audiobookshelf_token: Some("tok".into()),
        ..empty_update()
    };
    assert_eq!(apply_settings_update(&mut s, body), Ok(()));
    assert_eq!(s.qbittorrent_url, "http://new");
    assert_eq!(s.qbittorrent_password, "secret");
    assert_eq!(s.sync_interval_ms, 3000);
    assert_eq!(s.abs_user_sync_interval_ms, 120000);
    assert_eq!(s.abs_user_default_password, "longenough");
    assert_eq!(s.audiobookshelf_token, "tok");
    assert_eq!(s.download_path, "/downloads");
    let mut s = settings();
    let body = UpdateSettingsRequest { abs_user_default_password: Some(" short ".into()), ..empty_update() };
    assert_eq!(
        apply_settings_update(&mut s, body),
        Err(AppError::BadRequest("ABS sync default password must be at least 8 characters".into()))
    );
}

#[test]
fn qbittorrent_test_credentials() {
    let s = settings();
    let p = TestQbittorrentRequest { qbittorrent_url: Some(" ".into()), qbittorrent_username: None, qbittorrent_password: Some(String::new()) };
    assert_eq!(
        qb_test_credentials(&p, &s),
        Ok(("http://qb".to_string(), "admin".to_string(), "secret".to_string()))
    );
    let p = TestQbittorrentRequest { qbittorrent_url: Some("http://other//".into()), qbittorrent_username: Some(" me ".into()), qbittorrent_password: Some("pw".into()) };
    assert_eq!(
        qb_test_credentials(&p, &s),
        Ok(("http://other".to_string(), "me".to_string(), "pw".to_string()))
    );
    let mut s2 = settings();
    s2.qbittorrent_url = String::new();
    let p = TestQbittorrentRequest::default();
    assert_eq!(
        qb_test_credentials(&p, &s2),
        Err(AppError::BadRequest("qBittorrent URL is not configured".into()))
    );
}

fn member() -> User {
    User {
        id: 2,
        username: "u".into(),
        password_hash: String::new(),
        role: "user".into(),
        must_change_password: false,
        notify_imported: true,
        notify_download_finished: true,
        notify_pack_ready: true,
        notify_failures: true,
        abs_user_id: None,
        rate_limit_requests: Some(5),
        rate_limit_window_secs: Some(0),
        rate_limit_active_torrents: None,
        created_at: String::new(),
        updated_at: String::new(),
    }
}

#[test]
fn rate_limits() {
    assert_eq!(effective(Some(2), 9), 2);
    assert_eq!(effective(None, 9), 9);
    let l = request_limit(&member(), &settings()).unwrap();
    assert_eq!(l, RequestLimit { limit: 5, window: 1 });
    assert_eq!(since_modifier(l.window), "-1 seconds");
    assert_eq!(check_user_requests(l, 4), Ok(()));
    assert_eq!(
        check_user_requests(l, 5),
        Err(AppError::TooManyRequests("Download request limit reached (5 per 1s). Try again later.".into()))
    );
    let mut s = settings();
    assert_eq!(global_window(&s), None);
    s.rate_limit_requests = 10;
    assert_eq!(global_window(&s), Some(3600));
    assert_eq!(
        check_global_requests(&s, 3600, 10),
        Err(AppError::TooManyRequests("Global download request limit reached (10 per 3600s). Try again later.".into()))
    );
    assert_eq!(active_torrent_limit(&member(), &settings()), None);
    assert_eq!(
        check_active_torrents(2, 2),
        Err(AppError::TooManyRequests("Active torrent limit reached (2). Wait for a download to finish.".into()))
    );
    assert_eq!(check_active_torrents(2, 1), Ok(()));
    let mut unlimited = member();
    unlimited.rate_limit_requests = Some(0);
    assert_eq!(request_limit(&unlimited, &s), None);
}

#[test]
fn saving_the_same_form_twice_changes_nothing_more() {
    let mut update = empty_update();
    update.qbittorrent_url = Some("http://qb:8080//".into());
    update.qbittorrent_password = Some(String::new());
    update.sync_interval_ms = Some(5);
    update.abs_user_default_password = Some("  longenough ".into());
    update.download_path = Some("/data".into());
    let mut once = settings();
    apply_settings_update(&mut once, update.clone()).unwrap();
    let mut twice = once.clone();
    apply_settings_update(&mut twice, update).unwrap();
    assert_eq!(format!("{once:?}"), format!("{twice:?}"));
    assert_eq!(once.qbittorrent_url, "http://qb:8080");
    assert_eq!(once.qbittorrent_password, "secret");
    assert_eq!(once.sync_interval_ms, 3000);
    assert_eq!(once.abs_user_default_password, "longenough");
}
