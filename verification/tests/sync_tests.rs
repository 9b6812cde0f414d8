use audiobooker::abs_sync::{
    abs_user_eligible, abs_user_fields, abs_user_libraries, check_libraries_exist, existing_user_outcome,
    matched_user_outcome, periodic_sync_due, resolve_library_ids, sync_config, AbsUserOutcome,
    AbsUserSyncResult,
};
use audiobooker::error::AppError;
use audiobooker::json::Json;
use audiobooker::libraries::{
    abs_credentials, abs_library_fields, check_library_delete, library_sync_write,
    saves_credentials, unset_path_for, validate_library, SyncAbsRequest, UpsertLibraryRequest,
};
use audiobooker::models::{Library, Settings, User};

fn s(v: &str) -> Json {
    Json::Str(v.to_string())
}

fn obj(members: Vec<(&str, Json)>) -> Json {
    Json::Object(members.into_iter().map(|(k, v)| (k.to_string(), v)).collect())
}

fn settings() -> Settings {
    Settings {
        id: 1,
        qbittorrent_url: String::new(),
        qbittorrent_username: String::new(),
        qbittorrent_password: String::new(),
        download_path: String::new(),
        library_path: String::new(),
        path_template: String::new(),
        audible_region: "us".into(),
        metadata_provider_url: String::new(),
        sync_interval_ms: 10000,
        vapid_public_key: String::new(),
        vapid_private_key: String::new(),
        vapid_subject: String::new(),
        audiobookshelf_url: " http://abs/ ".into(),
        audiobookshelf_token: "tok".into(),
        abs_user_sync_enabled: true,
        abs_user_sync_interval_ms: 1000,
        abs_user_default_password: String::new(),
        abs_user_sync_libraries: true,
        abs_user_last_sync_at: None,
        rate_limit_requests: 0,
        rate_limit_window_secs: 3600,
        rate_limit_active_torrents: 0,
        updated_at: String::new(),
    }
}

#[test]
fn sync_configuration() {
    let c = sync_config(&settings()).unwrap();
    assert_eq!((c.base.as_str(), c.token.as_str(), c.password.as_str()), ("http://abs", "tok", "changeme"));
    let mut bad_pw = settings();
    bad_pw.abs_user_default_password = "short".into();
    assert_eq!(
        sync_config(&bad_pw).err(),
        Some(AppError::BadRequest("ABS sync default password must be at least 8 characters".into()))
    );
    let mut none = settings();
    none.audiobookshelf_token = "  ".into();
    assert_eq!(
        sync_config(&none).err(),
        Some(AppError::BadRequest("Configure Audiobookshelf URL and API token first".into()))
    );
}

#[test]
fn periodic_sync() {
    let st = settings();
    assert!(periodic_sync_due(&st, None));
    assert!(!periodic_sync_due(&st, Some(59_999)));
    assert!(periodic_sync_due(&st, Some(60_000)));
    let mut off = settings();
    off.abs_user_sync_enabled = false;
    assert!(!periodic_sync_due(&off, None));
}

#[test]
fn abs_users() {
    let u = obj(vec![("id", s(" u1 ")), ("username", s(" amy ")), ("isActive", Json::Bool(true))]);
    let f = abs_user_fields(&u);
    assert_eq!((f.abs_id.as_str(), f.username.as_str(), f.user_type.as_str(), f.is_active), ("u1", "amy", "user", true));
    assert!(abs_user_eligible(&f));
    let admin = obj(vec![("id", s("u2")), ("username", s("boss")), ("type", s("admin"))]);
    assert!(!abs_user_eligible(&abs_user_fields(&admin)));
    let libs = vec![(5i64, "lA".to_string()), (3, "lB".to_string()), (9, "lB".to_string())];
    let all = vec![3i64, 5, 9];
    let picky = obj(vec![(
        "librariesAccessible",
        Json::Array(vec![s("lA"), s("lB"), s("lA"), s("zz"), Json::Null]),
    )]);
    assert_eq!(resolve_library_ids(&picky, &libs, &all), vec![3, 5]);
    let everything = obj(vec![
        ("permissions", obj(vec![("accessAllLibraries", Json::Bool(true))])),
        ("librariesAccessible", Json::Array(vec![s("lA")])),
    ]);
    assert_eq!(resolve_library_ids(&everything, &libs, &all), all);
    let unknown = obj(vec![("librariesAccessible", Json::Array(vec![s("zz")]))]);
    assert_eq!(resolve_library_ids(&unknown, &libs, &all), all);
}

#[test]
fn tally_of_outcomes() {
    let r = AbsUserSyncResult::tally(
        5,
        &[
            AbsUserOutcome::Skipped,
            AbsUserOutcome::Created,
            AbsUserOutcome::Existing { linked: true, libraries_set: true },
            AbsUserOutcome::Existing { linked: false, libraries_set: true },
            AbsUserOutcome::Skipped,
        ],
    );
    assert_eq!((r.created, r.linked, r.updated_libraries, r.skipped, r.total_abs_users), (1, 1, 2, 2, 5));
    let mut u = User {
        id: 1,
        username: "x".into(),
        password_hash: String::new(),
        role: "user".into(),
        must_change_password: false,
        notify_imported: true,
        notify_download_finished: true,
        notify_pack_ready: true,
        notify_failures: true,
        abs_user_id: Some("u1".into()),
        rate_limit_requests: None,
        rate_limit_window_secs: None,
        rate_limit_active_torrents: None,
        created_at: String::new(),
        updated_at: String::new(),
    };
    assert_eq!(existing_user_outcome(&u, "u1", false), AbsUserOutcome::Existing { linked: false, libraries_set: false });
    assert_eq!(existing_user_outcome(&u, "u2", true), AbsUserOutcome::Existing { linked: true, libraries_set: true });
    u.role = "root".into();
    assert_eq!(existing_user_outcome(&u, "u2", true), AbsUserOutcome::Skipped);
}

#[test]
fn libraries_from_audiobookshelf() {
    assert_eq!(unset_path_for("abc", "x"), "__unset__/abc");
    assert_eq!(unset_path_for("", "My Books!"), "__unset__/my-books-");
    let lib = obj(vec![
        ("id", s("L1")),
        ("folders", Json::Array(vec![obj(vec![("path", s(" /audiobooks/ "))])])),
    ]);
    let f = abs_library_fields(&lib);
    assert_eq!((f.abs_id.as_str(), f.name.as_str(), f.abs_folder.as_str()), ("L1", "Library", "/audiobooks"));
    let w = library_sync_write(None, &f);
    assert_eq!(w.path, "__unset__/L1");
    assert_eq!(w.abs_path.as_deref(), Some("/audiobooks"));
    assert!(w.needs_path);
    let row = Library {
        id: 4,
        name: "Old".into(),
        path: "/mnt/books".into(),
        abs_id: Some("OLD".into()),
        abs_path: Some("/old".into()),
        created_at: String::new(),
    };
    let g = abs_library_fields(&obj(vec![("name", s("New")), ("folderPath", Json::Null)]));
    let w = library_sync_write(Some(&row), &g);
    assert_eq!((w.name.as_str(), w.abs_id.as_deref(), w.abs_path.as_deref(), w.path.as_str(), w.needs_path),
        ("New", Some("OLD"), Some("/old"), "/mnt/books", false));
}

#[test]
fn library_requests() {
    let ok = UpsertLibraryRequest { name: " Books ".into(), path: " /mnt/books/ ".into(), abs_id: None };
    assert_eq!(validate_library(&ok), Ok(("Books".to_string(), "/mnt/books".to_string())));
    let placeholder = UpsertLibraryRequest { name: "B".into(), path: "__unset__/x".into(), abs_id: None };
    assert_eq!(
        validate_library(&placeholder),
        Err(AppError::BadRequest("Set a real container path (the mount point inside this container)".into()))
    );
    assert_eq!(check_library_delete(1), Err(AppError::BadRequest("At least one library must remain".into())));
    assert_eq!(check_library_delete(2), Ok(()));
    let body = SyncAbsRequest { audiobookshelf_url: Some(" http://abs2/ ".into()), audiobookshelf_token: None };
    assert_eq!(abs_credentials(&body, &settings()), Ok(("http://abs2".to_string(), "tok".to_string())));
    assert!(saves_credentials(&body));
    let none = SyncAbsRequest { audiobookshelf_url: Some("  ".into()), audiobookshelf_token: None };
    assert!(!saves_credentials(&none));
}

#[test]
fn each_user_sync_step() {
    match check_libraries_exist(&[]) {
        Err(AppError::BadRequest(m)) => assert_eq!(m, "Create or sync at least one library before syncing users"),
        other => panic!("unexpected {other:?}"),
    }
    assert!(check_libraries_exist(&[1]).is_ok());

    let ok = abs_user_fields(&obj(vec![("id", s("u1")), ("username", s("amy"))]));
    let inactive = abs_user_fields(&obj(vec![("id", s("u1")), ("username", s("amy")), ("isActive", Json::Bool(false))]));
    assert_eq!(abs_user_libraries(&ok, true, &[5], &[3, 5, 9]), Some(vec![5]));
    assert_eq!(abs_user_libraries(&ok, false, &[5], &[3, 5, 9]), Some(vec![3, 5, 9]));
    assert_eq!(abs_user_libraries(&ok, true, &[], &[3, 5, 9]), None);
    assert_eq!(abs_user_libraries(&ok, false, &[5], &[]), None);
    assert_eq!(abs_user_libraries(&inactive, false, &[5], &[3]), None);

    assert_eq!(matched_user_outcome(None, "u1", true), AbsUserOutcome::Created);
    let u = User {
        id: 2,
        username: "amy".into(),
        password_hash: String::new(),
        role: "user".into(),
        must_change_password: false,
        notify_imported: true,
        notify_download_finished: true,
        notify_pack_ready: true,
        notify_failures: true,
        abs_user_id: None,
        rate_limit_requests: None,
        rate_limit_window_secs: None,
        rate_limit_active_torrents: None,
        created_at: String::new(),
        updated_at: String::new(),
    };
    assert_eq!(
        matched_user_outcome(Some(&u), "u1", false),
        AbsUserOutcome::Existing { linked: true, libraries_set: false }
    );
}
