use audiobooker::accounts::{
    api_key_accepted, api_key_prefix, check_editable_user, check_new_account,
    check_password_change, check_setup_open, check_user_libraries, generate_api_key,
    hash_api_key, hash_password, new_user_libraries, password_update, setup_qbittorrent,
    setup_test_credentials, verify_password, AuthSession, OptionalAuth, SetupRequest,
    TestQbittorrentRequest,
};
use audiobooker::error::AppError;
use audiobooker::models::User;

fn bad(msg: &str) -> AppError {
    AppError::BadRequest(msg.to_string())
}

fn user(role: &str) -> User {
    User {
        id: 7,
        username: "ann".into(),
        password_hash: String::new(),
        role: role.into(),
        must_change_password: false,
        notify_imported: true,
        notify_download_finished: true,
        notify_pack_ready: true,
        notify_failures: false,
        abs_user_id: None,
        rate_limit_requests: None,
        rate_limit_window_secs: None,
        rate_limit_active_torrents: None,
        created_at: String::new(),
        updated_at: String::new(),
    }
}

#[test]
fn roles_decide_access() {
    let root = AuthSession { user: user("root"), session_id: None, via_api_key: true };
    let member = AuthSession { user: user("user"), session_id: Some("s".into()), via_api_key: false };
    assert_eq!(root.require_root(), Ok(()));
    assert_eq!(member.require_root(), Err(AppError::Forbidden));
    assert_eq!(member.require_user_role(), Ok(()));
    assert_eq!(root.require_user_role(), Err(AppError::Forbidden));
    assert_eq!(root.forbid_root(), Err(AppError::Forbidden));
    assert_eq!(member.forbid_root(), Ok(()));
    let shown = member.auth_user();
    assert_eq!((shown.id, shown.username.as_str(), shown.role.as_str()), (7, "ann", "user"));
}

#[test]
fn optional_auth_outcomes() {
    let s = AuthSession { user: user("user"), session_id: None, via_api_key: false };
    assert!(OptionalAuth::from_outcome(Ok(s)).unwrap().0.is_some());
    assert!(OptionalAuth::from_outcome(Err(AppError::Unauthorized)).unwrap().0.is_none());
    assert_eq!(OptionalAuth::from_outcome(Err(AppError::NotFound)).err(), Some(AppError::NotFound));
}

#[test]
fn account_rules() {
    assert_eq!(check_new_account("  bob  ", "password1"), Ok("bob".to_string()));
    assert_eq!(check_new_account(" bo ", "password1"), Err(bad("Username must be at least 3 characters")));
    assert_eq!(check_new_account("bob", "short"), Err(bad("Password must be at least 8 characters")));
    assert_eq!(check_setup_open(1), Err(AppError::Conflict("Setup already completed".into())));
    assert_eq!(check_setup_open(0), Ok(()));
    assert_eq!(check_password_change(false, "whatever1"), Err(bad("Current password is incorrect")));
    assert_eq!(check_password_change(true, "short"), Err(bad("New password must be at least 8 characters")));
    assert_eq!(check_password_change(true, "longenough"), Ok(()));
    assert_eq!(check_editable_user(&user("root"), true), Err(bad("Cannot delete root user")));
    assert_eq!(check_editable_user(&user("root"), false), Err(bad("Cannot edit root user here")));
    assert_eq!(password_update(&Some(String::new())), Ok(None));
    assert_eq!(password_update(&Some("tiny".into())), Err(bad("Password must be at least 8 characters")));
    assert_eq!(password_update(&Some("longenough".into())), Ok(Some("longenough".into())));
    assert_eq!(new_user_libraries(Some(vec![]), vec![1, 2]), Ok(vec![1, 2]));
    assert_eq!(new_user_libraries(Some(vec![3]), vec![1, 2]), Ok(vec![3]));
    assert_eq!(
        new_user_libraries(None, vec![]),
        Err(bad("Create at least one library in Settings before adding users"))
    );
    assert_eq!(check_user_libraries(&[], &[]), Err(bad("Assign at least one library to the user")));
    assert_eq!(check_user_libraries(&[4, -9], &[true, false]), Err(bad("Unknown library id -9")));
    assert_eq!(check_user_libraries(&[4], &[true]), Ok(()));
}

#[test]
fn setup_qbittorrent_settings() {
    let body = SetupRequest {
        username: "admin".into(),
        password: "password1".into(),
        qbittorrent_url: Some(" http://qb:8080/ ".into()),
        qbittorrent_username: None,
        qbittorrent_password: None,
    };
    assert_eq!(
        setup_qbittorrent(&body),
        Some(("http://qb:8080".to_string(), "admin".to_string(), String::new()))
    );
    let body = SetupRequest { qbittorrent_url: Some("  ".into()), ..body };
    assert_eq!(setup_qbittorrent(&body), None);
    let t = TestQbittorrentRequest {
        qbittorrent_url: Some("http://qb/".into()),
        qbittorrent_username: Some("  ".into()),
        qbittorrent_password: None,
    };
    assert_eq!(setup_test_credentials(1, &t), Err(AppError::Forbidden));
    assert_eq!(setup_test_credentials(0, &t), Err(bad("qBittorrent username is required for WebUI auth")));
    let t = TestQbittorrentRequest { qbittorrent_url: None, ..t };
    assert_eq!(setup_test_credentials(0, &t), Err(bad("qBittorrent URL is required")));
}

#[test]
fn api_keys() {
    let k = generate_api_key();
    assert_eq!(k.len(), 36);
    assert!(k.starts_with("abk_"));
    assert!(k[4..].chars().all(|c| c.is_ascii_hexdigit() && !c.is_ascii_uppercase()));
    assert_eq!(&k[16..17], "4");
    assert!(["8", "9", "a", "b"].contains(&&k[20..21]));
    assert_eq!(api_key_prefix(&k), k[..12].to_string());
    assert_eq!(api_key_prefix("abc"), "abc");
    assert_eq!(
        hash_api_key("abc"),
        "ba7816bf8f01cfea414140de5dae2223b00361a396177a9cb410ff61f20015ad"
    );
    assert!(api_key_accepted(&hash_api_key("abc"), &hash_api_key("abc")));
    assert!(!api_key_accepted("", ""));
}

#[test]
fn passwords_verify() {
    let h = hash_password("correct horse").unwrap();
    assert_eq!(verify_password("correct horse", &h), Ok(true));
    assert_eq!(verify_password("wrong", &h), Ok(false));
    assert!(verify_password("x", "not a hash").is_err());
}

#[test]
fn session_ids_are_hyphenated_uuids() {
    let a = audiobooker::accounts::new_session_id();
    let b = audiobooker::accounts::new_session_id();
    assert_ne!(a, b);
    assert_eq!(a.len(), 36);
    assert_eq!(&a[14..15], "4");
    assert!(["8", "9", "a", "b"].contains(&&a[19..20]));
    for (i, c) in a.chars().enumerate() {
        if [8, 13, 18, 23].contains(&i) {
            assert_eq!(c, '-');
        } else {
            assert!(c.is_ascii_digit() || ('a'..='f').contains(&c));
        }
    }
}
