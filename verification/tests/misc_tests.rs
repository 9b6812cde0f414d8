use audiobooker::error::AppError;
use audiobooker::config::Config;
use audiobooker::content::{entries_from_qb_paths, file_pairs, QbTorrentFile};
use audiobooker::json::Json;
use audiobooker::magnet::{build_magnet, normalize_info_hash, parse_download_input, parse_magnet_hash, parse_magnet_name};
use audiobooker::metadata::{
    catalog_asins, clean_sequence, extract_names, extract_series, is_asin, lookup_asin,
    parse_book, search_region, search_title, tld_for_region,
};
use audiobooker::models::{NotificationPrefs, NotifyKind};
use audiobooker::push::{payload_for, should_send, subscription_expired, tag_for, vapid_subject_after_keys, Notice};

fn s(v: &str) -> Json {
    Json::Str(v.to_string())
}

fn obj(members: Vec<(&str, Json)>) -> Json {
    Json::Object(members.into_iter().map(|(k, v)| (k.to_string(), v)).collect())
}

#[test]
fn file_entries() {
    let files = vec![
        QbTorrentFile { name: "Pack/b/2.mp3".into(), size: 2 },
        QbTorrentFile { name: "/Pack/A/1.mp3".into(), size: 1 },
        QbTorrentFile { name: "Pack\\A\\1.mp3".into(), size: 5 },
        QbTorrentFile { name: "".into(), size: 9 },
    ];
    let entries = entries_from_qb_paths(&file_pairs(&files));
    let seen: Vec<(String, String, bool, i64)> =
        entries.into_iter().map(|e| (e.path, e.name, e.is_dir, e.size)).collect();
    assert_eq!(
        seen,
        vec![
            ("Pack".into(), "Pack".into(), true, 0),
            ("Pack/A".into(), "A".into(), true, 0),
            ("Pack/b".into(), "b".into(), true, 0),
            ("Pack/A/1.mp3".into(), "1.mp3".into(), false, 5),
            ("Pack/b/2.mp3".into(), "2.mp3".into(), false, 2),
        ]
    );
}

#[test]
fn magnets() {
    let h = "ABCDEF0123456789ABCDEF0123456789ABCDEF01";
    assert_eq!(normalize_info_hash(&format!(" {h} ")), Some(h.to_ascii_lowercase()));
    assert_eq!(normalize_info_hash("xyz"), None);
    let m = format!("magnet:?xt=urn:btih:{h}&dn=My+Book%21");
    assert_eq!(parse_magnet_hash(&m), Some(h.to_ascii_lowercase()));
    assert_eq!(parse_magnet_name(&m), Some("My Book!".to_string()));
    assert_eq!(build_magnet("abc", Some(" a b ")), "magnet:?xt=urn:btih:abc&dn=a%20b");
    assert_eq!(build_magnet("abc", Some("  ")), "magnet:?xt=urn:btih:abc");
    let p = parse_download_input(h, Some(" Title ")).unwrap();
    assert_eq!(p.info_hash, h.to_ascii_lowercase());
    assert_eq!(p.name.as_deref(), Some("Title"));
    assert_eq!(p.magnet_uri, format!("magnet:?xt=urn:btih:{}&dn=Title", h.to_ascii_lowercase()));
    assert!(parse_download_input("   ", None).is_none());
}

#[test]
fn normalized_hashes_are_stable() {
    for input in ["ABCDEFGHIJKLMNOPQRSTUVWXYZ234567", " 0123456789ABCDEF-0123456789abcdef01234567 "] {
        let h = normalize_info_hash(input).unwrap();
        assert_eq!(h.len(), 40);
        assert!(h.chars().all(|c| c.is_ascii_digit() || ('a'..='f').contains(&c)));
        assert_eq!(normalize_info_hash(&h), Some(h.clone()));
    }
}

#[test]
fn built_magnets_read_back() {
    let h = "0123456789abcdef0123456789abcdef01234567";
    for name in [None, Some("A Book: Part 1"), Some("  "), Some("xt=urn:btih:ffff")] {
        let m = build_magnet(h, name);
        assert_eq!(parse_magnet_hash(&m), Some(h.to_string()));
    }
}

#[test]
fn metadata_reading() {
    assert_eq!(tld_for_region("UK"), ".co.uk");
    assert_eq!(tld_for_region("zz"), ".com");
    assert!(is_asin(" B00ABCDEFG "));
    assert!(!is_asin("B00ABCDEF"));
    assert_eq!(lookup_asin(" b00abcdefg "), Ok("B00ABCDEFG".to_string()));
    assert!(lookup_asin("nope").is_err());
    assert_eq!(search_region("  "), "us");
    assert!(search_title("  ").is_err());
    assert_eq!(clean_sequence("Book 3"), "3");
    assert_eq!(clean_sequence("2.5"), "2.5");
    assert_eq!(clean_sequence("none"), "none");
    assert_eq!(clean_sequence("Part .5 of 7"), ".5");
    assert_eq!(clean_sequence("Vol 12.25b"), "12.25");
    let v = obj(vec![
        ("ASIN", s("B000000001")),
        ("title", s("Dune")),
        ("authors", Json::Array(vec![obj(vec![("name", s("Frank Herbert"))]), s("Other")])),
        ("narrator", s(" Scott Brick ,, Simon Vance ")),
        ("seriesPrimary", obj(vec![("name", s("Dune")), ("position", Json::Number("1".into()))])),
        ("cover", s("https://c/x.jpg")),
        ("summary", s("Spice")),
    ]);
    let b = parse_book(&v, "us").unwrap();
    assert_eq!(b.asin, "B000000001");
    assert_eq!(b.authors, vec!["Frank Herbert".to_string(), "Other".to_string()]);
    assert_eq!(b.narrators, vec!["Scott Brick".to_string(), "Simon Vance".to_string()]);
    assert_eq!(b.series.as_deref(), Some("Dune"));
    assert_eq!(b.series_index.as_deref(), Some("1"));
    assert_eq!(b.cover_url.as_deref(), Some("https://c/x.jpg"));
    assert_eq!(b.description.as_deref(), Some("Spice"));
    assert!(parse_book(&obj(vec![("title", s("x"))]), "us").is_none());
    let series = obj(vec![("series", Json::Array(vec![obj(vec![("series", s("Saga")), ("sequence", s("Book 2"))])]))]);
    assert_eq!(extract_series(&series), (Some("Saga".into()), Some("2".into())));
    assert_eq!(extract_names(&obj(vec![("author", Json::Bool(true))]), &["authors", "author"]), Vec::<String>::new());
    let cat = obj(vec![("products", Json::Array(vec![obj(vec![("asin", s("A1"))]), obj(vec![])]))]);
    assert_eq!(catalog_asins(&cat), Ok(vec!["A1".to_string()]));
    assert!(catalog_asins(&obj(vec![])).is_err());
}

#[test]
fn push_notices() {
    let n = Notice::imported("Dune");
    assert_eq!(n.body, "Dune is ready in your library");
    let p = payload_for(&n);
    assert_eq!((p.title.as_str(), p.url.as_str(), p.tag.as_deref()), ("Audiobook imported", "/#/", Some("audiobooker-imported")));
    assert_eq!(tag_for(NotifyKind::Failure), "audiobooker-failure");
    let prefs = NotificationPrefs { notify_imported: false, notify_download_finished: true, notify_pack_ready: true, notify_failures: true };
    assert!(!should_send(&prefs, &n));
    assert!(should_send(&prefs, &Notice::copy_failed("Dune")));
    assert_eq!(Notice::no_match("X").body, "X finished downloading but has no Audible match");
    assert_eq!(Notice::torrent_missing("X").body, "X is no longer in qBittorrent");
    assert_eq!(vapid_subject_after_keys(""), "mailto:audiobooker@localhost");
    assert_eq!(vapid_subject_after_keys("mailto:admin@localhost"), "mailto:audiobooker@localhost");
    assert_eq!(vapid_subject_after_keys("mailto:me@x"), "mailto:me@x");
    assert!(subscription_expired("server said 410 Gone"));
    assert!(!subscription_expired("timeout"));
}

#[test]
fn configuration_defaults() {
    let c = Config::from_vars(None, Some("80x".into()), None, None, Some("1".into()), Some("-2".into()));
    assert_eq!((c.host.as_str(), c.port, c.database_path.as_str(), c.static_dir.as_str(), c.cookie_secure, c.session_ttl_hours),
        ("0.0.0.0", 3000, "data/audiobooker.db", "static", true, -2));
    let c = Config::from_vars(Some("127.0.0.1".into()), Some("8080".into()), None, None, Some("yes".into()), None);
    assert_eq!((c.port, c.cookie_secure, c.session_ttl_hours), (8080, false, 168));
    let c = Config::from_vars(None, Some("70000".into()), None, None, None, None);
    assert_eq!(c.port, 3000);
}

#[test]
fn session_lifetime_reads_like_i64() {
    let ttl = |v: &str| Config::from_vars(None, None, None, None, None, Some(v.to_string())).session_ttl_hours;
    assert_eq!(ttl("+24"), 24);
    assert_eq!(ttl("-9223372036854775808"), i64::MIN);
    assert_eq!(ttl("9223372036854775807"), i64::MAX);
    assert_eq!(ttl("9223372036854775808"), 168);
    assert_eq!(ttl("-"), 168);
    assert_eq!(ttl(" 5"), 168);
    assert_eq!(ttl("007"), 7);
}

#[test]
fn vapid_keys_have_their_form() {
    let (public, pem) = audiobooker::push::generate_vapid_keypair().unwrap();
    assert_eq!(public.len(), 87);
    assert!(public.starts_with('B'));
    assert!(public.chars().all(|c| c.is_ascii_alphanumeric() || c == '-' || c == '_'));
    assert!(pem.contains("BEGIN PRIVATE KEY"));
    let (public, pem) = audiobooker::push::vapid_keys_from(Ok((vec![4, 0, 0, 0xfb, 0xff], "PEM".to_string()))).unwrap();
    assert_eq!((public.as_str(), pem.as_str()), ("BAAA-_8", "PEM"));
    let failed = audiobooker::push::vapid_keys_from(Err(AppError::Internal("no key".into())));
    assert!(matches!(failed, Err(AppError::Internal(m)) if m == "no key"));
}

#[test]
fn error_texts_and_statuses() {
    let cases = [
        (AppError::BadRequest("bad".into()), "bad", 400),
        (AppError::Unauthorized, "Unauthorized", 401),
        (AppError::Forbidden, "Forbidden", 403),
        (AppError::NotFound, "Not found", 404),
        (AppError::Conflict("taken".into()), "taken", 409),
        (AppError::TooManyRequests("slow down".into()), "slow down", 429),
        (AppError::Internal("boom".into()), "boom", 500),
    ];
    for (e, text, status) in cases {
        assert_eq!(e.message(), text);
        assert_eq!(e.status_code(), status);
    }
}

#[test]
fn entered_hashes_read_back_with_their_names() {
    let hash = "ABCDEF0123456789ABCDEF0123456789ABCDEF01";
    for name in [Some("  My Book & Co+ 100% "), Some("Ünïcödé 本"), Some("   "), None] {
        let first = parse_download_input(hash, name).unwrap();
        let again = parse_download_input(&first.magnet_uri, None).unwrap();
        assert_eq!(again.magnet_uri, first.magnet_uri);
        assert_eq!(again.info_hash, first.info_hash);
        assert_eq!(again.name, first.name);
    }
    let p = parse_download_input(hash, Some("  My Book & Co+ 100% ")).unwrap();
    assert_eq!(p.name.as_deref(), Some("My Book & Co+ 100%"));
    assert_eq!(
        p.magnet_uri,
        "magnet:?xt=urn:btih:abcdef0123456789abcdef0123456789abcdef01&dn=My%20Book%20%26%20Co%2B%20100%25"
    );
}
