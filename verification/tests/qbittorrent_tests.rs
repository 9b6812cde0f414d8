use audiobooker::error::AppError;
use audiobooker::metadata::catalog_search_url;
use audiobooker::qbittorrent::{add_form, api_url, files_url, login_session};

fn cookies(values: &[&str]) -> Vec<String> {
    values.iter().map(|v| v.to_string()).collect()
}

#[test]
fn sign_in_answers() {
    let set = cookies(&["lang=en; Path=/", "SID=abc123; HttpOnly; path=/"]);
    assert_eq!(login_session(true, "200 OK", &set, "Ok."), Ok("SID=abc123".to_string()));
    assert_eq!(login_session(true, "200 OK", &cookies(&["SID=x"]), ""), Ok("SID=x".to_string()));
    assert_eq!(
        login_session(true, "200 OK", &set, " Fails. "),
        Err(AppError::BadRequest("qBittorrent login failed: invalid credentials".into()))
    );
    assert_eq!(
        login_session(true, "200 OK", &cookies(&["lang=en", "XSID=1"]), "Ok."),
        Err(AppError::Internal("qBittorrent login failed: missing session cookie. Is the Web UI enabled?".into()))
    );
    assert_eq!(
        login_session(false, "403 Forbidden", &set, "Ok."),
        Err(AppError::Internal("qBittorrent login failed (403 Forbidden)".into()))
    );
}

#[test]
fn api_addresses_and_forms() {
    assert_eq!(api_url("http://qb:8080//", "/api/v2/torrents/info"), "http://qb:8080/api/v2/torrents/info");
    assert_eq!(files_url("http://qb:8080", "ab cd"), "http://qb:8080/api/v2/torrents/files?hash=ab%20cd");
    let pairs = |v: Vec<(String, String)>| v.into_iter().map(|(a, b)| format!("{a}={b}")).collect::<Vec<_>>();
    assert_eq!(pairs(add_form("magnet:?x", Some("audiobooks"), None)), vec!["urls=magnet:?x", "category=audiobooks"]);
    assert_eq!(pairs(add_form("m", None, Some("  a,b "))), vec!["urls=m", "tags=a,b"]);
    assert_eq!(pairs(add_form("m", None, Some("   "))), vec!["urls=m"]);
}

#[test]
fn catalog_search_addresses() {
    assert_eq!(
        catalog_search_url("UK", "Dune: Part 1", Some("  Frank Herbert ")),
        "https://api.audible.co.uk/1.0/catalog/products?num_results=10&products_sort_by=Relevance&title=Dune%3A+Part+1&author=Frank+Herbert"
    );
    assert_eq!(
        catalog_search_url("zz", "Café*", Some(" ")),
        "https://api.audible.com/1.0/catalog/products?num_results=10&products_sort_by=Relevance&title=Caf%C3%A9*"
    );
}
