//! Server settings read from the environment at start.
use vstd::prelude::*;

use crate::text::{opt_string_view, spec_parse_i64, spec_parse_u32, str_chars};

verus! {

/// Where and how the server runs.
#[derive(Debug, Clone)]
pub struct Config {
    pub host: String,
    pub port: u16,
    pub database_path: String,
    pub static_dir: String,
    pub cookie_secure: bool,
    pub session_ttl_hours: i64,
}

pub open spec fn spec_port(v: Option<Seq<char>>) -> u16 {
    match v {
        Some(p) => match spec_parse_u32(p) {
            Some(n) => if n <= 65535 {
                n as u16
            } else {
                3000
            },
            None => 3000,
        },
        None => 3000,
    }
}

impl Config {
    /// The configuration from the values of `HOST`, `PORT`,
    /// `DATABASE_PATH`, `STATIC_DIR`, `COOKIE_SECURE` and
    /// `SESSION_TTL_HOURS` (`None` when unset): defaults `0.0.0.0`, 3000,
    /// `data/audiobooker.db`, `static`, not secure, 168 hours; a port or
    /// lifetime that does not read as a number takes the default; cookies
    /// are secure for `true` or `1`.
    pub fn from_vars(
        host: Option<String>,
        port: Option<String>,
        database_path: Option<String>,
        static_dir: Option<String>,
        cookie_secure: Option<String>,
        session_ttl_hours: Option<String>,
    ) -> (r: Config)
        ensures
            r.host@ == crate::abs_sync::str_or(opt_string_view(host), "0.0.0.0"@),
            r.port == spec_port(opt_string_view(port)),
            r.database_path@ == crate::abs_sync::str_or(
                opt_string_view(database_path),
                "data/audiobooker.db"@,
            ),
            r.static_dir@ == crate::abs_sync::str_or(opt_string_view(static_dir), "static"@),
            r.cookie_secure == match opt_string_view(cookie_secure) {
                Some(v) => v == "true"@ || v == "1"@,
                None => false,
            },
            r.session_ttl_hours == match opt_string_view(session_ttl_hours) {
                Some(v) => match spec_parse_i64(v) {
                    Some(n) => n,
                    None => 168,
                },
                None => 168,
            },
    {
        let host = match host {
            Some(h) => h,
            None => "0.0.0.0".to_owned(),
        };
        let port: u16 = match &port {
            Some(p) => match crate::text::parse_u32(str_chars(p.as_str()).as_slice()) {
                Some(n) => if n <= 65535 {
                    n as u16
                } else {
                    3000
                },
                None => 3000,
            },
            None => 3000,
        };
        let database_path = match database_path {
            Some(d) => d,
            None => "data/audiobooker.db".to_owned(),
        };
        let static_dir = match static_dir {
            Some(d) => d,
            None => "static".to_owned(),
        };
        let cookie_secure = match &cookie_secure {
            Some(v) => crate::models::str_eq(v.as_str(), "true") || crate::models::str_eq(v.as_str(), "1"),
            None => false,
        };
        let session_ttl_hours = match &session_ttl_hours {
            Some(v) => match crate::text::parse_i64(str_chars(v.as_str()).as_slice()) {
                Some(n) => n,
                None => 168,
            },
            None => 168,
        };
        Config { host, port, database_path, static_dir, cookie_secure, session_ttl_hours }
    }
}

} // verus!
