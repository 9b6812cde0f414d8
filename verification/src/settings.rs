//! Changes the administrator makes to the global settings.
use vstd::prelude::*;

use crate::error::{bad_request, fails_bad, AppError};
use crate::libraries::given;
use crate::models::Settings;
use crate::text::{
    chars_to_string, opt_string_view, str_chars, trim, trim_end_char, trim_end_char_exec,
    trim_str,
};

verus! {

/// Settings to change; a field left out is kept.
#[derive(Debug, Clone)]
pub struct UpdateSettingsRequest {
    pub qbittorrent_url: Option<String>,
    pub qbittorrent_username: Option<String>,
    pub qbittorrent_password: Option<String>,
    pub download_path: Option<String>,
    pub library_path: Option<String>,
    pub path_template: Option<String>,
    pub audible_region: Option<String>,
    pub metadata_provider_url: Option<String>,
    pub sync_interval_ms: Option<i64>,
    pub vapid_subject: Option<String>,
    pub audiobookshelf_url: Option<String>,
    pub audiobookshelf_token: Option<String>,
    pub abs_user_sync_enabled: Option<bool>,
    pub abs_user_sync_interval_ms: Option<i64>,
    pub abs_user_default_password: Option<String>,
    pub abs_user_sync_libraries: Option<bool>,
}

/// qBittorrent credentials to try; the stored ones are used for those left
/// out.
#[derive(Debug, Clone, Default)]
pub struct TestQbittorrentRequest {
    pub qbittorrent_url: Option<String>,
    pub qbittorrent_username: Option<String>,
    pub qbittorrent_password: Option<String>,
}

/// A text field: replaced when given.
pub open spec fn set_text(given: Option<Seq<char>>, old: Seq<char>) -> Seq<char> {
    match given {
        Some(v) => v,
        None => old,
    }
}

/// A URL field: replaced when given, without trailing `/`.
pub open spec fn set_url(given: Option<Seq<char>>, old: Seq<char>) -> Seq<char> {
    match given {
        Some(v) => trim_end_char(v, '/'),
        None => old,
    }
}

/// A secret: replaced only by a non-empty value.
pub open spec fn set_secret(given: Option<Seq<char>>, old: Seq<char>) -> Seq<char> {
    match given {
        Some(v) => if v.len() > 0 {
            v
        } else {
            old
        },
        None => old,
    }
}

/// A number with a floor: replaced when given, raised to the floor.
pub open spec fn set_at_least(given: Option<i64>, old: i64, floor: i64) -> i64 {
    match given {
        Some(v) => if v > floor {
            v
        } else {
            floor
        },
        None => old,
    }
}

/// The default password given: refused when, trimmed, it is non-empty but
/// under 8 bytes.
pub open spec fn bad_default_password(given: Option<Seq<char>>) -> bool {
    match given {
        Some(v) => trim(v).len() > 0 && vstd::utf8::encode_utf8(trim(v)).len() < 8,
        None => false,
    }
}

pub open spec fn set_default_password(given: Option<Seq<char>>, old: Seq<char>) -> Seq<char> {
    match given {
        Some(v) => if trim(v).len() > 0 {
            trim(v)
        } else {
            old
        },
        None => old,
    }
}

fn url_without_slash(v: String) -> (r: String)
    ensures
        r@ == trim_end_char(v@, '/'),
{
    let c = str_chars(v.as_str());
    chars_to_string(trim_end_char_exec(c.as_slice(), '/').as_slice())
}

fn pick_text(given: Option<String>, old: &str) -> (r: String)
    ensures
        r@ == set_text(opt_string_view(given), old@),
{
    match given {
        Some(v) => v,
        None => old.to_owned(),
    }
}

fn pick_url(given: Option<String>, old: &str) -> (r: String)
    ensures
        r@ == set_url(opt_string_view(given), old@),
{
    match given {
        Some(v) => url_without_slash(v),
        None => old.to_owned(),
    }
}

fn pick_secret(given: Option<String>, old: &str) -> (r: String)
    ensures
        r@ == set_secret(opt_string_view(given), old@),
{
    match given {
        Some(v) => if v.as_str().is_empty() {
            old.to_owned()
        } else {
            v
        },
        None => old.to_owned(),
    }
}

fn pick_at_least(given: Option<i64>, old: i64, floor: i64) -> (r: i64)
    ensures
        r == set_at_least(given, old, floor),
{
    match given {
        Some(v) => if v > floor {
            v
        } else {
            floor
        },
        None => old,
    }
}

fn pick_flag(given: Option<bool>, old: bool) -> (r: bool)
    ensures
        r == match given {
            Some(b) => b,
            None => old,
        },
{
    match given {
        Some(b) => b,
        None => old,
    }
}

/// Saving the same settings form twice changes nothing the second time:
/// each kind of field, updated twice with the same value, ends as after one
/// update.
pub proof fn law_settings_update_is_idempotent(
    given_text: Option<Seq<char>>,
    old_text: Seq<char>,
    given_number: Option<i64>,
    old_number: i64,
    floor: i64,
)
    ensures
        set_text(given_text, set_text(given_text, old_text)) == set_text(given_text, old_text),
        set_url(given_text, set_url(given_text, old_text)) == set_url(given_text, old_text),
        set_secret(given_text, set_secret(given_text, old_text)) == set_secret(given_text, old_text),
        set_default_password(given_text, set_default_password(given_text, old_text))
            == set_default_password(given_text, old_text),
        set_at_least(given_number, set_at_least(given_number, old_number, floor), floor)
            == set_at_least(given_number, old_number, floor),
{
}

/// Applies a settings change. A default password for synced users that is
/// too short refuses the whole change.
pub fn apply_settings_update(settings: &mut Settings, body: UpdateSettingsRequest) -> (r: Result<(), AppError>)
    ensures
        bad_default_password(opt_string_view(body.abs_user_default_password)) ==> fails_bad(
            r,
            "ABS sync default password must be at least 8 characters"@,
        ),
        !bad_default_password(opt_string_view(body.abs_user_default_password)) ==> {
            &&& r is Ok
            &&& final(settings).id == old(settings).id
            &&& final(settings).qbittorrent_url@ == set_url(
                opt_string_view(body.qbittorrent_url),
                old(settings).qbittorrent_url@,
            )
            &&& final(settings).qbittorrent_username@ == set_text(
                opt_string_view(body.qbittorrent_username),
                old(settings).qbittorrent_username@,
            )
            &&& final(settings).qbittorrent_password@ == set_secret(
                opt_string_view(body.qbittorrent_password),
                old(settings).qbittorrent_password@,
            )
            &&& final(settings).download_path@ == set_text(
                opt_string_view(body.download_path),
                old(settings).download_path@,
            )
            &&& final(settings).library_path@ == set_text(
                opt_string_view(body.library_path),
                old(settings).library_path@,
            )
            &&& final(settings).path_template@ == set_text(
                opt_string_view(body.path_template),
                old(settings).path_template@,
            )
            &&& final(settings).audible_region@ == set_text(
                opt_string_view(body.audible_region),
                old(settings).audible_region@,
            )
            &&& final(settings).metadata_provider_url@ == set_url(
                opt_string_view(body.metadata_provider_url),
                old(settings).metadata_provider_url@,
            )
            &&& final(settings).sync_interval_ms == set_at_least(
                body.sync_interval_ms,
                old(settings).sync_interval_ms,
                3000,
            )
            &&& final(settings).vapid_subject@ == set_text(
                opt_string_view(body.vapid_subject),
                old(settings).vapid_subject@,
            )
            &&& final(settings).vapid_public_key@ == old(settings).vapid_public_key@
            &&& final(settings).vapid_private_key@ == old(settings).vapid_private_key@
            &&& final(settings).audiobookshelf_url@ == set_url(
                opt_string_view(body.audiobookshelf_url),
                old(settings).audiobookshelf_url@,
            )
            &&& final(settings).audiobookshelf_token@ == set_secret(
                opt_string_view(body.audiobookshelf_token),
                old(settings).audiobookshelf_token@,
            )
            &&& final(settings).abs_user_sync_enabled == match body.abs_user_sync_enabled {
                Some(b) => b,
                None => old(settings).abs_user_sync_enabled,
            }
            &&& final(settings).abs_user_sync_interval_ms == set_at_least(
                body.abs_user_sync_interval_ms,
                old(settings).abs_user_sync_interval_ms,
                60000,
            )
            &&& final(settings).abs_user_default_password@ == set_default_password(
                opt_string_view(body.abs_user_default_password),
                old(settings).abs_user_default_password@,
            )
            &&& final(settings).abs_user_sync_libraries == match body.abs_user_sync_libraries {
                Some(b) => b,
                None => old(settings).abs_user_sync_libraries,
            }
            &&& final(settings).abs_user_last_sync_at == old(settings).abs_user_last_sync_at
            &&& final(settings).rate_limit_requests == old(settings).rate_limit_requests
            &&& final(settings).rate_limit_window_secs == old(settings).rate_limit_window_secs
            &&& final(settings).rate_limit_active_torrents == old(
                settings,
            ).rate_limit_active_torrents
            &&& final(settings).updated_at == old(settings).updated_at
        },
{
    let new_password: Option<String> = match &body.abs_user_default_password {
        Some(v) => {
            let t = trim_str(v.as_str());
            if t.len() > 0 {
                let ts = chars_to_string(t.as_slice());
                if ts.as_str().as_bytes().len() < 8 {
                    return Err(bad_request("ABS sync default password must be at least 8 characters"));
                }
                Some(ts)
            } else {
                None
            }
        },
        None => None,
    };
    settings.qbittorrent_url = pick_url(body.qbittorrent_url, settings.qbittorrent_url.as_str());
    settings.qbittorrent_username = pick_text(
        body.qbittorrent_username,
        settings.qbittorrent_username.as_str(),
    );
    settings.qbittorrent_password = pick_secret(
        body.qbittorrent_password,
        settings.qbittorrent_password.as_str(),
    );
    settings.download_path = pick_text(body.download_path, settings.download_path.as_str());
    settings.library_path = pick_text(body.library_path, settings.library_path.as_str());
    settings.path_template = pick_text(body.path_template, settings.path_template.as_str());
    settings.audible_region = pick_text(body.audible_region, settings.audible_region.as_str());
    settings.metadata_provider_url = pick_url(
        body.metadata_provider_url,
        settings.metadata_provider_url.as_str(),
    );
    settings.sync_interval_ms = pick_at_least(body.sync_interval_ms, settings.sync_interval_ms, 3000);
    settings.vapid_subject = pick_text(body.vapid_subject, settings.vapid_subject.as_str());
    settings.audiobookshelf_url = pick_url(
        body.audiobookshelf_url,
        settings.audiobookshelf_url.as_str(),
    );
    settings.audiobookshelf_token = pick_secret(
        body.audiobookshelf_token,
        settings.audiobookshelf_token.as_str(),
    );
    settings.abs_user_sync_enabled = pick_flag(body.abs_user_sync_enabled, settings.abs_user_sync_enabled);
    settings.abs_user_sync_interval_ms = pick_at_least(
        body.abs_user_sync_interval_ms,
        settings.abs_user_sync_interval_ms,
        60000,
    );
    settings.abs_user_default_password = pick_text(
        new_password,
        settings.abs_user_default_password.as_str(),
    );
    settings.abs_user_sync_libraries = pick_flag(
        body.abs_user_sync_libraries,
        settings.abs_user_sync_libraries,
    );
    Ok(())
}

/// The qBittorrent URL (without trailing `/`), user name and password to
/// test: those given (trimmed, the password as is when non-empty), else
/// the stored ones. The URL and the user name are needed.
pub fn qb_test_credentials(payload: &TestQbittorrentRequest, settings: &Settings) -> (r: Result<(String, String, String), AppError>)
    ensures
        ({
            let url = trim_end_char(
                match given(opt_string_view(payload.qbittorrent_url)) {
                    Some(u) => u,
                    None => settings.qbittorrent_url@,
                },
                '/',
            );
            let user = match given(opt_string_view(payload.qbittorrent_username)) {
                Some(u) => u,
                None => settings.qbittorrent_username@,
            };
            let password = match opt_string_view(payload.qbittorrent_password) {
                Some(p) => if p.len() > 0 {
                    p
                } else {
                    settings.qbittorrent_password@
                },
                None => settings.qbittorrent_password@,
            };
            if url.len() == 0 {
                fails_bad(r, "qBittorrent URL is not configured"@)
            } else if user.len() == 0 {
                fails_bad(r, "qBittorrent username is required for WebUI auth"@)
            } else {
                r matches Ok(t) && t.0@ == url && t.1@ == user && t.2@ == password
            }
        }),
{
    let u = match &payload.qbittorrent_url {
        Some(s) => {
            let t = trim_str(s.as_str());
            if t.len() > 0 {
                t
            } else {
                str_chars(settings.qbittorrent_url.as_str())
            }
        },
        None => str_chars(settings.qbittorrent_url.as_str()),
    };
    let url = trim_end_char_exec(u.as_slice(), '/');
    if url.len() == 0 {
        return Err(bad_request("qBittorrent URL is not configured"));
    }
    let user = match &payload.qbittorrent_username {
        Some(s) => {
            let t = trim_str(s.as_str());
            if t.len() > 0 {
                t
            } else {
                str_chars(settings.qbittorrent_username.as_str())
            }
        },
        None => str_chars(settings.qbittorrent_username.as_str()),
    };
    let password: String = match &payload.qbittorrent_password {
        Some(p) => if !p.as_str().is_empty() {
            p.as_str().to_owned()
        } else {
            settings.qbittorrent_password.as_str().to_owned()
        },
        None => settings.qbittorrent_password.as_str().to_owned(),
    };
    if user.len() == 0 {
        return Err(bad_request("qBittorrent username is required for WebUI auth"));
    }
    Ok((chars_to_string(url.as_slice()), chars_to_string(user.as_slice()), password))
}

} // verus!
