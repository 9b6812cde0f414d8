//! Rate limits on download requests and on active torrents. A user's own
//! limit, when set, replaces the global one; 0 or less means unlimited.
use vstd::prelude::*;

use crate::error::{fails_too_many, AppError};
use crate::models::{Settings, User};
use crate::text::{chars_to_string, extend_chars, i64_decimal, signed_decimal, str_chars};

verus! {

pub open spec fn spec_effective(user_override: Option<i64>, global: i64) -> i64 {
    match user_override {
        Some(v) => v,
        None => global,
    }
}

/// The limit that applies: the user's own when set, else the global one.
pub fn effective(user_override: Option<i64>, global: i64) -> (r: i64)
    ensures
        r == spec_effective(user_override, global),
{
    match user_override {
        Some(v) => v,
        None => global,
    }
}

/// The request limit of a user: at most `limit` new downloads in the last
/// `window` seconds.
#[derive(Debug, Clone, Copy, PartialEq, Eq, Structural)]
pub struct RequestLimit {
    pub limit: i64,
    pub window: i64,
}

pub open spec fn at_least_one(v: i64) -> i64 {
    if v > 1 {
        v
    } else {
        1
    }
}

pub open spec fn spec_request_limit(user: User, settings: Settings) -> Option<RequestLimit> {
    let limit = spec_effective(user.rate_limit_requests, settings.rate_limit_requests);
    if limit <= 0 {
        None
    } else {
        Some(
            RequestLimit {
                limit,
                window: at_least_one(
                    spec_effective(user.rate_limit_window_secs, settings.rate_limit_window_secs),
                ),
            },
        )
    }
}

/// The request limit that applies to a user; `None` when unlimited (then
/// no limit, the global one included, is checked). The window is at least
/// one second.
pub fn request_limit(user: &User, settings: &Settings) -> (r: Option<RequestLimit>)
    ensures
        r == spec_request_limit(*user, *settings),
{
    let limit = effective(user.rate_limit_requests, settings.rate_limit_requests);
    if limit <= 0 {
        return None;
    }
    let w = effective(user.rate_limit_window_secs, settings.rate_limit_window_secs);
    Some(RequestLimit { limit, window: if w > 1 { w } else { 1 } })
}

/// The SQLite time modifier for "the last `window` seconds".
pub fn since_modifier(window: i64) -> (r: String)
    ensures
        r@ == "-"@ + signed_decimal(window as int) + " seconds"@,
{
    let mut v = str_chars("-");
    let d = i64_decimal(window);
    extend_chars(&mut v, d.as_slice());
    let tail = str_chars(" seconds");
    extend_chars(&mut v, tail.as_slice());
    chars_to_string(v.as_slice())
}

/// A user who made `count` downloads in the window has reached the limit
/// when `count` is at least the limit.
pub fn check_user_requests(limit: RequestLimit, count: i64) -> (r: Result<(), AppError>)
    ensures
        r is Ok <==> count < limit.limit,
        r is Err ==> fails_too_many(
            r,
            "Download request limit reached ("@ + signed_decimal(limit.limit as int) + " per "@
                + signed_decimal(limit.window as int) + "s). Try again later."@,
        ),
{
    if count >= limit.limit {
        let mut v = str_chars("Download request limit reached (");
        extend_chars(&mut v, i64_decimal(limit.limit).as_slice());
        extend_chars(&mut v, str_chars(" per ").as_slice());
        extend_chars(&mut v, i64_decimal(limit.window).as_slice());
        extend_chars(&mut v, str_chars("s). Try again later.").as_slice());
        return Err(AppError::TooManyRequests(chars_to_string(v.as_slice())));
    }
    Ok(())
}

/// The window of the global cap, which applies across all users when the
/// global request limit is set; at least one second.
pub fn global_window(settings: &Settings) -> (r: Option<i64>)
    ensures
        r == (if settings.rate_limit_requests > 0 {
            Some(at_least_one(settings.rate_limit_window_secs))
        } else {
            None
        }),
{
    if settings.rate_limit_requests > 0 {
        Some(if settings.rate_limit_window_secs > 1 {
            settings.rate_limit_window_secs
        } else {
            1
        })
    } else {
        None
    }
}

/// With `count` downloads by everyone in the global window, the global cap
/// is reached when `count` is at least the global limit.
pub fn check_global_requests(settings: &Settings, window: i64, count: i64) -> (r: Result<(), AppError>)
    ensures
        r is Ok <==> count < settings.rate_limit_requests,
        r is Err ==> fails_too_many(
            r,
            "Global download request limit reached ("@ + signed_decimal(
                settings.rate_limit_requests as int,
            ) + " per "@ + signed_decimal(window as int) + "s). Try again later."@,
        ),
{
    if count >= settings.rate_limit_requests {
        let mut v = str_chars("Global download request limit reached (");
        extend_chars(&mut v, i64_decimal(settings.rate_limit_requests).as_slice());
        extend_chars(&mut v, str_chars(" per ").as_slice());
        extend_chars(&mut v, i64_decimal(window).as_slice());
        extend_chars(&mut v, str_chars("s). Try again later.").as_slice());
        return Err(AppError::TooManyRequests(chars_to_string(v.as_slice())));
    }
    Ok(())
}

/// The active-torrent limit of a user; `None` when unlimited.
pub fn active_torrent_limit(user: &User, settings: &Settings) -> (r: Option<i64>)
    ensures
        ({
            let l = spec_effective(user.rate_limit_active_torrents, settings.rate_limit_active_torrents);
            r == if l <= 0 {
                None
            } else {
                Some(l)
            }
        }),
{
    let l = effective(user.rate_limit_active_torrents, settings.rate_limit_active_torrents);
    if l <= 0 {
        None
    } else {
        Some(l)
    }
}

/// A user with `active` queued or downloading torrents has reached the
/// limit when `active` is at least the limit.
pub fn check_active_torrents(limit: i64, active: i64) -> (r: Result<(), AppError>)
    ensures
        r is Ok <==> active < limit,
        r is Err ==> fails_too_many(
            r,
            "Active torrent limit reached ("@ + signed_decimal(limit as int)
                + "). Wait for a download to finish."@,
        ),
{
    if active >= limit {
        let mut v = str_chars("Active torrent limit reached (");
        extend_chars(&mut v, i64_decimal(limit).as_slice());
        extend_chars(&mut v, str_chars("). Wait for a download to finish.").as_slice());
        return Err(AppError::TooManyRequests(chars_to_string(v.as_slice())));
    }
    Ok(())
}

/// A user's own limit replaces the global one, whatever the global one is
/// (higher, lower or unlimited); without one the global limit applies.
pub proof fn law_user_limit_replaces_global(v: i64, g1: i64, g2: i64)
    ensures
        spec_effective(Some(v), g1) == v,
        spec_effective(Some(v), g1) == spec_effective(Some(v), g2),
        spec_effective(None, g1) == g1,
{
}

/// With a positive request limit of their own, a user may make exactly that
/// many requests, whatever the settings say; with zero or less of their own,
/// they are unlimited even where a global limit is set. The same holds of
/// the active-torrent limit.
pub proof fn law_own_limits_decide(user: User, settings: Settings)
    ensures
        user.rate_limit_requests matches Some(v) ==> (if v > 0 {
            spec_request_limit(user, settings) matches Some(l) && l.limit == v
        } else {
            spec_request_limit(user, settings) is None
        }),
        user.rate_limit_requests is None ==> (if settings.rate_limit_requests > 0 {
            spec_request_limit(user, settings) matches Some(l) && l.limit == settings.rate_limit_requests
        } else {
            spec_request_limit(user, settings) is None
        }),
        user.rate_limit_active_torrents matches Some(v) ==> spec_effective(
            user.rate_limit_active_torrents,
            settings.rate_limit_active_torrents,
        ) == v,
{
}

} // verus!
