//! Web push: subscriptions, the notices sent on download events and the
//! payload they travel in.
use vstd::prelude::*;

use crate::lits::{lit_b_copy_failed, lit_b_failed_qb, lit_b_finished, lit_b_gone, lit_b_no_match, lit_b_pack_ready, lit_b_ready, lit_c404, lit_c410, lit_close_paren, lit_mailto_admin, lit_mailto_audiobooker, lit_root_url, lit_t_download_failed, lit_t_download_finished, lit_t_import_failed, lit_t_imported, lit_t_pack_ready, mk_b_copy_failed, mk_b_failed_qb, mk_b_finished, mk_b_gone, mk_b_no_match, mk_b_pack_ready, mk_b_ready, mk_c404, mk_c410, mk_close_paren, mk_mailto_admin, mk_mailto_audiobooker, mk_root_url, mk_t_download_failed, mk_t_download_finished, mk_t_import_failed, mk_t_imported, mk_t_pack_ready};
use crate::models::{NotificationPrefs, NotifyKind, Settings};
use crate::text::{chars_to_string, contains_exec, extend_chars, str_chars};

verus! {

/// A browser's push subscription.
#[derive(Debug, Clone)]
pub struct PushSubscriptionRequest {
    pub endpoint: String,
    pub keys: PushKeys,
}

/// The keys of a push subscription.
#[derive(Debug, Clone)]
pub struct PushKeys {
    pub p256dh: String,
    pub auth: String,
}

/// What a push message carries.
#[derive(Debug, Clone)]
pub struct PushPayload {
    pub title: String,
    pub body: String,
    pub url: String,
    pub tag: Option<String>,
}

/// Removing one subscription (by endpoint) or, without one, all of the
/// user's subscriptions.
#[derive(Debug, Clone)]
pub struct UnsubscribeRequest {
    pub endpoint: Option<String>,
}

/// A notification about a download, before the user's preferences decide
/// whether it is sent.
#[derive(Debug, Clone)]
pub struct Notice {
    pub kind: NotifyKind,
    pub title: String,
    pub body: String,
}

pub open spec fn spec_tag(kind: NotifyKind) -> Seq<char> {
    match kind {
        NotifyKind::Imported => "audiobooker-imported"@,
        NotifyKind::DownloadFinished => "audiobooker-download"@,
        NotifyKind::PackReady => "audiobooker-pack"@,
        NotifyKind::Failure => "audiobooker-failure"@,
    }
}

/// The tag that makes a newer notification of a kind replace an older one.
pub fn tag_for(kind: NotifyKind) -> (r: &'static str)
    ensures
        r@ == spec_tag(kind),
{
    match kind {
        NotifyKind::Imported => "audiobooker-imported",
        NotifyKind::DownloadFinished => "audiobooker-download",
        NotifyKind::PackReady => "audiobooker-pack",
        NotifyKind::Failure => "audiobooker-failure",
    }
}

/// The payload of a notice: its title and body, the app's home page, and
/// the tag of its kind.
pub fn payload_for(notice: &Notice) -> (r: PushPayload)
    ensures
        r.title@ == notice.title@,
        r.body@ == notice.body@,
        r.url@ == lit_root_url(),
        r.tag is Some && r.tag->0@ == spec_tag(notice.kind),
{
    let t = tag_for(notice.kind);
    PushPayload {
        title: notice.title.as_str().to_owned(),
        body: notice.body.as_str().to_owned(),
        url: chars_to_string(mk_root_url().as_slice()),
        tag: Some(t.to_owned()),
    }
}

/// Whether a notice goes out: only when the user's preferences allow its
/// kind.
pub fn should_send(prefs: &NotificationPrefs, notice: &Notice) -> (r: bool)
    ensures
        r == prefs.spec_allows(notice.kind),
{
    prefs.allows(notice.kind)
}

fn join2(a: &str, b: &[char]) -> (r: String)
    ensures
        r@ == a@ + b@,
{
    let mut v = str_chars(a);
    extend_chars(&mut v, b);
    chars_to_string(v.as_slice())
}

fn join4(a: &str, b: &[char], c: &str, d: &[char]) -> (r: String)
    ensures
        r@ == a@ + b@ + c@ + d@,
{
    let mut v = str_chars(a);
    extend_chars(&mut v, b);
    let cv = str_chars(c);
    extend_chars(&mut v, cv.as_slice());
    extend_chars(&mut v, d);
    chars_to_string(v.as_slice())
}

impl Notice {
    /// The torrent of `name` left qBittorrent before it was done.
    pub fn torrent_missing(name: &str) -> (r: Notice)
        ensures
            r.kind == NotifyKind::Failure,
            r.title@ == lit_t_download_failed(),
            r.body@ == name@ + lit_b_gone(),
    {
        Notice {
            kind: NotifyKind::Failure,
            title: chars_to_string(mk_t_download_failed().as_slice()),
            body: join2(name, mk_b_gone().as_slice()),
        }
    }

    /// qBittorrent reports the torrent of `name` failed, in `state`.
    pub fn torrent_failed(name: &str, state: &str) -> (r: Notice)
        ensures
            r.kind == NotifyKind::Failure,
            r.title@ == lit_t_download_failed(),
            r.body@ == name@ + lit_b_failed_qb() + state@ + lit_close_paren(),
    {
        Notice {
            kind: NotifyKind::Failure,
            title: chars_to_string(mk_t_download_failed().as_slice()),
            body: join4(name, mk_b_failed_qb().as_slice(), state, mk_close_paren().as_slice()),
        }
    }

    /// The pack `name` finished downloading and waits for mapping.
    pub fn pack_ready(name: &str) -> (r: Notice)
        ensures
            r.kind == NotifyKind::PackReady,
            r.title@ == lit_t_pack_ready(),
            r.body@ == name@ + lit_b_pack_ready(),
    {
        Notice {
            kind: NotifyKind::PackReady,
            title: chars_to_string(mk_t_pack_ready().as_slice()),
            body: join2(name, mk_b_pack_ready().as_slice()),
        }
    }

    /// The book `name` finished downloading and is being imported.
    pub fn download_finished(name: &str) -> (r: Notice)
        ensures
            r.kind == NotifyKind::DownloadFinished,
            r.title@ == lit_t_download_finished(),
            r.body@ == name@ + lit_b_finished(),
    {
        Notice {
            kind: NotifyKind::DownloadFinished,
            title: chars_to_string(mk_t_download_finished().as_slice()),
            body: join2(name, mk_b_finished().as_slice()),
        }
    }

    /// The book `name` finished but has no Audible match to import with.
    pub fn no_match(name: &str) -> (r: Notice)
        ensures
            r.kind == NotifyKind::Failure,
            r.title@ == lit_t_import_failed(),
            r.body@ == name@ + lit_b_no_match(),
    {
        Notice {
            kind: NotifyKind::Failure,
            title: chars_to_string(mk_t_import_failed().as_slice()),
            body: join2(name, mk_b_no_match().as_slice()),
        }
    }

    /// The book `title` was copied into its library.
    pub fn imported(title: &str) -> (r: Notice)
        ensures
            r.kind == NotifyKind::Imported,
            r.title@ == lit_t_imported(),
            r.body@ == title@ + lit_b_ready(),
    {
        Notice {
            kind: NotifyKind::Imported,
            title: chars_to_string(mk_t_imported().as_slice()),
            body: join2(title, mk_b_ready().as_slice()),
        }
    }

    /// Copying the book `title` into its library failed.
    pub fn copy_failed(title: &str) -> (r: Notice)
        ensures
            r.kind == NotifyKind::Failure,
            r.title@ == lit_t_import_failed(),
            r.body@ == title@ + lit_b_copy_failed(),
    {
        Notice {
            kind: NotifyKind::Failure,
            title: chars_to_string(mk_t_import_failed().as_slice()),
            body: join2(title, mk_b_copy_failed().as_slice()),
        }
    }
}

/// Push is possible once both VAPID keys exist.
pub fn vapid_ready(settings: &Settings) -> (r: bool)
    ensures
        r == (settings.vapid_private_key@.len() > 0 && settings.vapid_public_key@.len() > 0),
{
    !settings.vapid_private_key.as_str().is_empty() && !settings.vapid_public_key.as_str().is_empty()
}

pub open spec fn spec_vapid_subject_after_keys(subject: Seq<char>) -> Seq<char> {
    if subject.len() == 0 || subject == lit_mailto_admin() {
        lit_mailto_audiobooker()
    } else {
        subject
    }
}

/// The VAPID subject stored with newly made keys: an empty subject or the
/// old default becomes `mailto:audiobooker@localhost`.
pub fn vapid_subject_after_keys(subject: &str) -> (r: String)
    ensures
        r@ == spec_vapid_subject_after_keys(subject@),
{
    if subject.is_empty() || crate::models::str_is(subject, mk_mailto_admin().as_slice()) {
        chars_to_string(mk_mailto_audiobooker().as_slice())
    } else {
        subject.to_owned()
    }
}

/// A send error naming 410 or 404 means the subscription is gone, and it
/// is deleted.
pub fn subscription_expired(error_text: &str) -> (r: bool)
    ensures
        r == (crate::text::contains(error_text@, lit_c410()) || crate::text::contains(
            error_text@,
            lit_c404(),
        )),
{
    let v = str_chars(error_text);
    contains_exec(v.as_slice(), mk_c410().as_slice()) || contains_exec(
        v.as_slice(),
        mk_c404().as_slice(),
    )
}

} // verus!

verus! {

// ---------------------------------------------------------------------------
// VAPID keys
// ---------------------------------------------------------------------------

/// A fresh random P-256 key pair, through
/// `p256::ecdsa::SigningKey::random`: the public key as its uncompressed
/// SEC1 point (`VerifyingKey::to_encoded_point(false)`, `0x04` and the two
/// 32-byte coordinates), the private key as PKCS#8 PEM
/// (`EncodePrivateKey::to_pkcs8_pem`, whose failure is an internal error).
/// The key is random: only the form of the point is stated.
#[verifier::external_body]
fn random_p256_key() -> (r: Result<(Vec<u8>, String), crate::error::AppError>)
    ensures
        r matches Ok(k) ==> k.0@.len() == 65 && k.0@[0] == 4,
{
    let key = p256::ecdsa::SigningKey::random(&mut rand::rngs::OsRng);
    let point = key.verifying_key().to_encoded_point(false).as_bytes().to_vec();
    match p256::pkcs8::EncodePrivateKey::to_pkcs8_pem(&key, p256::pkcs8::LineEnding::LF) {
        Ok(pem) => Ok((point, pem.to_string())),
        Err(e) => Err(crate::error::AppError::Internal(e.to_string())),
    }
}

/// The character of a six-bit value in the URL-safe base64 alphabet.
pub open spec fn b64url_char(v: int) -> char {
    if v < 26 {
        (65 + v) as char
    } else if v < 52 {
        (71 + v) as char
    } else if v < 62 {
        (v - 4) as char
    } else if v == 62 {
        '-'
    } else {
        '_'
    }
}

/// URL-safe base64 without padding: each three bytes become four
/// characters, two trailing bytes three, one trailing byte two.
pub open spec fn spec_b64url(d: Seq<u8>) -> Seq<char>
    decreases d.len(),
{
    if d.len() == 0 {
        Seq::empty()
    } else {
        let a = d[0] as int;
        if d.len() == 1 {
            seq![b64url_char(a / 4), b64url_char((a % 4) * 16)]
        } else {
            let b = d[1] as int;
            if d.len() == 2 {
                seq![b64url_char(a / 4), b64url_char((a % 4) * 16 + b / 16), b64url_char((b % 16) * 4)]
            } else {
                let c = d[2] as int;
                seq![
                    b64url_char(a / 4),
                    b64url_char((a % 4) * 16 + b / 16),
                    b64url_char((b % 16) * 4 + c / 64),
                    b64url_char(c % 64),
                ] + spec_b64url(d.skip(3))
            }
        }
    }
}

/// `base64::engine::general_purpose::URL_SAFE_NO_PAD.encode`: URL-safe
/// base64 without padding, exactly as `spec_b64url` states.
#[verifier::external_body]
fn b64url_encode(data: &[u8]) -> (r: String)
    ensures
        r@ == spec_b64url(data@),
{
    base64::Engine::encode(&base64::engine::general_purpose::URL_SAFE_NO_PAD, data)
}

/// The encoding of `n` bytes has `4 * (n / 3)` characters, and one more
/// than the leftover bytes when `n` is not a multiple of three.
pub proof fn lemma_b64url_len(d: Seq<u8>)
    ensures
        spec_b64url(d).len() == 4 * (d.len() / 3) + (if d.len() % 3 == 0 {
            0
        } else {
            d.len() % 3 + 1
        }),
    decreases d.len(),
{
    if d.len() >= 3 {
        lemma_b64url_len(d.skip(3));
    }
}

/// The VAPID key pair made from what key generation gave back: the public
/// key as URL-safe base64 of the point's bytes and the PEM unchanged; an
/// error stays that error.
pub fn vapid_keys_from(key: Result<(Vec<u8>, String), crate::error::AppError>) -> (r: Result<(String, String), crate::error::AppError>)
    ensures
        match key {
            Ok(k) => r matches Ok(v) && v.0@ == spec_b64url(k.0@) && v.1@ == k.1@,
            Err(e) => r == Err::<(String, String), crate::error::AppError>(e),
        },
{
    match key {
        Ok((point, pem)) => Ok((b64url_encode(point.as_slice()), pem)),
        Err(e) => Err(e),
    }
}

/// A new VAPID key pair: the public key as URL-safe base64 of the
/// uncompressed form of a P-256 point (65 bytes starting with the `0x04`
/// marker, so 87 characters starting with `B`), and the private key as
/// PKCS#8 PEM.
pub fn generate_vapid_keypair() -> (r: Result<(String, String), crate::error::AppError>)
    ensures
        r matches Ok(k) ==> k.0@.len() == 87 && k.0@[0] == 'B' && exists|p: Seq<u8>|
            p.len() == 65 && p[0] == 4 && k.0@ == spec_b64url(p),
{
    let key = random_p256_key();
    let ghost point: Seq<u8> = if key is Ok {
        (key->Ok_0).0@
    } else {
        Seq::empty()
    };
    let r = vapid_keys_from(key);
    proof {
        if r is Ok {
            lemma_b64url_len(point);
            assert((point[0] as int) / 4 == 1);
        }
    }
    r
}

} // verus!
