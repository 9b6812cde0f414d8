//! Accounts: who is signed in and what they may do, passwords, API keys,
//! and the rules for creating and editing accounts.
use vstd::prelude::*;

use crate::error::{bad_request, fails_bad, fails_conflict, AppError};
use crate::models::{AuthUser, User};
use crate::text::{chars_to_string, opt_string_view, str_chars, trim, trim_end_char, trim_end_char_exec, trim_str};

verus! {

/// A signed-in request: the user, the session it came with (none when an
/// API key was used), and whether an API key was used.
#[derive(Debug, Clone)]
pub struct AuthSession {
    pub user: User,
    pub session_id: Option<String>,
    pub via_api_key: bool,
}

/// A request that may or may not be signed in.
#[derive(Debug, Clone)]
pub struct OptionalAuth(pub Option<AuthSession>);

impl AuthSession {
    /// The signed-in user as shown to clients.
    pub fn auth_user(&self) -> (r: AuthUser)
        ensures
            r.id == self.user.id,
            r.username@ == self.user.username@,
            r.role@ == self.user.role@,
            r.must_change_password == self.user.must_change_password,
    {
        AuthUser {
            id: self.user.id,
            username: self.user.username.as_str().to_owned(),
            role: self.user.role.as_str().to_owned(),
            must_change_password: self.user.must_change_password,
        }
    }

    /// Only the administrator may go on.
    pub fn require_root(&self) -> (r: Result<(), AppError>)
        ensures
            self.user.spec_is_root() ==> r is Ok,
            !self.user.spec_is_root() ==> r == Err::<(), AppError>(AppError::Forbidden),
    {
        if self.user.is_root() {
            Ok(())
        } else {
            Err(AppError::Forbidden)
        }
    }

    /// Only a regular user (`role == "user"`) may go on.
    pub fn require_user_role(&self) -> (r: Result<(), AppError>)
        ensures
            self.user.role@ == crate::models::lit_user() ==> r is Ok,
            self.user.role@ != crate::models::lit_user() ==> r == Err::<(), AppError>(
                AppError::Forbidden,
            ),
    {
        if crate::models::str_is(self.user.role.as_str(), crate::lits::mk_user_role().as_slice()) {
            Ok(())
        } else {
            Err(AppError::Forbidden)
        }
    }

    /// Download actions are for users: the administrator is refused.
    pub fn forbid_root(&self) -> (r: Result<(), AppError>)
        ensures
            self.user.spec_is_root() ==> r == Err::<(), AppError>(AppError::Forbidden),
            !self.user.spec_is_root() ==> r is Ok,
    {
        if self.user.is_root() {
            Err(AppError::Forbidden)
        } else {
            Ok(())
        }
    }
}

impl OptionalAuth {
    /// From the outcome of signing in: a session, no session when the
    /// request is not signed in, or the error of a failed check.
    pub fn from_outcome(outcome: Result<AuthSession, AppError>) -> (r: Result<OptionalAuth, AppError>)
        ensures
            match outcome {
                Ok(s) => r matches Ok(o) && o.0 == Some(s),
                Err(AppError::Unauthorized) => r matches Ok(o) && o.0 is None,
                Err(e) => r == Err::<OptionalAuth, AppError>(e),
            },
    {
        match outcome {
            Ok(s) => Ok(OptionalAuth(Some(s))),
            Err(AppError::Unauthorized) => Ok(OptionalAuth(None)),
            Err(e) => Err(e),
        }
    }
}

/// Signing in with a user name and password.
#[derive(Debug, Clone)]
pub struct LoginRequest {
    pub username: String,
    pub password: String,
}

/// Changing one's own password.
#[derive(Debug, Clone)]
pub struct PasswordRequest {
    pub current_password: String,
    pub new_password: String,
}

/// A new account made by the administrator; without libraries it gets all
/// of them.
#[derive(Debug, Clone)]
pub struct CreateUserRequest {
    pub username: String,
    pub password: String,
    pub library_ids: Option<Vec<i64>>,
}

/// Changes to an account.
#[derive(Debug, Clone)]
pub struct UpdateUserRequest {
    pub password: Option<String>,
    pub library_ids: Option<Vec<i64>>,
    pub must_change_password: Option<bool>,
}

/// The first run: the administrator account, and qBittorrent if given.
#[derive(Debug, Clone)]
pub struct SetupRequest {
    pub username: String,
    pub password: String,
    pub qbittorrent_url: Option<String>,
    pub qbittorrent_username: Option<String>,
    pub qbittorrent_password: Option<String>,
}

/// qBittorrent credentials tried during the first run.
#[derive(Debug, Clone, Default)]
pub struct TestQbittorrentRequest {
    pub qbittorrent_url: Option<String>,
    pub qbittorrent_username: Option<String>,
    pub qbittorrent_password: Option<String>,
}

pub open spec fn byte_len(s: Seq<char>) -> nat {
    vstd::utf8::encode_utf8(s).len()
}

/// A new account needs a user name of at least 3 bytes once trimmed, and a
/// password of at least 8 bytes; the name is returned trimmed.
pub fn check_new_account(username: &str, password: &str) -> (r: Result<String, AppError>)
    ensures
        byte_len(trim(username@)) < 3 ==> fails_bad(r, "Username must be at least 3 characters"@),
        byte_len(trim(username@)) >= 3 && byte_len(password@) < 8 ==> fails_bad(
            r,
            "Password must be at least 8 characters"@,
        ),
        byte_len(trim(username@)) >= 3 && byte_len(password@) >= 8 ==> (r matches Ok(n) && n@
            == trim(username@)),
{
    let name = chars_to_string(trim_str(username).as_slice());
    if name.as_str().as_bytes().len() < 3 {
        return Err(bad_request("Username must be at least 3 characters"));
    }
    if password.as_bytes().len() < 8 {
        return Err(bad_request("Password must be at least 8 characters"));
    }
    Ok(name)
}

/// The first run is possible only while there is no account.
pub fn check_setup_open(user_count: i64) -> (r: Result<(), AppError>)
    ensures
        r is Ok <==> user_count <= 0,
        r is Err ==> fails_conflict(r, "Setup already completed"@),
{
    if user_count > 0 {
        Err(AppError::Conflict("Setup already completed".to_owned()))
    } else {
        Ok(())
    }
}

pub open spec fn spec_setup_qb(body_url: Option<Seq<char>>, body_user: Option<Seq<char>>, body_pass: Option<Seq<char>>) -> Option<(Seq<char>, Seq<char>, Seq<char>)> {
    match body_url {
        Some(u) => if trim(u).len() > 0 {
            Some(
                (
                    trim_end_char(trim(u), '/'),
                    trim(crate::abs_sync::str_or(body_user, "admin"@)),
                    crate::abs_sync::str_or(body_pass, Seq::empty()),
                ),
            )
        } else {
            None
        },
        None => None,
    }
}

fn or_default_text(o: &Option<String>, d: &str) -> (r: Vec<char>)
    ensures
        r@ == crate::abs_sync::str_or(opt_string_view(*o), d@),
{
    match o {
        Some(s) => str_chars(s.as_str()),
        None => str_chars(d),
    }
}

/// The qBittorrent settings saved by the first run, when a URL is given:
/// the URL trimmed and without trailing `/`, the user name trimmed
/// (`admin` by default), and the password (empty by default).
pub fn setup_qbittorrent(body: &SetupRequest) -> (r: Option<(String, String, String)>)
    ensures
        match spec_setup_qb(
            opt_string_view(body.qbittorrent_url),
            opt_string_view(body.qbittorrent_username),
            opt_string_view(body.qbittorrent_password),
        ) {
            Some(t) => r matches Some(x) && x.0@ == t.0 && x.1@ == t.1 && x.2@ == t.2,
            None => r is None,
        },
{
    match &body.qbittorrent_url {
        Some(u) => {
            let t = trim_str(u.as_str());
            if t.len() == 0 {
                return None;
            }
            let url = trim_end_char_exec(t.as_slice(), '/');
            let user = or_default_text(&body.qbittorrent_username, "admin");
            let user_t = crate::text::trim_chars(user.as_slice());
            let empty: &str = "";
            proof {
                reveal_strlit("");
            }
            let pass = or_default_text(&body.qbittorrent_password, empty);
            Some((chars_to_string(url.as_slice()), chars_to_string(user_t.as_slice()), chars_to_string(pass.as_slice())))
        },
        None => None,
    }
}

/// Credentials tried during the first run, which is possible only while
/// there is no account: the URL is needed (trimmed, without trailing `/`),
/// the user name defaults to `admin` and must not be blank, the password
/// defaults to empty.
pub fn setup_test_credentials(user_count: i64, body: &TestQbittorrentRequest) -> (r: Result<(String, String, String), AppError>)
    ensures
        user_count > 0 ==> r == Err::<(String, String, String), AppError>(AppError::Forbidden),
        user_count <= 0 ==> match opt_string_view(body.qbittorrent_url) {
            Some(u) if trim(u).len() > 0 => {
                let user = trim(crate::abs_sync::str_or(opt_string_view(body.qbittorrent_username), "admin"@));
                if user.len() == 0 {
                    fails_bad(r, "qBittorrent username is required for WebUI auth"@)
                } else {
                    r matches Ok(t) && t.0@ == trim_end_char(trim(u), '/') && t.1@ == user && t.2@
                        == crate::abs_sync::str_or(opt_string_view(body.qbittorrent_password), Seq::empty())
                }
            },
            _ => fails_bad(r, "qBittorrent URL is required"@),
        },
{
    if user_count > 0 {
        return Err(AppError::Forbidden);
    }
    let t: Vec<char> = match &body.qbittorrent_url {
        Some(u) => trim_str(u.as_str()),
        None => Vec::new(),
    };
    if t.len() == 0 {
        return Err(bad_request("qBittorrent URL is required"));
    }
    let url = trim_end_char_exec(t.as_slice(), '/');
    let user = or_default_text(&body.qbittorrent_username, "admin");
    let user_t = crate::text::trim_chars(user.as_slice());
    let empty: &str = "";
    proof {
        reveal_strlit("");
    }
    let pass = or_default_text(&body.qbittorrent_password, empty);
    if user_t.len() == 0 {
        return Err(bad_request("qBittorrent username is required for WebUI auth"));
    }
    Ok((chars_to_string(url.as_slice()), chars_to_string(user_t.as_slice()), chars_to_string(pass.as_slice())))
}

/// Changing one's password needs the current one (`current_ok`: it was
/// verified) and a new one of at least 8 bytes.
pub fn check_password_change(current_ok: bool, new_password: &str) -> (r: Result<(), AppError>)
    ensures
        !current_ok ==> fails_bad(r, "Current password is incorrect"@),
        current_ok && byte_len(new_password@) < 8 ==> fails_bad(
            r,
            "New password must be at least 8 characters"@,
        ),
        r is Ok <==> (current_ok && byte_len(new_password@) >= 8),
{
    if !current_ok {
        return Err(bad_request("Current password is incorrect"));
    }
    if new_password.as_bytes().len() < 8 {
        return Err(bad_request("New password must be at least 8 characters"));
    }
    Ok(())
}

/// The administrator account cannot be edited or deleted here.
pub fn check_editable_user(user: &User, deleting: bool) -> (r: Result<(), AppError>)
    ensures
        user.spec_is_root() && deleting ==> fails_bad(r, "Cannot delete root user"@),
        user.spec_is_root() && !deleting ==> fails_bad(r, "Cannot edit root user here"@),
        r is Ok <==> !user.spec_is_root(),
{
    if user.is_root() {
        if deleting {
            Err(bad_request("Cannot delete root user"))
        } else {
            Err(bad_request("Cannot edit root user here"))
        }
    } else {
        Ok(())
    }
}

/// The new password of an account edit: none when absent or empty, refused
/// under 8 bytes.
pub fn password_update(password: &Option<String>) -> (r: Result<Option<String>, AppError>)
    ensures
        match opt_string_view(*password) {
            Some(p) => if p.len() == 0 {
                r == Ok::<Option<String>, AppError>(None)
            } else if byte_len(p) < 8 {
                fails_bad(r, "Password must be at least 8 characters"@)
            } else {
                r matches Ok(Some(q)) && q@ == p
            },
            None => r == Ok::<Option<String>, AppError>(None),
        },
{
    match password {
        Some(p) => {
            if p.as_str().is_empty() {
                return Ok(None);
            }
            if p.as_str().as_bytes().len() < 8 {
                return Err(bad_request("Password must be at least 8 characters"));
            }
            Ok(Some(p.as_str().to_owned()))
        },
        None => Ok(None),
    }
}

/// The libraries of a new account: those given, else all; refused when
/// there are none.
pub fn new_user_libraries(given: Option<Vec<i64>>, all: Vec<i64>) -> (r: Result<Vec<i64>, AppError>)
    ensures
        ({
            let ids = match given {
                Some(v) => if v@.len() > 0 {
                    v@
                } else {
                    all@
                },
                None => all@,
            };
            if ids.len() == 0 {
                fails_bad(r, "Create at least one library in Settings before adding users"@)
            } else {
                r matches Ok(v) && v@ == ids
            }
        }),
{
    let ids = match given {
        Some(v) => if v.len() > 0 {
            v
        } else {
            all
        },
        None => all,
    };
    if ids.len() == 0 {
        return Err(bad_request("Create at least one library in Settings before adding users"));
    }
    Ok(ids)
}

/// Position of the first id whose library does not exist.
pub open spec fn first_unknown(exists: Seq<bool>) -> Option<int>
    decreases exists.len(),
{
    if exists.len() == 0 {
        None
    } else {
        match first_unknown(exists.drop_last()) {
            Some(k) => Some(k),
            None => if !exists.last() {
                Some(exists.len() - 1)
            } else {
                None
            },
        }
    }
}

/// An account's libraries: at least one, each existing (`exists[i]` says
/// whether `ids[i]` does); the first unknown id is named.
pub fn check_user_libraries(ids: &[i64], exists: &[bool]) -> (r: Result<(), AppError>)
    requires
        ids.len() == exists.len(),
    ensures
        ids.len() == 0 ==> fails_bad(r, "Assign at least one library to the user"@),
        ids.len() > 0 ==> match first_unknown(exists@) {
            Some(k) => fails_bad(
                r,
                "Unknown library id "@ + crate::text::signed_decimal(ids@[k] as int),
            ),
            None => r is Ok,
        },
{
    if ids.len() == 0 {
        return Err(bad_request("Assign at least one library to the user"));
    }
    let mut i: usize = 0;
    while i < ids.len()
        invariant
            i <= ids.len(),
            ids.len() == exists.len(),
            first_unknown(exists@.take(i as int)) is None,
        decreases ids.len() - i,
    {
        assert(exists@.take(i + 1).drop_last() =~= exists@.take(i as int));
        if !exists[i] {
            assert(first_unknown(exists@.take(i + 1)) == Some(i as int));
            proof {
                lemma_first_unknown_prefix(exists@, i as int + 1);
            }
            let mut m = str_chars("Unknown library id ");
            let d = crate::text::i64_decimal(ids[i]);
            crate::text::extend_chars(&mut m, d.as_slice());
            return Err(AppError::BadRequest(chars_to_string(m.as_slice())));
        }
        i += 1;
    }
    assert(exists@.take(exists.len() as int) =~= exists@);
    Ok(())
}

pub proof fn lemma_first_unknown_prefix(s: Seq<bool>, n: int)
    requires
        0 <= n <= s.len(),
        first_unknown(s.take(n)) is Some,
    ensures
        first_unknown(s) == first_unknown(s.take(n)),
    decreases s.len() - n,
{
    if n < s.len() {
        assert(s.take(n + 1).drop_last() =~= s.take(n));
        lemma_first_unknown_prefix(s, n + 1);
    } else {
        assert(s.take(n) =~= s);
    }
}

} // verus!

verus! {

// ---------------------------------------------------------------------------
// Passwords and API keys
// ---------------------------------------------------------------------------

/// Whether `password` matches the PHC string `hash` under Argon2; `None`
/// when `hash` is not a readable PHC string.
pub uninterp spec fn spec_password_matches(password: Seq<char>, hash: Seq<char>) -> Option<bool>;

/// Hashes a password with Argon2 (default parameters) and a fresh random
/// salt, through `argon2::PasswordHasher::hash_password`. The salt is
/// random, so nothing is stated of the hash itself, only that it verifies
/// the password it was made from; an error of the hasher is an internal
/// error.
#[verifier::external_body]
pub fn hash_password(password: &str) -> (r: Result<String, AppError>)
    ensures
        r matches Ok(h) ==> spec_password_matches(password@, h@) == Some(true),
{
    let salt = argon2::password_hash::SaltString::generate(&mut argon2::password_hash::rand_core::OsRng);
    match argon2::PasswordHasher::hash_password(&argon2::Argon2::default(), password.as_bytes(), &salt) {
        Ok(h) => Ok(h.to_string()),
        Err(e) => Err(AppError::Internal(e.to_string())),
    }
}

/// Checks a password against a stored Argon2 PHC string, through
/// `argon2::PasswordHash::new` and `PasswordVerifier::verify_password`: an
/// unreadable hash is an internal error, else whether the password
/// matches.
#[verifier::external_body]
pub fn verify_password(password: &str, hash: &str) -> (r: Result<bool, AppError>)
    ensures
        match spec_password_matches(password@, hash@) {
            Some(b) => r == Ok::<bool, AppError>(b),
            None => r matches Err(AppError::Internal(_)),
        },
{
    match argon2::PasswordHash::new(hash) {
        Ok(parsed) => Ok(argon2::PasswordVerifier::verify_password(&argon2::Argon2::default(), password.as_bytes(), &parsed).is_ok()),
        Err(e) => Err(AppError::Internal(e.to_string())),
    }
}

/// The SHA-256 digest of `data`.
pub uninterp spec fn spec_sha256(data: Seq<u8>) -> Seq<u8>;

/// `sha2::Sha256::digest`: the 32-byte SHA-256 digest of `data`.
#[verifier::external_body]
fn sha256(data: &[u8]) -> (r: Vec<u8>)
    ensures
        r@ == spec_sha256(data@),
        r@.len() == 32,
{
    <sha2::Sha256 as sha2::Digest>::digest(data).to_vec()
}

pub open spec fn hex_digit(n: int) -> char {
    if n < 10 {
        (48 + n) as char
    } else {
        (87 + n) as char
    }
}

/// Lower-case hexadecimal, two digits per byte, high nibble first.
pub open spec fn spec_hex(d: Seq<u8>) -> Seq<char>
    decreases d.len(),
{
    if d.len() == 0 {
        Seq::empty()
    } else {
        spec_hex(d.drop_last()).push(hex_digit((d.last() / 16) as int)).push(hex_digit((d.last() % 16) as int))
    }
}

/// `hex::encode`: each byte as two lower-case hexadecimal digits, high
/// nibble first.
#[verifier::external_body]
fn hex_encode(data: &[u8]) -> (r: String)
    ensures
        r@ == spec_hex(data@),
{
    hex::encode(data)
}

/// How an API key is stored: the lower-case hexadecimal SHA-256 of its
/// UTF-8 bytes.
pub fn hash_api_key(raw: &str) -> (r: String)
    ensures
        r@ == spec_hex(spec_sha256(vstd::utf8::encode_utf8(raw@))),
{
    let d = sha256(raw.as_bytes());
    hex_encode(d.as_slice())
}

pub open spec fn is_lower_hex(c: char) -> bool {
    ('0' <= c && c <= '9') || ('a' <= c && c <= 'f')
}

/// The digit of a version 4 UUID that holds its variant (RFC 9562: the
/// bits `10` on top).
pub open spec fn is_variant_digit(c: char) -> bool {
    c == '8' || c == '9' || c == 'a' || c == 'b'
}

/// `uuid::Uuid::new_v4().simple()` written out: a random UUID as 32
/// lower-case hexadecimal digits, with the version digit `4` at index 12
/// and the variant digit (`8`, `9`, `a` or `b`) at index 16, as `new_v4`
/// sets those bits. The value is random; only its form is stated.
#[verifier::external_body]
fn uuid_v4_simple() -> (r: String)
    ensures
        r@.len() == 32,
        forall|i: int| 0 <= i < 32 ==> is_lower_hex(#[trigger] r@[i]),
        r@[12] == '4',
        is_variant_digit(r@[16]),
{
    uuid::Uuid::new_v4().simple().to_string()
}

pub open spec fn is_uuid_dash(i: int) -> bool {
    i == 8 || i == 13 || i == 18 || i == 23
}

/// `uuid::Uuid::new_v4().to_string()`: a random UUID in its hyphenated
/// form, 36 characters, lower-case hexadecimal digits in groups of 8, 4, 4,
/// 4 and 12, with the version digit `4` at index 14 and the variant digit
/// at index 19. The value is random; only its form is stated.
#[verifier::external_body]
fn uuid_v4_hyphenated() -> (r: String)
    ensures
        r@.len() == 36,
        forall|i: int| 0 <= i < 36 ==> (if is_uuid_dash(i) {
            #[trigger] r@[i] == '-'
        } else {
            is_lower_hex(r@[i])
        }),
        r@[14] == '4',
        is_variant_digit(r@[19]),
{
    uuid::Uuid::new_v4().to_string()
}

/// A new session id: a random version 4 UUID in its hyphenated form.
pub fn new_session_id() -> (r: String)
    ensures
        r@.len() == 36,
        forall|i: int| 0 <= i < 36 ==> (if is_uuid_dash(i) {
            #[trigger] r@[i] == '-'
        } else {
            is_lower_hex(r@[i])
        }),
        r@[14] == '4',
        is_variant_digit(r@[19]),
{
    uuid_v4_hyphenated()
}

/// A new random API key: `abk_` and the 32 lower-case hexadecimal digits
/// of a random version 4 UUID.
pub fn generate_api_key() -> (r: String)
    ensures
        r@.len() == 36,
        r@.take(4) == crate::lits::lit_abk(),
        forall|i: int| 4 <= i < 36 ==> is_lower_hex(#[trigger] r@[i]),
        r@[16] == '4',
        is_variant_digit(r@[20]),
{
    let u = uuid_v4_simple();
    let mut v = crate::lits::mk_abk();
    let uc = str_chars(u.as_str());
    crate::text::extend_chars(&mut v, uc.as_slice());
    assert(v@.take(4) =~= crate::lits::lit_abk());
    assert forall|i: int| 4 <= i < 36 implies is_lower_hex(#[trigger] v@[i]) by {
        assert(v@[i] == u@[i - 4]);
    }
    assert(v@[16] == u@[12] && v@[20] == u@[16]);
    chars_to_string(v.as_slice())
}

/// The part of an API key that is shown after it is made: its first 12
/// characters.
pub fn api_key_prefix(raw: &str) -> (r: String)
    ensures
        r@ == raw@.take(if raw@.len() < 12 {
            raw@.len() as int
        } else {
            12
        }),
{
    let v = str_chars(raw);
    let n: usize = if v.len() < 12 {
        v.len()
    } else {
        12
    };
    chars_to_string(crate::text::slice_chars(v.as_slice(), 0, n).as_slice())
}

/// An API key is accepted when a key is stored and its hash is the stored
/// one.
pub fn api_key_accepted(stored_hash: &str, key_hash: &str) -> (r: bool)
    ensures
        r == (stored_hash@.len() > 0 && stored_hash@ == key_hash@),
{
    !stored_hash.is_empty() && crate::models::str_eq(stored_hash, key_hash)
}

} // verus!
