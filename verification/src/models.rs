//! Records of the application: users, settings, libraries, downloads and
//! the metadata matched to them.
use vstd::prelude::*;

use crate::text::{
    chars_eq, opt_string_view, seqs_view, starts_with, starts_with_exec, str_chars, trim,
    trim_str,
};

verus! {

broadcast use vstd::string::group_string_axioms;

pub open spec fn lit_root() -> Seq<char> {
    seq!['r', 'o', 'o', 't']
}

pub open spec fn lit_user() -> Seq<char> {
    seq!['u', 's', 'e', 'r']
}

/// Whether two strings hold the same characters.
pub fn str_eq(a: &str, b: &str) -> (r: bool)
    ensures
        r == (a@ == b@),
{
    let x = str_chars(a);
    let y = str_chars(b);
    chars_eq(x.as_slice(), y.as_slice())
}

/// Whether a string holds exactly the characters of `lit`.
pub fn str_is(a: &str, lit: &[char]) -> (r: bool)
    ensures
        r == (a@ == lit@),
{
    let x = str_chars(a);
    chars_eq(x.as_slice(), lit)
}

/// Account role.
#[derive(Debug, Clone, PartialEq, Eq, Structural)]
pub enum Role {
    Root,
    User,
}

impl Role {
    pub open spec fn spec_as_str(&self) -> Seq<char> {
        match self {
            Role::Root => lit_root(),
            Role::User => lit_user(),
        }
    }

    /// The stored form of the role: `root` or `user`.
    pub fn as_str(&self) -> (r: &'static str)
        ensures
            r@ == self.spec_as_str(),
    {
        match self {
            Role::Root => {
                proof {
                    reveal_strlit("root");
                }
                "root"
            },
            Role::User => {
                proof {
                    reveal_strlit("user");
                }
                "user"
            },
        }
    }

    pub open spec fn spec_parse(value: Seq<char>) -> Option<Role> {
        if value == lit_root() {
            Some(Role::Root)
        } else if value == lit_user() {
            Some(Role::User)
        } else {
            None
        }
    }

    /// Reads a stored role; only `root` and `user` (exact case) are roles.
    pub fn parse(value: &str) -> (r: Option<Role>)
        ensures
            r == Role::spec_parse(value@),
    {
        let root: [char; 4] = ['r', 'o', 'o', 't'];
        let user: [char; 4] = ['u', 's', 'e', 'r'];
        assert(root@ =~= lit_root());
        assert(user@ =~= lit_user());
        if str_is(value, &root) {
            Some(Role::Root)
        } else if str_is(value, &user) {
            Some(Role::User)
        } else {
            None
        }
    }
}

/// An account.
#[derive(Debug, Clone)]
pub struct User {
    pub id: i64,
    pub username: String,
    pub password_hash: String,
    pub role: String,
    pub must_change_password: bool,
    pub notify_imported: bool,
    pub notify_download_finished: bool,
    pub notify_pack_ready: bool,
    pub notify_failures: bool,
    pub abs_user_id: Option<String>,
    /// `None` inherits the global setting.
    pub rate_limit_requests: Option<i64>,
    pub rate_limit_window_secs: Option<i64>,
    pub rate_limit_active_torrents: Option<i64>,
    pub created_at: String,
    pub updated_at: String,
}

/// Column list for `User` queries (in the order of the fields).
pub const USER_COLUMNS: &'static str = "id, username, password_hash, role, must_change_password, notify_imported, notify_download_finished, notify_pack_ready, notify_failures, abs_user_id, rate_limit_requests, rate_limit_window_secs, rate_limit_active_torrents, created_at, updated_at";

/// Which push notifications a user wants.
#[derive(Debug, Clone, Copy, PartialEq, Eq, Structural)]
pub struct NotificationPrefs {
    pub notify_imported: bool,
    pub notify_download_finished: bool,
    pub notify_pack_ready: bool,
    pub notify_failures: bool,
}

/// The kinds of push notification.
#[derive(Debug, Clone, Copy, PartialEq, Eq, Structural)]
pub enum NotifyKind {
    Imported,
    DownloadFinished,
    PackReady,
    Failure,
}

impl NotificationPrefs {
    pub open spec fn spec_allows(&self, kind: NotifyKind) -> bool {
        match kind {
            NotifyKind::Imported => self.notify_imported,
            NotifyKind::DownloadFinished => self.notify_download_finished,
            NotifyKind::PackReady => self.notify_pack_ready,
            NotifyKind::Failure => self.notify_failures,
        }
    }

    /// Whether a notification of this kind may be sent.
    pub fn allows(&self, kind: NotifyKind) -> (r: bool)
        ensures
            r == self.spec_allows(kind),
    {
        match kind {
            NotifyKind::Imported => self.notify_imported,
            NotifyKind::DownloadFinished => self.notify_download_finished,
            NotifyKind::PackReady => self.notify_pack_ready,
            NotifyKind::Failure => self.notify_failures,
        }
    }

    pub open spec fn spec_from_user(u: &User) -> NotificationPrefs {
        NotificationPrefs {
            notify_imported: u.notify_imported,
            notify_download_finished: u.notify_download_finished,
            notify_pack_ready: u.notify_pack_ready,
            notify_failures: u.notify_failures,
        }
    }

    /// The four notification flags of a user.
    pub fn from_user(u: &User) -> (r: NotificationPrefs)
        ensures
            r == NotificationPrefs::spec_from_user(u),
    {
        NotificationPrefs {
            notify_imported: u.notify_imported,
            notify_download_finished: u.notify_download_finished,
            notify_pack_ready: u.notify_pack_ready,
            notify_failures: u.notify_failures,
        }
    }
}

impl User {
    pub open spec fn spec_is_root(&self) -> bool {
        self.role@ == lit_root()
    }

    /// The account is the administrator (`role == "root"`).
    pub fn is_root(&self) -> (r: bool)
        ensures
            r == self.spec_is_root(),
    {
        let root: [char; 4] = ['r', 'o', 'o', 't'];
        assert(root@ =~= lit_root());
        str_is(self.role.as_str(), &root)
    }

    /// The user's notification preferences.
    pub fn notification_prefs(&self) -> (r: NotificationPrefs)
        ensures
            r == NotificationPrefs::spec_from_user(self),
    {
        NotificationPrefs::from_user(self)
    }
}

/// Global settings (one row).
#[derive(Debug, Clone)]
pub struct Settings {
    pub id: i64,
    pub qbittorrent_url: String,
    pub qbittorrent_username: String,
    pub qbittorrent_password: String,
    pub download_path: String,
    pub library_path: String,
    pub path_template: String,
    pub audible_region: String,
    pub metadata_provider_url: String,
    pub sync_interval_ms: i64,
    pub vapid_public_key: String,
    pub vapid_private_key: String,
    pub vapid_subject: String,
    pub audiobookshelf_url: String,
    pub audiobookshelf_token: String,
    pub abs_user_sync_enabled: bool,
    pub abs_user_sync_interval_ms: i64,
    pub abs_user_default_password: String,
    pub abs_user_sync_libraries: bool,
    pub abs_user_last_sync_at: Option<String>,
    /// 0 = unlimited.
    pub rate_limit_requests: i64,
    pub rate_limit_window_secs: i64,
    pub rate_limit_active_torrents: i64,
    pub updated_at: String,
}

/// Settings as shown to the administrator: secrets are replaced by whether
/// they are set.
#[derive(Debug, Clone)]
pub struct SettingsPublic {
    pub qbittorrent_url: String,
    pub qbittorrent_username: String,
    pub qbittorrent_password_set: bool,
    pub download_path: String,
    pub library_path: String,
    pub path_template: String,
    pub audible_region: String,
    pub metadata_provider_url: String,
    pub sync_interval_ms: i64,
    pub vapid_public_key: String,
    pub vapid_configured: bool,
    pub audiobookshelf_url: String,
    pub audiobookshelf_token_set: bool,
    pub abs_user_sync_enabled: bool,
    pub abs_user_sync_interval_ms: i64,
    pub abs_user_default_password_set: bool,
    pub abs_user_sync_libraries: bool,
    pub abs_user_last_sync_at: Option<String>,
    pub rate_limit_requests: i64,
    pub rate_limit_window_secs: i64,
    pub rate_limit_active_torrents: i64,
}

impl SettingsPublic {
    /// The public view of the settings: every plain field is copied, and
    /// each secret becomes a flag saying whether it is non-empty (the VAPID
    /// flag needs both keys).
    pub open spec fn spec_from(s: Settings) -> SettingsPublic {
        SettingsPublic {
            qbittorrent_url: s.qbittorrent_url,
            qbittorrent_username: s.qbittorrent_username,
            qbittorrent_password_set: s.qbittorrent_password@.len() > 0,
            download_path: s.download_path,
            library_path: s.library_path,
            path_template: s.path_template,
            audible_region: s.audible_region,
            metadata_provider_url: s.metadata_provider_url,
            sync_interval_ms: s.sync_interval_ms,
            vapid_public_key: s.vapid_public_key,
            vapid_configured: s.vapid_public_key@.len() > 0 && s.vapid_private_key@.len() > 0,
            audiobookshelf_url: s.audiobookshelf_url,
            audiobookshelf_token_set: s.audiobookshelf_token@.len() > 0,
            abs_user_sync_enabled: s.abs_user_sync_enabled,
            abs_user_sync_interval_ms: s.abs_user_sync_interval_ms,
            abs_user_default_password_set: s.abs_user_default_password@.len() > 0,
            abs_user_sync_libraries: s.abs_user_sync_libraries,
            abs_user_last_sync_at: s.abs_user_last_sync_at,
            rate_limit_requests: s.rate_limit_requests,
            rate_limit_window_secs: s.rate_limit_window_secs,
            rate_limit_active_torrents: s.rate_limit_active_torrents,
        }
    }

    pub fn from_settings(s: Settings) -> (r: SettingsPublic)
        ensures
            r == SettingsPublic::spec_from(s),
    {
        let vapid_configured = !s.vapid_public_key.as_str().is_empty()
            && !s.vapid_private_key.as_str().is_empty();
        SettingsPublic {
            qbittorrent_url: s.qbittorrent_url,
            qbittorrent_username: s.qbittorrent_username,
            qbittorrent_password_set: !s.qbittorrent_password.as_str().is_empty(),
            download_path: s.download_path,
            library_path: s.library_path,
            path_template: s.path_template,
            audible_region: s.audible_region,
            metadata_provider_url: s.metadata_provider_url,
            sync_interval_ms: s.sync_interval_ms,
            vapid_public_key: s.vapid_public_key,
            vapid_configured: vapid_configured,
            audiobookshelf_url: s.audiobookshelf_url,
            audiobookshelf_token_set: !s.audiobookshelf_token.as_str().is_empty(),
            abs_user_sync_enabled: s.abs_user_sync_enabled,
            abs_user_sync_interval_ms: s.abs_user_sync_interval_ms,
            abs_user_default_password_set: !s.abs_user_default_password.as_str().is_empty(),
            abs_user_sync_libraries: s.abs_user_sync_libraries,
            abs_user_last_sync_at: s.abs_user_last_sync_at,
            rate_limit_requests: s.rate_limit_requests,
            rate_limit_window_secs: s.rate_limit_window_secs,
            rate_limit_active_torrents: s.rate_limit_active_torrents,
        }
    }
}

/// An Audiobookshelf library and where it is mounted in this container.
#[derive(Debug, Clone)]
pub struct Library {
    pub id: i64,
    pub name: String,
    /// Writable root path inside the container.
    pub path: String,
    pub abs_id: Option<String>,
    /// Path reported by Audiobookshelf (informational).
    pub abs_path: Option<String>,
    pub created_at: String,
}

pub open spec fn lit_unset() -> Seq<char> {
    seq!['_', '_', 'u', 'n', 's', 'e', 't', '_', '_']
}

impl Library {
    pub open spec fn spec_path_needs_config(path: Seq<char>) -> bool {
        let p = trim(path);
        p.len() == 0 || starts_with(p, lit_unset())
    }

    /// The library still has the placeholder path given before an
    /// administrator set the mount point: blank, or starting with
    /// `__unset__` (after trimming).
    pub fn path_needs_config(path: &str) -> (r: bool)
        ensures
            r == Library::spec_path_needs_config(path@),
    {
        let p = trim_str(path);
        let unset: [char; 9] = ['_', '_', 'u', 'n', 's', 'e', 't', '_', '_'];
        assert(unset@ =~= lit_unset());
        p.len() == 0 || starts_with_exec(p.as_slice(), &unset)
    }
}

/// One book mapped from a pack download.
#[derive(Debug, Clone)]
pub struct DownloadItem {
    pub id: i64,
    pub download_id: i64,
    pub source_path: String,
    pub library_id: i64,
    pub status: String,
    pub destination_path: Option<String>,
    pub error_message: Option<String>,
    pub created_at: String,
    pub updated_at: String,
    pub imported_at: Option<String>,
}

/// Audible metadata stored for a download or a pack item; `authors` and
/// `narrators` hold JSON arrays of names.
#[derive(Debug, Clone)]
pub struct BookMetadata {
    pub id: i64,
    pub download_id: i64,
    pub download_item_id: Option<i64>,
    pub asin: String,
    pub title: String,
    pub subtitle: Option<String>,
    pub authors: String,
    pub narrators: String,
    pub series: Option<String>,
    pub series_index: Option<String>,
    pub cover_url: Option<String>,
    pub description: Option<String>,
    pub region: String,
    pub created_at: String,
}

/// One source path of a pack item.
#[derive(Debug, Clone)]
pub struct DownloadItemSource {
    pub id: i64,
    pub download_id: i64,
    pub download_item_id: i64,
    pub source_path: String,
}

/// A pack item with its source paths and metadata.
#[derive(Debug, Clone)]
pub struct DownloadItemWithMetadata {
    pub item: DownloadItem,
    pub source_paths: Vec<String>,
    pub metadata: Option<BookMetadataPublic>,
}

/// Metadata as shown to users, with the name lists decoded.
#[derive(Debug, Clone)]
pub struct BookMetadataPublic {
    pub asin: String,
    pub title: String,
    pub subtitle: Option<String>,
    pub authors: Vec<String>,
    pub narrators: Vec<String>,
    pub series: Option<String>,
    pub series_index: Option<String>,
    pub cover_url: Option<String>,
    pub description: Option<String>,
    pub region: String,
}

/// What `serde_json::from_str::<Vec<String>>` returns for a text: the list
/// of strings when the text is a JSON array of strings.
pub uninterp spec fn spec_json_string_list(text: Seq<char>) -> Option<Seq<Seq<char>>>;

/// `serde_json::from_str::<Vec<String>>`, `None` when the text is not a JSON
/// array of strings.
#[verifier::external_body]
pub(crate) fn json_string_list(text: &str) -> (r: Option<Vec<String>>)
    ensures
        match r {
            Some(v) => spec_json_string_list(text@) == Some(seqs_view(v@)),
            None => spec_json_string_list(text@) is None,
        },
{
    serde_json::from_str::<Vec<String>>(text).ok()
}

/// A JSON list of names, empty when the text is not one.
pub open spec fn spec_names(text: Seq<char>) -> Seq<Seq<char>> {
    match spec_json_string_list(text) {
        Some(v) => v,
        None => Seq::empty(),
    }
}

pub fn names_from_json(text: &str) -> (r: Vec<String>)
    ensures
        seqs_view(r@) == spec_names(text@),
{
    match json_string_list(text) {
        Some(v) => v,
        None => {
            let v: Vec<String> = Vec::new();
            assert(seqs_view(v@) =~= Seq::<Seq<char>>::empty());
            v
        },
    }
}

impl BookMetadataPublic {
    /// The public form of stored metadata: the author and narrator lists are
    /// decoded from JSON (an undecodable list becomes empty); the other
    /// fields are copied.
    pub fn from_metadata(m: BookMetadata) -> (r: BookMetadataPublic)
        ensures
            r.asin == m.asin,
            r.title == m.title,
            r.subtitle == m.subtitle,
            seqs_view(r.authors@) == spec_names(m.authors@),
            seqs_view(r.narrators@) == spec_names(m.narrators@),
            r.series == m.series,
            r.series_index == m.series_index,
            r.cover_url == m.cover_url,
            r.description == m.description,
            r.region == m.region,
    {
        let authors = names_from_json(m.authors.as_str());
        let narrators = names_from_json(m.narrators.as_str());
        BookMetadataPublic {
            asin: m.asin,
            title: m.title,
            subtitle: m.subtitle,
            authors,
            narrators,
            series: m.series,
            series_index: m.series_index,
            cover_url: m.cover_url,
            description: m.description,
            region: m.region,
        }
    }
}

/// The signed-in user as shown to clients.
#[derive(Debug, Clone)]
pub struct AuthUser {
    pub id: i64,
    pub username: String,
    pub role: String,
    pub must_change_password: bool,
}

impl AuthUser {
    pub fn from_user(u: User) -> (r: AuthUser)
        ensures
            r.id == u.id,
            r.username == u.username,
            r.role == u.role,
            r.must_change_password == u.must_change_password,
    {
        AuthUser {
            id: u.id,
            username: u.username,
            role: u.role,
            must_change_password: u.must_change_password,
        }
    }
}

} // verus!
