//! The life of a download: the statuses a download and a pack item go
//! through, and what is decided on each qBittorrent poll, each import and
//! each action a user takes on a download.
use vstd::prelude::*;

use crate::error::{bad_request, fails_bad, fails_conflict, is_bad_request, AppError};
use crate::lits::{
    lit_awaiting_map, lit_awaiting_match, lit_checking_dl, lit_completed, lit_copying,
    lit_downloading, lit_error, lit_forced_dl, lit_imported, lit_meta_dl, lit_missing_files,
    lit_pack, lit_partial, lit_pending, lit_queued, lit_queued_dl, lit_ready, lit_single,
    lit_stalled_dl, mk_awaiting_map, mk_awaiting_match, mk_checking_dl, mk_completed, mk_copying,
    mk_downloading, mk_error, mk_forced_dl, mk_imported, mk_meta_dl, mk_missing_files, mk_pack,
    mk_partial, mk_pending, mk_queued, mk_queued_dl, mk_ready, mk_single, mk_stalled_dl,
};
use crate::models::str_is;

verus! {

/// Status of a download.
#[derive(Debug, Clone, Copy, PartialEq, Eq, Structural)]
pub enum DownloadStatus {
    AwaitingMatch,
    Queued,
    Downloading,
    Completed,
    Copying,
    AwaitingMap,
    Partial,
    Imported,
    Error,
}

impl DownloadStatus {
    pub open spec fn spec_as_str(&self) -> Seq<char> {
        match self {
            DownloadStatus::AwaitingMatch => lit_awaiting_match(),
            DownloadStatus::Queued => lit_queued(),
            DownloadStatus::Downloading => lit_downloading(),
            DownloadStatus::Completed => lit_completed(),
            DownloadStatus::Copying => lit_copying(),
            DownloadStatus::AwaitingMap => lit_awaiting_map(),
            DownloadStatus::Partial => lit_partial(),
            DownloadStatus::Imported => lit_imported(),
            DownloadStatus::Error => lit_error(),
        }
    }

    /// The stored form of the status.
    pub fn as_str(&self) -> (r: &'static str)
        ensures
            r@ == self.spec_as_str(),
    {
        match self {
            DownloadStatus::AwaitingMatch => {
                proof {
                    reveal_strlit("awaiting_match");
                }
                "awaiting_match"
            },
            DownloadStatus::Queued => {
                proof {
                    reveal_strlit("queued");
                }
                "queued"
            },
            DownloadStatus::Downloading => {
                proof {
                    reveal_strlit("downloading");
                }
                "downloading"
            },
            DownloadStatus::Completed => {
                proof {
                    reveal_strlit("completed");
                }
                "completed"
            },
            DownloadStatus::Copying => {
                proof {
                    reveal_strlit("copying");
                }
                "copying"
            },
            DownloadStatus::AwaitingMap => {
                proof {
                    reveal_strlit("awaiting_map");
                }
                "awaiting_map"
            },
            DownloadStatus::Partial => {
                proof {
                    reveal_strlit("partial");
                }
                "partial"
            },
            DownloadStatus::Imported => {
                proof {
                    reveal_strlit("imported");
                }
                "imported"
            },
            DownloadStatus::Error => {
                proof {
                    reveal_strlit("error");
                }
                "error"
            },
        }
    }

    pub open spec fn spec_parse(s: Seq<char>) -> Option<DownloadStatus> {
        if s == lit_awaiting_match() {
            Some(DownloadStatus::AwaitingMatch)
        } else if s == lit_queued() {
            Some(DownloadStatus::Queued)
        } else if s == lit_downloading() {
            Some(DownloadStatus::Downloading)
        } else if s == lit_completed() {
            Some(DownloadStatus::Completed)
        } else if s == lit_copying() {
            Some(DownloadStatus::Copying)
        } else if s == lit_awaiting_map() {
            Some(DownloadStatus::AwaitingMap)
        } else if s == lit_partial() {
            Some(DownloadStatus::Partial)
        } else if s == lit_imported() {
            Some(DownloadStatus::Imported)
        } else if s == lit_error() {
            Some(DownloadStatus::Error)
        } else {
            None
        }
    }

    /// Reads a stored status; any other text is no status.
    pub fn parse(s: &str) -> (r: Option<DownloadStatus>)
        ensures
            r == DownloadStatus::spec_parse(s@),
    {
        if str_is(s, mk_awaiting_match().as_slice()) {
            Some(DownloadStatus::AwaitingMatch)
        } else if str_is(s, mk_queued().as_slice()) {
            Some(DownloadStatus::Queued)
        } else if str_is(s, mk_downloading().as_slice()) {
            Some(DownloadStatus::Downloading)
        } else if str_is(s, mk_completed().as_slice()) {
            Some(DownloadStatus::Completed)
        } else if str_is(s, mk_copying().as_slice()) {
            Some(DownloadStatus::Copying)
        } else if str_is(s, mk_awaiting_map().as_slice()) {
            Some(DownloadStatus::AwaitingMap)
        } else if str_is(s, mk_partial().as_slice()) {
            Some(DownloadStatus::Partial)
        } else if str_is(s, mk_imported().as_slice()) {
            Some(DownloadStatus::Imported)
        } else if str_is(s, mk_error().as_slice()) {
            Some(DownloadStatus::Error)
        } else {
            None
        }
    }
}

/// Status of one book of a pack.
#[derive(Debug, Clone, Copy, PartialEq, Eq, Structural)]
pub enum ItemStatus {
    Pending,
    Ready,
    Copying,
    Imported,
    Error,
}

impl ItemStatus {
    pub open spec fn spec_as_str(&self) -> Seq<char> {
        match self {
            ItemStatus::Pending => lit_pending(),
            ItemStatus::Ready => lit_ready(),
            ItemStatus::Copying => lit_copying(),
            ItemStatus::Imported => lit_imported(),
            ItemStatus::Error => lit_error(),
        }
    }

    /// The stored form of the status.
    pub fn as_str(&self) -> (r: &'static str)
        ensures
            r@ == self.spec_as_str(),
    {
        match self {
            ItemStatus::Pending => {
                proof {
                    reveal_strlit("pending");
                }
                "pending"
            },
            ItemStatus::Ready => {
                proof {
                    reveal_strlit("ready");
                }
                "ready"
            },
            ItemStatus::Copying => {
                proof {
                    reveal_strlit("copying");
                }
                "copying"
            },
            ItemStatus::Imported => {
                proof {
                    reveal_strlit("imported");
                }
                "imported"
            },
            ItemStatus::Error => {
                proof {
                    reveal_strlit("error");
                }
                "error"
            },
        }
    }

    pub open spec fn spec_parse(s: Seq<char>) -> Option<ItemStatus> {
        if s == lit_pending() {
            Some(ItemStatus::Pending)
        } else if s == lit_ready() {
            Some(ItemStatus::Ready)
        } else if s == lit_copying() {
            Some(ItemStatus::Copying)
        } else if s == lit_imported() {
            Some(ItemStatus::Imported)
        } else if s == lit_error() {
            Some(ItemStatus::Error)
        } else {
            None
        }
    }

    /// Reads a stored item status; any other text is no status.
    pub fn parse(s: &str) -> (r: Option<ItemStatus>)
        ensures
            r == ItemStatus::spec_parse(s@),
    {
        if str_is(s, mk_pending().as_slice()) {
            Some(ItemStatus::Pending)
        } else if str_is(s, mk_ready().as_slice()) {
            Some(ItemStatus::Ready)
        } else if str_is(s, mk_copying().as_slice()) {
            Some(ItemStatus::Copying)
        } else if str_is(s, mk_imported().as_slice()) {
            Some(ItemStatus::Imported)
        } else if str_is(s, mk_error().as_slice()) {
            Some(ItemStatus::Error)
        } else {
            None
        }
    }
}

/// Whether a download is one book or a pack of books mapped one by one.
#[derive(Debug, Clone, Copy, PartialEq, Eq, Structural)]
pub enum DownloadKind {
    Single,
    Pack,
}

impl DownloadKind {
    pub open spec fn spec_as_str(&self) -> Seq<char> {
        match self {
            DownloadKind::Single => lit_single(),
            DownloadKind::Pack => lit_pack(),
        }
    }

    pub fn as_str(&self) -> (r: &'static str)
        ensures
            r@ == self.spec_as_str(),
    {
        match self {
            DownloadKind::Single => {
                proof {
                    reveal_strlit("single");
                }
                "single"
            },
            DownloadKind::Pack => {
                proof {
                    reveal_strlit("pack");
                }
                "pack"
            },
        }
    }

    pub open spec fn spec_from_stored(s: Seq<char>) -> DownloadKind {
        if s == lit_pack() {
            DownloadKind::Pack
        } else {
            DownloadKind::Single
        }
    }

    /// Reads a stored kind: `pack` is a pack, anything else one book.
    pub fn from_stored(s: &str) -> (r: DownloadKind)
        ensures
            r == DownloadKind::spec_from_stored(s@),
    {
        if str_is(s, mk_pack().as_slice()) {
            DownloadKind::Pack
        } else {
            DownloadKind::Single
        }
    }
}

/// What qBittorrent's state of a torrent means for the download.
#[derive(Debug, Clone, Copy, PartialEq, Eq, Structural)]
pub enum TorrentState {
    Queued,
    Downloading,
    Completed,
    Error,
}

impl TorrentState {
    /// The download status that the torrent state stands for.
    pub open spec fn spec_status(&self) -> DownloadStatus {
        match self {
            TorrentState::Queued => DownloadStatus::Queued,
            TorrentState::Downloading => DownloadStatus::Downloading,
            TorrentState::Completed => DownloadStatus::Completed,
            TorrentState::Error => DownloadStatus::Error,
        }
    }

    pub fn status(&self) -> (r: DownloadStatus)
        ensures
            r == self.spec_status(),
    {
        match self {
            TorrentState::Queued => DownloadStatus::Queued,
            TorrentState::Downloading => DownloadStatus::Downloading,
            TorrentState::Completed => DownloadStatus::Completed,
            TorrentState::Error => DownloadStatus::Error,
        }
    }
}

pub open spec fn spec_map_state(state: Seq<char>, finished: bool) -> TorrentState {
    if finished {
        TorrentState::Completed
    } else if state == lit_error() || state == lit_missing_files() {
        TorrentState::Error
    } else if state == lit_queued_dl() || state == lit_checking_dl() || state == lit_stalled_dl()
        || state == lit_downloading() || state == lit_meta_dl() || state == lit_forced_dl() {
        TorrentState::Downloading
    } else {
        TorrentState::Queued
    }
}

/// Maps qBittorrent's state of a torrent; `finished` says whether its
/// progress has reached 1.0, which makes it completed whatever the state.
pub fn map_state(state: &str, finished: bool) -> (r: TorrentState)
    ensures
        r == spec_map_state(state@, finished),
{
    if finished {
        return TorrentState::Completed;
    }
    if str_is(state, mk_error().as_slice()) || str_is(state, mk_missing_files().as_slice()) {
        TorrentState::Error
    } else if str_is(state, mk_queued_dl().as_slice()) || str_is(state, mk_checking_dl().as_slice())
        || str_is(state, mk_stalled_dl().as_slice()) || str_is(state, mk_downloading().as_slice())
        || str_is(state, mk_meta_dl().as_slice()) || str_is(state, mk_forced_dl().as_slice()) {
        TorrentState::Downloading
    } else {
        TorrentState::Queued
    }
}

} // verus!

verus! {

/// Reading back the stored form of a download status gives the status.
pub proof fn lemma_download_status_round_trip(s: DownloadStatus)
    ensures
        DownloadStatus::spec_parse(s.spec_as_str()) == Some(s),
{
    assert(lit_awaiting_match().len() == 14 && lit_queued().len() == 6
        && lit_downloading().len() == 11 && lit_completed().len() == 9 && lit_copying().len() == 7
        && lit_awaiting_map().len() == 12 && lit_partial().len() == 7 && lit_imported().len() == 8
        && lit_error().len() == 5);
    assert(lit_copying()[0] != lit_partial()[0]);
}

/// Reading back the stored form of an item status gives the status.
pub proof fn lemma_item_status_round_trip(s: ItemStatus)
    ensures
        ItemStatus::spec_parse(s.spec_as_str()) == Some(s),
{
    assert(lit_pending().len() == 7 && lit_ready().len() == 5 && lit_copying().len() == 7
        && lit_imported().len() == 8 && lit_error().len() == 5);
    assert(lit_pending()[0] != lit_copying()[0]);
    assert(lit_ready()[0] != lit_error()[0]);
}

/// Reading back the stored form of a kind gives the kind.
pub proof fn lemma_kind_round_trip(k: DownloadKind)
    ensures
        DownloadKind::spec_from_stored(k.spec_as_str()) == k,
{
    assert(lit_single().len() == 6 && lit_pack().len() == 4);
}

} // verus!

verus! {

// ---------------------------------------------------------------------------
// The qBittorrent poll
// ---------------------------------------------------------------------------

/// What is done with a polled download whose torrent qBittorrent no longer
/// lists.
#[derive(Debug, Clone, Copy, PartialEq, Eq, Structural)]
pub struct MissingTorrentPlan {
    /// Mark the download failed and tell its owner.
    pub mark_error: bool,
    /// Try to import mapped pack books from disk all the same.
    pub import: bool,
}

pub open spec fn spec_missing_torrent_plan(status: DownloadStatus, kind: DownloadKind) -> MissingTorrentPlan {
    MissingTorrentPlan {
        mark_error: !(status == DownloadStatus::Queued || status == DownloadStatus::Error || status
            == DownloadStatus::AwaitingMap || status == DownloadStatus::Partial || status
            == DownloadStatus::Imported),
        import: kind == DownloadKind::Pack && (status == DownloadStatus::AwaitingMap || status
            == DownloadStatus::Partial || status == DownloadStatus::Completed),
    }
}

pub fn plan_missing_torrent(status: DownloadStatus, kind: DownloadKind) -> (r: MissingTorrentPlan)
    ensures
        r == spec_missing_torrent_plan(status, kind),
{
    let quiet = match status {
        DownloadStatus::Queued | DownloadStatus::Error | DownloadStatus::AwaitingMap
        | DownloadStatus::Partial | DownloadStatus::Imported => true,
        _ => false,
    };
    let mapped_pack = match kind {
        DownloadKind::Pack => match status {
            DownloadStatus::AwaitingMap | DownloadStatus::Partial | DownloadStatus::Completed => true,
            _ => false,
        },
        DownloadKind::Single => false,
    };
    MissingTorrentPlan { mark_error: !quiet, import: mapped_pack }
}

/// What is written for a polled download whose torrent qBittorrent lists.
#[derive(Debug, Clone, Copy, PartialEq, Eq, Structural)]
pub struct PollPlan {
    /// The status written.
    pub status: DownloadStatus,
    /// Record qBittorrent's state as the error message (else it is cleared).
    pub record_error: bool,
    /// Set the completion time to now (else it is kept).
    pub stamp_completed: bool,
    /// Turn the pack's pending books ready.
    pub promote_pending_items: bool,
    /// The torrent has just finished.
    pub newly_completed: bool,
    /// The torrent has just failed.
    pub newly_failed: bool,
    /// Run the import afterwards.
    pub import: bool,
}

pub open spec fn waits_for_map(s: DownloadStatus) -> bool {
    s == DownloadStatus::AwaitingMap || s == DownloadStatus::Partial
}

/// The status written on a poll: a download waiting for a match keeps its
/// status, and a pack waiting for mapping (or partly imported) keeps its
/// status once the torrent is complete.
pub open spec fn spec_poll_status(current: DownloadStatus, mapped: TorrentState) -> DownloadStatus {
    let completed = mapped == TorrentState::Completed;
    let computed = if waits_for_map(current) && completed {
        current
    } else if completed {
        DownloadStatus::Completed
    } else {
        mapped.spec_status()
    };
    if current == DownloadStatus::AwaitingMatch {
        current
    } else if waits_for_map(current) && computed == DownloadStatus::Completed {
        current
    } else {
        computed
    }
}

pub open spec fn spec_poll_plan(
    current: DownloadStatus,
    mapped: TorrentState,
    has_completed_at: bool,
) -> Option<PollPlan> {
    let completed = mapped == TorrentState::Completed;
    if current == DownloadStatus::Copying || current == DownloadStatus::Imported {
        None
    } else {
        Some(
            PollPlan {
                status: spec_poll_status(current, mapped),
                record_error: mapped == TorrentState::Error,
                stamp_completed: completed && !has_completed_at,
                promote_pending_items: completed,
                newly_completed: completed && (current == DownloadStatus::Queued || current
                    == DownloadStatus::Downloading),
                newly_failed: mapped == TorrentState::Error && current != DownloadStatus::Error,
                import: completed || waits_for_map(current) || current == DownloadStatus::Completed,
            },
        )
    }
}

/// Decides what a poll writes for a download whose torrent is listed;
/// `None` when the download is being copied or is imported, which a poll
/// leaves alone.
pub fn plan_poll(current: DownloadStatus, mapped: TorrentState, has_completed_at: bool) -> (r: Option<PollPlan>)
    ensures
        r == spec_poll_plan(current, mapped, has_completed_at),
{
    match current {
        DownloadStatus::Copying | DownloadStatus::Imported => {
            return None;
        },
        _ => {},
    }
    let completed = match mapped {
        TorrentState::Completed => true,
        _ => false,
    };
    let failed = match mapped {
        TorrentState::Error => true,
        _ => false,
    };
    let waits = match current {
        DownloadStatus::AwaitingMap | DownloadStatus::Partial => true,
        _ => false,
    };
    let computed = if waits && completed {
        current
    } else if completed {
        DownloadStatus::Completed
    } else {
        mapped.status()
    };
    let computed_completed = match computed {
        DownloadStatus::Completed => true,
        _ => false,
    };
    let status = match current {
        DownloadStatus::AwaitingMatch => current,
        _ => if waits && computed_completed {
            current
        } else {
            computed
        },
    };
    let was_running = match current {
        DownloadStatus::Queued | DownloadStatus::Downloading => true,
        _ => false,
    };
    let was_error = match current {
        DownloadStatus::Error => true,
        _ => false,
    };
    let was_completed = match current {
        DownloadStatus::Completed => true,
        _ => false,
    };
    Some(
        PollPlan {
            status,
            record_error: failed,
            stamp_completed: completed && !has_completed_at,
            promote_pending_items: completed,
            newly_completed: completed && was_running,
            newly_failed: failed && !was_error,
            import: completed || waits || was_completed,
        },
    )
}

} // verus!

verus! {

// ---------------------------------------------------------------------------
// Refreshing one download from qBittorrent on request
// ---------------------------------------------------------------------------

/// What a refresh on request writes for a download and its pack books.
#[derive(Debug, Clone, Copy, PartialEq, Eq, Structural)]
pub struct RefreshPlan {
    /// The status written.
    pub status: DownloadStatus,
    /// Record qBittorrent's state as the error message (else it is cleared).
    pub record_error: bool,
    /// Set the completion time to now (else it is kept).
    pub stamp_completed: bool,
    /// The save or content path differs from the stored one.
    pub paths_changed: bool,
    /// Turn the pack's pending books ready.
    pub promote_pending_items: bool,
    /// Look at the pack's failed books for ones to import again.
    pub requeue_failed_items: bool,
    /// Import every failed book again, whatever its error.
    pub requeue_all_failed: bool,
}

pub open spec fn or_empty(o: Option<Seq<char>>) -> Seq<char> {
    match o {
        Some(s) => s,
        None => Seq::empty(),
    }
}

/// The status written by a refresh: a download waiting for a match, being
/// copied or imported keeps its status; a complete pack keeps its mapping
/// status, except that a failed pack goes back to completed so that its
/// imports are tried again.
pub open spec fn spec_refresh_status(
    current: DownloadStatus,
    kind: DownloadKind,
    mapped: TorrentState,
) -> DownloadStatus {
    let completed = mapped == TorrentState::Completed;
    if current == DownloadStatus::AwaitingMatch || current == DownloadStatus::Imported || current
        == DownloadStatus::Copying {
        current
    } else if kind == DownloadKind::Pack && completed && (waits_for_map(current) || current
        == DownloadStatus::Completed || current == DownloadStatus::Error) {
        if current == DownloadStatus::Error {
            DownloadStatus::Completed
        } else {
            current
        }
    } else if completed {
        DownloadStatus::Completed
    } else {
        mapped.spec_status()
    }
}

pub open spec fn spec_refresh_plan(
    current: DownloadStatus,
    kind: DownloadKind,
    mapped: TorrentState,
    has_completed_at: bool,
    old_save: Option<Seq<char>>,
    old_content: Option<Seq<char>>,
    new_save: Seq<char>,
    new_content: Seq<char>,
) -> RefreshPlan {
    let completed = mapped == TorrentState::Completed;
    let changed = or_empty(old_save) != new_save || or_empty(old_content) != new_content;
    RefreshPlan {
        status: spec_refresh_status(current, kind, mapped),
        record_error: mapped == TorrentState::Error,
        stamp_completed: completed && !has_completed_at,
        paths_changed: changed,
        promote_pending_items: kind == DownloadKind::Pack && completed,
        requeue_failed_items: kind == DownloadKind::Pack,
        requeue_all_failed: changed || completed,
    }
}

fn opt_eq(a: Option<&str>, b: &str) -> (r: bool)
    ensures
        r == (or_empty(crate::text::opt_str_view(a)) == b@),
{
    match a {
        Some(x) => crate::models::str_eq(x, b),
        None => {
            let r = b.is_empty();
            assert(r == (Seq::<char>::empty() == b@)) by {
                if b@.len() == 0 {
                    assert(b@ =~= Seq::<char>::empty());
                }
            }
            r
        },
    }
}

/// Decides what refreshing a download from its listed torrent writes.
pub fn plan_refresh(
    current: DownloadStatus,
    kind: DownloadKind,
    mapped: TorrentState,
    has_completed_at: bool,
    old_save: Option<&str>,
    old_content: Option<&str>,
    new_save: &str,
    new_content: &str,
) -> (r: RefreshPlan)
    ensures
        r == spec_refresh_plan(
            current,
            kind,
            mapped,
            has_completed_at,
            crate::text::opt_str_view(old_save),
            crate::text::opt_str_view(old_content),
            new_save@,
            new_content@,
        ),
{
    let completed = match mapped {
        TorrentState::Completed => true,
        _ => false,
    };
    let is_pack = match kind {
        DownloadKind::Pack => true,
        DownloadKind::Single => false,
    };
    let kept = match current {
        DownloadStatus::AwaitingMatch | DownloadStatus::Imported | DownloadStatus::Copying => true,
        _ => false,
    };
    let pack_mapping = match current {
        DownloadStatus::AwaitingMap | DownloadStatus::Partial | DownloadStatus::Completed
        | DownloadStatus::Error => is_pack && completed,
        _ => false,
    };
    let was_error = match current {
        DownloadStatus::Error => true,
        _ => false,
    };
    let status = if kept {
        current
    } else if pack_mapping {
        if was_error {
            DownloadStatus::Completed
        } else {
            current
        }
    } else if completed {
        DownloadStatus::Completed
    } else {
        mapped.status()
    };
    let changed = !opt_eq(old_save, new_save) || !opt_eq(old_content, new_content);
    let failed = match mapped {
        TorrentState::Error => true,
        _ => false,
    };
    RefreshPlan {
        status,
        record_error: failed,
        stamp_completed: completed && !has_completed_at,
        paths_changed: changed,
        promote_pending_items: is_pack && completed,
        requeue_failed_items: is_pack,
        requeue_all_failed: changed || completed,
    }
}

/// `pat` occurs in `s` ignoring ASCII case (SQL `LIKE '%pat%'`).
pub open spec fn contains_ascii_ci(s: Seq<char>, pat: Seq<char>) -> bool {
    crate::text::contains(crate::text::lower_seq(s), crate::text::lower_seq(pat))
}

fn contains_ascii_ci_exec(s: &str, pat: &[char]) -> (b: bool)
    ensures
        b == contains_ascii_ci(s@, pat@),
{
    let v = crate::text::str_chars(s);
    let a = crate::text::to_ascii_lower(v.as_slice());
    let p = crate::text::to_ascii_lower(pat);
    crate::text::contains_exec(a.as_slice(), p.as_slice())
}

pub open spec fn spec_requeue_failed_item(msg: Option<Seq<char>>, requeue_all: bool) -> bool {
    requeue_all || match msg {
        Some(m) => contains_ascii_ci(m, crate::lits::lit_incomplete()) || contains_ascii_ci(
            m,
            crate::lits::lit_source_not_found(),
        ) || contains_ascii_ci(m, crate::lits::lit_does_not_exist()),
        None => false,
    }
}

/// Whether a failed pack book is imported again on a refresh: all of them
/// when the paths changed or the torrent is complete, else those whose
/// error speaks of an incomplete folder or a missing source.
pub fn requeue_failed_item(error_message: Option<&str>, requeue_all: bool) -> (r: bool)
    ensures
        r == spec_requeue_failed_item(crate::text::opt_str_view(error_message), requeue_all),
{
    if requeue_all {
        return true;
    }
    match error_message {
        Some(m) => {
            contains_ascii_ci_exec(m, crate::lits::mk_incomplete().as_slice())
                || contains_ascii_ci_exec(m, crate::lits::mk_source_not_found().as_slice())
                || contains_ascii_ci_exec(m, crate::lits::mk_does_not_exist().as_slice())
        },
        None => false,
    }
}

pub open spec fn spec_status_after_requeue(
    kind: DownloadKind,
    status: DownloadStatus,
    requeued: u64,
) -> DownloadStatus {
    if kind == DownloadKind::Pack && requeued > 0 && (waits_for_map(status) || status
        == DownloadStatus::Completed || status == DownloadStatus::Imported || status
        == DownloadStatus::Error) {
        DownloadStatus::Completed
    } else {
        status
    }
}

/// After a refresh put `requeued` pack books back to ready, the pack is
/// marked completed so that the poll imports them.
pub fn status_after_requeue(kind: DownloadKind, status: DownloadStatus, requeued: u64) -> (r: DownloadStatus)
    ensures
        r == spec_status_after_requeue(kind, status, requeued),
{
    let is_pack = match kind {
        DownloadKind::Pack => true,
        DownloadKind::Single => false,
    };
    let settled = match status {
        DownloadStatus::AwaitingMap | DownloadStatus::Partial | DownloadStatus::Completed
        | DownloadStatus::Imported | DownloadStatus::Error => true,
        _ => false,
    };
    if is_pack && requeued > 0 && settled {
        DownloadStatus::Completed
    } else {
        status
    }
}

// ---------------------------------------------------------------------------
// Importing
// ---------------------------------------------------------------------------

/// Which import a download takes.
#[derive(Debug, Clone, Copy, PartialEq, Eq, Structural)]
pub enum ImportRoute {
    /// Already imported or being copied: nothing to do.
    Skip,
    /// Import the pack's mapped books one by one.
    Pack,
    /// Import the one book.
    Single,
}

pub open spec fn spec_import_route(status: DownloadStatus, kind: DownloadKind) -> ImportRoute {
    if status == DownloadStatus::Imported || status == DownloadStatus::Copying {
        ImportRoute::Skip
    } else if kind == DownloadKind::Pack {
        ImportRoute::Pack
    } else {
        ImportRoute::Single
    }
}

pub fn import_route(status: DownloadStatus, kind: DownloadKind) -> (r: ImportRoute)
    ensures
        r == spec_import_route(status, kind),
{
    match status {
        DownloadStatus::Imported | DownloadStatus::Copying => ImportRoute::Skip,
        _ => match kind {
            DownloadKind::Pack => ImportRoute::Pack,
            DownloadKind::Single => ImportRoute::Single,
        },
    }
}

pub open spec fn importable(s: ItemStatus) -> bool {
    s == ItemStatus::Ready || s == ItemStatus::Error
}

/// Positions of the items to import, in order.
pub open spec fn importable_positions(items: Seq<ItemStatus>) -> Seq<usize>
    decreases items.len(),
{
    if items.len() == 0 {
        Seq::empty()
    } else {
        let rest = importable_positions(items.drop_last());
        if importable(items.last()) {
            rest.push((items.len() - 1) as usize)
        } else {
            rest
        }
    }
}

/// The pack books that an import takes: the ready ones and the failed ones,
/// as positions in `items`, in order.
pub fn importable_items(items: &[ItemStatus]) -> (r: Vec<usize>)
    ensures
        r@ == importable_positions(items@),
{
    let mut r: Vec<usize> = Vec::new();
    let mut i: usize = 0;
    while i < items.len()
        invariant
            i <= items.len(),
            r@ == importable_positions(items@.take(i as int)),
        decreases items.len() - i,
    {
        assert(items@.take(i + 1).drop_last() =~= items@.take(i as int));
        match items[i] {
            ItemStatus::Ready | ItemStatus::Error => {
                r.push(i);
            },
            _ => {},
        }
        i += 1;
    }
    assert(items@.take(items.len() as int) =~= items@);
    r
}

pub open spec fn spec_pack_status(total: i64, imported: i64, remaining: i64) -> DownloadStatus {
    if total == 0 {
        DownloadStatus::AwaitingMap
    } else if remaining == 0 && imported > 0 {
        DownloadStatus::Imported
    } else if imported > 0 {
        DownloadStatus::Partial
    } else {
        DownloadStatus::AwaitingMap
    }
}

/// The status of a pack after an import pass, from the counts of its books:
/// all of them, the imported ones, and those still to import.
pub fn pack_status(total: i64, imported: i64, remaining: i64) -> (r: DownloadStatus)
    ensures
        r == spec_pack_status(total, imported, remaining),
{
    if total == 0 {
        DownloadStatus::AwaitingMap
    } else if remaining == 0 && imported > 0 {
        DownloadStatus::Imported
    } else if imported > 0 {
        DownloadStatus::Partial
    } else {
        DownloadStatus::AwaitingMap
    }
}

pub open spec fn library_fallback(settings_library_path: Seq<char>) -> Option<Seq<char>> {
    if crate::text::trim(settings_library_path).len() > 0 {
        Some(settings_library_path)
    } else {
        None
    }
}

pub open spec fn spec_library_root(
    library_id: Option<i64>,
    row_path: Option<Seq<char>>,
    settings_library_path: Seq<char>,
) -> Option<Seq<char>> {
    match library_id {
        Some(_) => match row_path {
            Some(p) => if crate::models::Library::spec_path_needs_config(p) {
                None
            } else {
                Some(p)
            },
            None => library_fallback(settings_library_path),
        },
        None => library_fallback(settings_library_path),
    }
}

/// The folder a book is imported into: the path of its library when it has
/// one (none while that path is a placeholder), else the global library
/// path unless it is blank. `row_path` is the stored path of the library
/// `library_id` names, `None` when no such library exists.
pub fn library_root_for(
    library_id: Option<i64>,
    row_path: Option<String>,
    settings_library_path: &str,
) -> (r: Option<String>)
    ensures
        crate::text::opt_string_view(r) == spec_library_root(
            library_id,
            crate::text::opt_string_view(row_path),
            settings_library_path@,
        ),
{
    let use_row = match library_id {
        Some(_) => row_path.is_some(),
        None => false,
    };
    if use_row {
        let p = row_path.unwrap();
        if crate::models::Library::path_needs_config(p.as_str()) {
            None
        } else {
            Some(p)
        }
    } else {
        let t = crate::text::trim_str(settings_library_path);
        if t.len() > 0 {
            Some(settings_library_path.to_owned())
        } else {
            None
        }
    }
}

} // verus!

verus! {

// ---------------------------------------------------------------------------
// Requests on a download
// ---------------------------------------------------------------------------

/// A new download: a magnet link or info hash, an optional name, and the
/// kind (`single` when absent).
#[derive(Debug, Clone)]
pub struct CreateDownloadRequest {
    pub input: String,
    pub name: Option<String>,
    pub kind: Option<String>,
}

/// The Audible match chosen for a single download, and its library.
#[derive(Debug, Clone)]
pub struct MatchRequest {
    pub match_data: crate::metadata::MetadataMatch,
    pub library_id: Option<i64>,
}

/// Files or folders of a pack mapped to one Audible book.
#[derive(Debug, Clone)]
pub struct MapItemRequest {
    /// Legacy single path; `source_paths` is preferred.
    pub source_path: Option<String>,
    pub source_paths: Option<Vec<String>>,
    pub match_data: crate::metadata::MetadataMatch,
    pub library_id: Option<i64>,
}

pub open spec fn spec_request_kind(kind: Option<Seq<char>>) -> Result<DownloadKind, Seq<char>> {
    match kind {
        None => Ok(DownloadKind::Single),
        Some(k) => if k == lit_pack() {
            Ok(DownloadKind::Pack)
        } else if k == lit_single() || k.len() == 0 {
            Ok(DownloadKind::Single)
        } else {
            Err(crate::lits::lit_invalid_kind_a() + k + crate::lits::lit_invalid_kind_b())
        },
    }
}

/// The kind asked for when creating a download: `pack`, or `single` (also
/// when absent or empty); anything else is refused, naming the kind.
pub fn parse_request_kind(kind: Option<&str>) -> (r: Result<DownloadKind, AppError>)
    ensures
        match spec_request_kind(crate::text::opt_str_view(kind)) {
            Ok(k) => r == Ok::<DownloadKind, AppError>(k),
            Err(msg) => r matches Err(e) && is_bad_request(e, msg),
        },
{
    match kind {
        None => Ok(DownloadKind::Single),
        Some(k) => {
            if str_is(k, mk_pack().as_slice()) {
                Ok(DownloadKind::Pack)
            } else if str_is(k, mk_single().as_slice()) || k.is_empty() {
                Ok(DownloadKind::Single)
            } else {
                let mut v = crate::lits::mk_invalid_kind_a();
                let kc = crate::text::str_chars(k);
                crate::text::extend_chars(&mut v, kc.as_slice());
                let b = crate::lits::mk_invalid_kind_b();
                crate::text::extend_chars(&mut v, b.as_slice());
                Err(AppError::BadRequest(crate::text::chars_to_string(v.as_slice())))
            }
        },
    }
}

/// A pack can be started only while it waits for a match, once
/// qBittorrent is configured and the user has a library.
pub fn check_start_pack(status: DownloadStatus, qb_configured: bool, library_count: i64) -> (r: Result<(), AppError>)
    ensures
        status != DownloadStatus::AwaitingMatch ==> fails_bad(r, "Pack download already started"@),
        status == DownloadStatus::AwaitingMatch && !qb_configured ==> fails_bad(r, "qBittorrent is not configured. Ask an administrator to finish setup."@),
        status == DownloadStatus::AwaitingMatch && qb_configured && library_count == 0 ==> fails_bad(r, "Your account has no libraries assigned. Ask an admin to grant library access."@),
        r is Ok <==> (status == DownloadStatus::AwaitingMatch && qb_configured && library_count != 0),
{
    match status {
        DownloadStatus::AwaitingMatch => {},
        _ => {
            return Err(bad_request("Pack download already started"));
        },
    }
    if !qb_configured {
        return Err(bad_request("qBittorrent is not configured. Ask an administrator to finish setup."));
    }
    if library_count == 0 {
        return Err(bad_request("Your account has no libraries assigned. Ask an admin to grant library access."));
    }
    Ok(())
}

/// Matching metadata is for single downloads, once qBittorrent is
/// configured.
pub fn check_match(kind: DownloadKind, qb_configured: bool) -> (r: Result<(), AppError>)
    ensures
        kind == DownloadKind::Pack ==> fails_bad(r, "This is a pack download. Use map to assign Audible matches per folder."@),
        kind == DownloadKind::Single && !qb_configured ==> fails_bad(r, "qBittorrent is not configured. Ask an administrator to finish setup."@),
        r is Ok <==> (kind == DownloadKind::Single && qb_configured),
{
    match kind {
        DownloadKind::Pack => Err(bad_request("This is a pack download. Use map to assign Audible matches per folder.")),
        DownloadKind::Single => if qb_configured {
            Ok(())
        } else {
            Err(bad_request("qBittorrent is not configured. Ask an administrator to finish setup."))
        },
    }
}

/// Books can be mapped in a pack once it has been started.
pub fn check_map_target(kind: DownloadKind, status: DownloadStatus) -> (r: Result<(), AppError>)
    ensures
        kind == DownloadKind::Single ==> fails_bad(r, "Only pack downloads support file mapping"@),
        kind == DownloadKind::Pack && status == DownloadStatus::AwaitingMatch ==> fails_bad(r, "Start the pack download before mapping books"@),
        r is Ok <==> (kind == DownloadKind::Pack && status != DownloadStatus::AwaitingMatch),
{
    match kind {
        DownloadKind::Single => Err(bad_request("Only pack downloads support file mapping")),
        DownloadKind::Pack => match status {
            DownloadStatus::AwaitingMatch => Err(bad_request("Start the pack download before mapping books")),
            _ => Ok(()),
        },
    }
}

pub open spec fn spec_normalize_source_path(raw: Seq<char>) -> Option<Seq<char>> {
    let p = crate::files::spec_norm_rel(crate::text::trim(raw));
    if p.len() == 0 || crate::text::contains(p, crate::lits::lit_dotdot()) {
        None
    } else {
        Some(p)
    }
}

/// A path inside a pack as the user sent it, cleaned: trimmed, leading `/`
/// dropped, `\` turned into `/`; empty paths and paths holding `..` are
/// refused.
pub fn normalize_source_path(raw: &str) -> (r: Result<String, AppError>)
    ensures
        match spec_normalize_source_path(raw@) {
            Some(p) => r matches Ok(s) && s@ == p,
            None => fails_bad(r, "Invalid source path"@),
        },
{
    let t = crate::text::trim_str(raw);
    let p = crate::files::norm_rel(t.as_slice());
    let dd = crate::lits::mk_dotdot();
    if p.len() == 0 || crate::text::contains_exec(p.as_slice(), dd.as_slice()) {
        return Err(bad_request("Invalid source path"));
    }
    Ok(crate::text::chars_to_string(p.as_slice()))
}

/// `p` is appended unless it is already listed.
pub open spec fn push_new(t: Seq<Seq<char>>, p: Seq<char>) -> Seq<Seq<char>> {
    if t.contains(p) {
        t
    } else {
        t.push(p)
    }
}

pub open spec fn all_valid_paths(list: Seq<Seq<char>>) -> bool {
    forall|i: int| 0 <= i < list.len() ==> spec_normalize_source_path(#[trigger] list[i]) is Some
}

/// The cleaned paths of `list` added in order to `t`, without repeats.
pub open spec fn push_all_new(t: Seq<Seq<char>>, list: Seq<Seq<char>>) -> Seq<Seq<char>>
    decreases list.len(),
{
    if list.len() == 0 {
        t
    } else {
        push_new(
            push_all_new(t, list.drop_last()),
            spec_normalize_source_path(list.last())->0,
        )
    }
}

pub open spec fn spec_collect_map_paths(
    list: Option<Seq<Seq<char>>>,
    single: Option<Seq<char>>,
) -> Option<Seq<Seq<char>>> {
    let l = match list {
        Some(l) => l,
        None => Seq::empty(),
    };
    let single_ok = match single {
        Some(s) => spec_normalize_source_path(s) is Some,
        None => true,
    };
    if !all_valid_paths(l) || !single_ok {
        None
    } else {
        let t = push_all_new(Seq::empty(), l);
        Some(
            match single {
                Some(s) => push_new(t, spec_normalize_source_path(s)->0),
                None => t,
            },
        )
    }
}

fn push_new_exec(t: &mut Vec<String>, p: String)
    ensures
        crate::text::seqs_view(final(t)@) == push_new(crate::text::seqs_view(old(t)@), p@),
{
    let ghost tv = crate::text::seqs_view(t@);
    let mut i: usize = 0;
    while i < t.len()
        invariant
            i <= t.len(),
            tv == crate::text::seqs_view(t@),
            forall|k: int| 0 <= k < i ==> t@[k]@ != p@,
        decreases t.len() - i,
    {
        if crate::models::str_eq(t[i].as_str(), p.as_str()) {
            assert(tv[i as int] == p@);
            assert(tv.contains(p@));
            return;
        }
        i += 1;
    }
    assert(!tv.contains(p@)) by {
        if tv.contains(p@) {
            let k = choose|k: int| 0 <= k < tv.len() && tv[k] == p@;
            assert(t@[k]@ == p@);
        }
    }
    t.push(p);
    assert(crate::text::seqs_view(t@) =~= tv.push(p@));
}

/// The paths of a mapping request, cleaned and without repeats: those of
/// `source_paths` in order, then `source_path`. Refused when one of them is
/// invalid, or when none is given.
pub fn collect_map_paths(body: &MapItemRequest) -> (r: Result<Vec<String>, AppError>)
    ensures
        match spec_collect_map_paths(
            match body.source_paths {
                Some(v) => Some(crate::text::seqs_view(v@)),
                None => None,
            },
            crate::text::opt_string_view(body.source_path),
        ) {
            None => fails_bad(r, "Invalid source path"@),
            Some(ps) => if ps.len() == 0 {
                fails_bad(r, "Select at least one file or folder to map"@)
            } else {
                r matches Ok(v) && crate::text::seqs_view(v@) == ps
            },
        },
{
    let mut paths: Vec<String> = Vec::new();
    let ghost l: Seq<Seq<char>> = if body.source_paths is Some {
        crate::text::seqs_view(body.source_paths->0@)
    } else {
        Seq::empty()
    };
    match &body.source_paths {
        Some(list) => {
            let mut i: usize = 0;
            while i < list.len()
                invariant
                    i <= list.len(),
                    l == crate::text::seqs_view(list@),
                    body.source_paths is Some,
                    l == crate::text::seqs_view(body.source_paths->0@),
                    all_valid_paths(l.take(i as int)),
                    crate::text::seqs_view(paths@) == push_all_new(Seq::empty(), l.take(i as int)),
                decreases list.len() - i,
            {
                let n = normalize_source_path(list[i].as_str());
                assert(l.take(i + 1).drop_last() =~= l.take(i as int));
                assert(l.take(i + 1).last() == list@[i as int]@);
                match n {
                    Ok(p) => {
                        push_new_exec(&mut paths, p);
                    },
                    Err(e) => {
                        assert(!all_valid_paths(l)) by {
                            assert(l[i as int] == list@[i as int]@);
                        }
                        return Err(e);
                    },
                }
                i += 1;
            }
            assert(l.take(list.len() as int) =~= l);
        },
        None => {
            assert(l =~= Seq::<Seq<char>>::empty());
            assert(crate::text::seqs_view(paths@) =~= Seq::<Seq<char>>::empty());
        },
    }
    match &body.source_path {
        Some(single) => {
            let n = normalize_source_path(single.as_str());
            match n {
                Ok(p) => {
                    push_new_exec(&mut paths, p);
                },
                Err(e) => {
                    return Err(e);
                },
            }
        },
        None => {},
    }
    if paths.len() == 0 {
        return Err(bad_request("Select at least one file or folder to map"));
    }
    Ok(paths)
}


/// A mapped path is clean: not empty and holding no `..`.
pub open spec fn clean_map_path(p: Seq<char>) -> bool {
    p.len() > 0 && !crate::text::contains(p, crate::lits::lit_dotdot())
}

/// Paths collected from a mapping request, all clean and none twice.
pub open spec fn clean_distinct(ps: Seq<Seq<char>>) -> bool {
    &&& forall|i: int| 0 <= i < ps.len() ==> clean_map_path(#[trigger] ps[i])
    &&& forall|i: int, j: int| 0 <= i < j < ps.len() ==> #[trigger] ps[i] != #[trigger] ps[j]
}

proof fn lemma_push_new_clean(t: Seq<Seq<char>>, p: Seq<char>)
    requires
        clean_distinct(t),
        clean_map_path(p),
    ensures
        clean_distinct(push_new(t, p)),
{
    if !t.contains(p) {
        let u = t.push(p);
        assert forall|i: int, j: int| 0 <= i < j < u.len() implies #[trigger] u[i] != #[trigger] u[j] by {
            if j == t.len() {
                assert(u[i] == t[i]);
                assert(t.contains(t[i]));
            } else {
                assert(u[i] == t[i] && u[j] == t[j]);
            }
        }
        assert forall|i: int| 0 <= i < u.len() implies clean_map_path(#[trigger] u[i]) by {
            if i < t.len() {
                assert(u[i] == t[i]);
            }
        }
    }
}

proof fn lemma_normalized_clean(raw: Seq<char>)
    requires
        spec_normalize_source_path(raw) is Some,
    ensures
        clean_map_path(spec_normalize_source_path(raw)->0),
{
}

proof fn lemma_push_all_new_clean(t: Seq<Seq<char>>, list: Seq<Seq<char>>)
    requires
        clean_distinct(t),
        all_valid_paths(list),
    ensures
        clean_distinct(push_all_new(t, list)),
    decreases list.len(),
{
    if list.len() > 0 {
        assert forall|i: int| 0 <= i < list.drop_last().len() implies spec_normalize_source_path(
            #[trigger] list.drop_last()[i],
        ) is Some by {
            assert(list.drop_last()[i] == list[i]);
        }
        lemma_push_all_new_clean(t, list.drop_last());
        assert(spec_normalize_source_path(list[list.len() - 1]) is Some);
        lemma_normalized_clean(list.last());
        lemma_push_new_clean(push_all_new(t, list.drop_last()), spec_normalize_source_path(list.last())->0);
    }
}

/// The paths a mapping request names, once accepted, are clean (none is
/// empty or holds `..`, so none leaves the download's folder) and none is
/// listed twice.
pub proof fn law_mapped_paths_are_clean(list: Option<Seq<Seq<char>>>, single: Option<Seq<char>>)
    requires
        spec_collect_map_paths(list, single) is Some,
    ensures
        clean_distinct(spec_collect_map_paths(list, single)->0),
{
    let l = match list {
        Some(l) => l,
        None => Seq::empty(),
    };
    lemma_push_all_new_clean(Seq::empty(), l);
    let t = push_all_new(Seq::empty(), l);
    match single {
        Some(s) => {
            lemma_normalized_clean(s);
            lemma_push_new_clean(t, spec_normalize_source_path(s)->0);
        },
        None => {},
    }
}

} // verus!

verus! {

pub open spec fn spec_item_status_for_map(status: DownloadStatus, finished: bool) -> ItemStatus {
    if status == DownloadStatus::Completed || waits_for_map(status) || status
        == DownloadStatus::Imported || status == DownloadStatus::Error || finished {
        ItemStatus::Ready
    } else {
        ItemStatus::Pending
    }
}

/// A newly mapped book is ready to import when the pack's torrent is done
/// (`finished`: its progress reached 1.0) or the pack has moved past
/// downloading; else it waits.
pub fn item_status_for_map(status: DownloadStatus, finished: bool) -> (r: ItemStatus)
    ensures
        r == spec_item_status_for_map(status, finished),
{
    let past = match status {
        DownloadStatus::Completed | DownloadStatus::AwaitingMap | DownloadStatus::Partial
        | DownloadStatus::Imported | DownloadStatus::Error => true,
        _ => false,
    };
    if past || finished {
        ItemStatus::Ready
    } else {
        ItemStatus::Pending
    }
}

pub open spec fn spec_status_after_map(current: DownloadStatus, item: ItemStatus) -> DownloadStatus {
    if item == ItemStatus::Ready && (current == DownloadStatus::Imported || waits_for_map(current)
        || current == DownloadStatus::Completed) {
        DownloadStatus::Completed
    } else {
        current
    }
}

/// A pack that gets a ready book goes back to completed (so the poll
/// imports it), from imported too; otherwise its status stays.
pub fn status_after_map(current: DownloadStatus, item: ItemStatus) -> (r: DownloadStatus)
    ensures
        r == spec_status_after_map(current, item),
{
    match item {
        ItemStatus::Ready => match current {
            DownloadStatus::Imported | DownloadStatus::AwaitingMap | DownloadStatus::Partial
            | DownloadStatus::Completed => DownloadStatus::Completed,
            _ => current,
        },
        _ => current,
    }
}

/// A mapped book can be unmapped unless it is imported or being copied;
/// `None` is a book that does not exist.
pub fn check_unmap(item: Option<ItemStatus>) -> (r: Result<(), AppError>)
    ensures
        item is None ==> r == Err::<(), AppError>(AppError::NotFound),
        item is Some && (item->0 == ItemStatus::Imported || item->0 == ItemStatus::Copying) ==> fails_bad(
            r,
            "Imported pack items can't be unmapped"@,
        ),
        r is Ok <==> (item is Some && item->0 != ItemStatus::Imported && item->0 != ItemStatus::Copying),
{
    match item {
        None => Err(AppError::NotFound),
        Some(ItemStatus::Imported) | Some(ItemStatus::Copying) => Err(bad_request("Imported pack items can't be unmapped")),
        Some(_) => Ok(()),
    }
}

pub open spec fn keeps_running(s: DownloadStatus) -> bool {
    s == DownloadStatus::Queued || s == DownloadStatus::Downloading || s == DownloadStatus::Completed
}

pub open spec fn spec_status_after_unmap(current: DownloadStatus, imported: i64, remaining: i64) -> DownloadStatus {
    if imported > 0 && remaining > 0 {
        DownloadStatus::Partial
    } else if imported > 0 {
        DownloadStatus::Imported
    } else if keeps_running(current) {
        current
    } else {
        DownloadStatus::AwaitingMap
    }
}

/// The pack's status after a book was unmapped, from the counts of its
/// imported books and of the others.
pub fn status_after_unmap(current: DownloadStatus, imported: i64, remaining: i64) -> (r: DownloadStatus)
    ensures
        r == spec_status_after_unmap(current, imported, remaining),
{
    if imported > 0 && remaining > 0 {
        DownloadStatus::Partial
    } else if imported > 0 {
        DownloadStatus::Imported
    } else {
        match current {
            DownloadStatus::Queued | DownloadStatus::Downloading | DownloadStatus::Completed => current,
            _ => DownloadStatus::AwaitingMap,
        }
    }
}

/// Un-importing is for imported books of packs; `None` is a book that does
/// not exist.
pub fn check_unimport(kind: DownloadKind, item: Option<ItemStatus>) -> (r: Result<(), AppError>)
    ensures
        kind == DownloadKind::Single ==> fails_bad(r, "Only pack downloads support un-import"@),
        kind == DownloadKind::Pack && item is None ==> r == Err::<(), AppError>(AppError::NotFound),
        kind == DownloadKind::Pack && item == Some(ItemStatus::Copying) ==> fails_bad(
            r,
            "Cannot un-import while a copy is in progress"@,
        ),
        kind == DownloadKind::Pack && item is Some && item->0 != ItemStatus::Copying && item->0
            != ItemStatus::Imported ==> fails_bad(r, "Only imported pack items can be un-imported"@),
        r is Ok <==> (kind == DownloadKind::Pack && item == Some(ItemStatus::Imported)),
{
    match kind {
        DownloadKind::Single => Err(bad_request("Only pack downloads support un-import")),
        DownloadKind::Pack => match item {
            None => Err(AppError::NotFound),
            Some(ItemStatus::Copying) => Err(bad_request("Cannot un-import while a copy is in progress")),
            Some(ItemStatus::Imported) => Ok(()),
            Some(_) => Err(bad_request("Only imported pack items can be un-imported")),
        },
    }
}

pub open spec fn spec_status_after_unimport(current: DownloadStatus, imported: i64, remaining: i64) -> DownloadStatus {
    if imported > 0 && remaining > 0 {
        DownloadStatus::Partial
    } else if imported > 0 {
        DownloadStatus::Imported
    } else if keeps_running(current) {
        current
    } else if remaining > 0 {
        DownloadStatus::Partial
    } else {
        DownloadStatus::AwaitingMap
    }
}

/// The pack's status after an imported book was un-imported.
pub fn status_after_unimport(current: DownloadStatus, imported: i64, remaining: i64) -> (r: DownloadStatus)
    ensures
        r == spec_status_after_unimport(current, imported, remaining),
{
    if imported > 0 && remaining > 0 {
        DownloadStatus::Partial
    } else if imported > 0 {
        DownloadStatus::Imported
    } else {
        match current {
            DownloadStatus::Queued | DownloadStatus::Downloading | DownloadStatus::Completed => current,
            _ => if remaining > 0 {
                DownloadStatus::Partial
            } else {
                DownloadStatus::AwaitingMap
            },
        }
    }
}

/// Downloads that must keep seeding: complete, being copied, imported or
/// being mapped.
pub open spec fn must_seed(s: DownloadStatus) -> bool {
    s == DownloadStatus::Completed || s == DownloadStatus::Copying || s == DownloadStatus::Imported
        || waits_for_map(s)
}

/// A download can be removed unless it must keep seeding or one of its
/// books is imported.
pub fn check_delete(status: DownloadStatus, imported_items: i64) -> (r: Result<(), AppError>)
    ensures
        r is Ok <==> (!must_seed(status) && imported_items <= 0),
        r is Err ==> fails_bad(
            r,
            "Completed downloads can't be removed from Audiobooker while they need to seed. Let qBittorrent drop them at your ratio limit."@,
        ),
{
    let seeding = match status {
        DownloadStatus::Completed | DownloadStatus::Copying | DownloadStatus::Imported
        | DownloadStatus::AwaitingMap | DownloadStatus::Partial => true,
        _ => false,
    };
    if seeding || imported_items > 0 {
        return Err(bad_request("Completed downloads can't be removed from Audiobooker while they need to seed. Let qBittorrent drop them at your ratio limit."));
    }
    Ok(())
}

/// Retrying the imports of a pack is for packs.
pub fn check_pack_retry(kind: DownloadKind) -> (r: Result<(), AppError>)
    ensures
        r is Ok <==> kind == DownloadKind::Pack,
        r is Err ==> fails_bad(r, "Only pack downloads support retry"@),
{
    match kind {
        DownloadKind::Pack => Ok(()),
        DownloadKind::Single => Err(bad_request("Only pack downloads support retry")),
    }
}

/// A pack retry that found no failed or stuck book to put back is refused.
pub fn check_pack_retried(updated: u64) -> (r: Result<(), AppError>)
    ensures
        r is Ok <==> updated > 0,
        r is Err ==> fails_bad(r, "No failed or stuck imports to retry"@),
{
    if updated == 0 {
        Err(bad_request("No failed or stuck imports to retry"))
    } else {
        Ok(())
    }
}

/// Retrying a single import: only a stuck or failed one, with metadata.
pub fn check_retry_import(kind: DownloadKind, status: DownloadStatus, has_metadata: bool) -> (r: Result<(), AppError>)
    ensures
        kind == DownloadKind::Pack ==> fails_bad(r, "Use pack retry-imports for pack downloads"@),
        kind == DownloadKind::Single && status != DownloadStatus::Copying && status
            != DownloadStatus::Error ==> fails_bad(r, "Only stuck or failed imports can be retried"@),
        kind == DownloadKind::Single && (status == DownloadStatus::Copying || status
            == DownloadStatus::Error) && !has_metadata ==> fails_bad(
            r,
            "Cannot retry import without Audible metadata"@,
        ),
        r is Ok <==> (kind == DownloadKind::Single && (status == DownloadStatus::Copying || status
            == DownloadStatus::Error) && has_metadata),
{
    match kind {
        DownloadKind::Pack => {
            return Err(bad_request("Use pack retry-imports for pack downloads"));
        },
        DownloadKind::Single => {},
    }
    match status {
        DownloadStatus::Copying | DownloadStatus::Error => {},
        _ => {
            return Err(bad_request("Only stuck or failed imports can be retried"));
        },
    }
    if !has_metadata {
        return Err(bad_request("Cannot retry import without Audible metadata"));
    }
    Ok(())
}

/// Re-importing: only an imported single book, with metadata.
pub fn check_reimport(kind: DownloadKind, status: DownloadStatus, has_metadata: bool) -> (r: Result<(), AppError>)
    ensures
        kind == DownloadKind::Pack ==> fails_bad(
            r,
            "Pack books use Un-import / remap on the Map pack page"@,
        ),
        kind == DownloadKind::Single && status != DownloadStatus::Imported ==> fails_bad(
            r,
            "Only imported singles can be re-imported"@,
        ),
        kind == DownloadKind::Single && status == DownloadStatus::Imported && !has_metadata
            ==> fails_bad(r, "Cannot re-import without Audible metadata"@),
        r is Ok <==> (kind == DownloadKind::Single && status == DownloadStatus::Imported
            && has_metadata),
{
    match kind {
        DownloadKind::Pack => {
            return Err(bad_request("Pack books use Un-import / remap on the Map pack page"));
        },
        DownloadKind::Single => {},
    }
    match status {
        DownloadStatus::Imported => {},
        _ => {
            return Err(bad_request("Only imported singles can be re-imported"));
        },
    }
    if !has_metadata {
        return Err(bad_request("Cannot re-import without Audible metadata"));
    }
    Ok(())
}

pub open spec fn spec_reimport_cleanup_root(
    library_id: Option<i64>,
    library_path: Option<Seq<char>>,
    settings_library_path: Seq<char>,
) -> Option<Seq<char>> {
    let root = match library_id {
        Some(_) => library_path,
        None => library_fallback(settings_library_path),
    };
    match root {
        Some(p) => if crate::models::Library::spec_path_needs_config(p) {
            None
        } else {
            Some(p)
        },
        None => None,
    }
}

/// Where the old copy of a re-imported book is removed from: its library's
/// path (`library_path`, `None` when the library is gone) or, without a
/// library, the global library path unless blank; never a placeholder path.
pub fn reimport_cleanup_root(
    library_id: Option<i64>,
    library_path: Option<String>,
    settings_library_path: &str,
) -> (r: Option<String>)
    ensures
        crate::text::opt_string_view(r) == spec_reimport_cleanup_root(
            library_id,
            crate::text::opt_string_view(library_path),
            settings_library_path@,
        ),
{
    let root: Option<String> = match library_id {
        Some(_) => library_path,
        None => {
            let t = crate::text::trim_str(settings_library_path);
            if t.len() > 0 {
                Some(settings_library_path.to_owned())
            } else {
                None
            }
        },
    };
    match root {
        Some(p) => if crate::models::Library::path_needs_config(p.as_str()) {
            None
        } else {
            Some(p)
        },
        None => None,
    }
}

/// Position of the first library with id `id`.
pub open spec fn find_library(allowed: Seq<(i64, Seq<char>)>, id: i64) -> Option<int>
    decreases allowed.len(),
{
    if allowed.len() == 0 {
        None
    } else {
        match find_library(allowed.drop_last(), id) {
            Some(k) => Some(k),
            None => if allowed.last().0 == id {
                Some(allowed.len() - 1)
            } else {
                None
            },
        }
    }
}

pub open spec fn libs_view(allowed: Seq<(i64, String)>) -> Seq<(i64, Seq<char>)> {
    allowed.map_values(|p: (i64, String)| (p.0, p.1@))
}

pub open spec fn spec_choose_library(
    allowed: Seq<(i64, Seq<char>)>,
    requested: Option<i64>,
) -> Result<i64, Option<Seq<char>>> {
    if allowed.len() == 0 {
        Err(Some("Your account has no libraries assigned. Ask an admin to grant library access."@))
    } else {
        let chosen: Result<i64, Option<Seq<char>>> = match requested {
            Some(id) => if find_library(allowed, id) is Some {
                Ok(id)
            } else {
                Err(None)
            },
            None => if allowed.len() == 1 {
                Ok(allowed[0].0)
            } else {
                Err(Some("Select which Audiobookshelf library to import into"@))
            },
        };
        match chosen {
            Ok(id) => match find_library(allowed, id) {
                Some(k) => if crate::models::Library::spec_path_needs_config(allowed[k].1) {
                    Err(
                        Some(
                            "That library has no container path set. Ask an admin to set it under Settings \u{2192} Libraries."@,
                        ),
                    )
                } else {
                    Ok(id)
                },
                None => Ok(id),
            },
            Err(m) => Err(m),
        }
    }
}

fn find_library_exec(allowed: &[(i64, String)], id: i64) -> (r: Option<usize>)
    ensures
        match find_library(libs_view(allowed@), id) {
            Some(k) => r == Some(k as usize),
            None => r is None,
        },
{
    let ghost lv = libs_view(allowed@);
    let mut i: usize = 0;
    while i < allowed.len()
        invariant
            i <= allowed.len(),
            lv == libs_view(allowed@),
            find_library(lv.take(i as int), id) is None,
        decreases allowed.len() - i,
    {
        assert(lv.take(i + 1).drop_last() =~= lv.take(i as int));
        if allowed[i].0 == id {
            proof {
                lemma_find_library_prefix(lv, id, i as int + 1);
            }
            return Some(i);
        }
        i += 1;
    }
    assert(lv.take(allowed.len() as int) =~= lv);
    None
}

/// A found library lies in the list and has the id looked for.
pub proof fn lemma_find_library_found(s: Seq<(i64, Seq<char>)>, id: i64)
    ensures
        find_library(s, id) matches Some(k) ==> 0 <= k < s.len() && s[k].0 == id,
    decreases s.len(),
{
    if s.len() > 0 {
        lemma_find_library_found(s.drop_last(), id);
    }
}

/// Finding in a prefix that already holds a match finds the same one.
pub proof fn lemma_find_library_prefix(s: Seq<(i64, Seq<char>)>, id: i64, n: int)
    requires
        0 <= n <= s.len(),
        find_library(s.take(n), id) is Some,
    ensures
        find_library(s, id) == find_library(s.take(n), id),
    decreases s.len() - n,
{
    if n < s.len() {
        assert(s.take(n + 1).drop_last() =~= s.take(n));
        lemma_find_library_prefix(s, id, n + 1);
    } else {
        assert(s.take(n) =~= s);
    }
}

/// The library a book goes into, from the user's libraries `allowed`
/// (id and container path): the requested one if the user has it
/// (`Forbidden` if not), else the only one; refused when the user has none
/// or several without choosing, or when the chosen library has no container
/// path yet.
pub fn choose_library(allowed: &[(i64, String)], requested: Option<i64>) -> (r: Result<i64, AppError>)
    ensures
        match spec_choose_library(libs_view(allowed@), requested) {
            Ok(id) => r == Ok::<i64, AppError>(id),
            Err(None) => r == Err::<i64, AppError>(AppError::Forbidden),
            Err(Some(m)) => fails_bad(r, m),
        },
{
    if allowed.len() == 0 {
        return Err(bad_request("Your account has no libraries assigned. Ask an admin to grant library access."));
    }
    let ghost lv = libs_view(allowed@);
    let id = match requested {
        Some(id) => {
            if find_library_exec(allowed, id).is_none() {
                return Err(AppError::Forbidden);
            }
            id
        },
        None => {
            if allowed.len() == 1 {
                assert(lv[0].0 == allowed@[0].0);
                allowed[0].0
            } else {
                return Err(bad_request("Select which Audiobookshelf library to import into"));
            }
        },
    };
    proof {
        lemma_find_library_found(lv, id);
    }
    match find_library_exec(allowed, id) {
        Some(k) => {
            assert(lv[k as int].1 == allowed@[k as int].1@);
            if crate::models::Library::path_needs_config(allowed[k].1.as_str()) {
                return Err(bad_request("That library has no container path set. Ask an admin to set it under Settings \u{2192} Libraries."));
            }
        },
        None => {},
    }
    Ok(id)
}

} // verus!

verus! {

// ---------------------------------------------------------------------------
// Notices
// ---------------------------------------------------------------------------

pub open spec fn spec_display_name(name: Option<Seq<char>>) -> Seq<char> {
    match name {
        Some(n) => if crate::text::trim(n).len() > 0 {
            n
        } else {
            crate::lits::lit_your_audiobook()
        },
        None => crate::lits::lit_your_audiobook(),
    }
}

/// How a download is named in notices: its name unless blank, else
/// "Your audiobook".
pub fn display_name(name: Option<&str>) -> (r: String)
    ensures
        r@ == spec_display_name(crate::text::opt_str_view(name)),
{
    match name {
        Some(n) => {
            let t = crate::text::trim_str(n);
            if t.len() > 0 {
                return n.to_owned();
            }
        },
        None => {},
    }
    crate::text::chars_to_string(crate::lits::mk_your_audiobook().as_slice())
}

pub open spec fn notices_view(v: Seq<crate::push::Notice>) -> Seq<(crate::models::NotifyKind, Seq<char>, Seq<char>)> {
    v.map_values(|n: crate::push::Notice| (n.kind, n.title@, n.body@))
}

pub open spec fn spec_poll_notices(
    plan: PollPlan,
    kind: DownloadKind,
    name: Seq<char>,
    state: Seq<char>,
) -> Seq<(crate::models::NotifyKind, Seq<char>, Seq<char>)> {
    let failed: Seq<(crate::models::NotifyKind, Seq<char>, Seq<char>)> = if plan.newly_failed {
        seq![
            (
                crate::models::NotifyKind::Failure,
                crate::lits::lit_t_download_failed(),
                name + crate::lits::lit_b_failed_qb() + state + crate::lits::lit_close_paren(),
            ),
        ]
    } else {
        Seq::empty()
    };
    if plan.newly_completed {
        if kind == DownloadKind::Pack {
            failed.push(
                (
                    crate::models::NotifyKind::PackReady,
                    crate::lits::lit_t_pack_ready(),
                    name + crate::lits::lit_b_pack_ready(),
                ),
            )
        } else {
            failed.push(
                (
                    crate::models::NotifyKind::DownloadFinished,
                    crate::lits::lit_t_download_finished(),
                    name + crate::lits::lit_b_finished(),
                ),
            )
        }
    } else {
        failed
    }
}

/// The notices a poll sends for a download named `name` (see
/// `display_name`) whose torrent is in qBittorrent state `state`: a failure
/// when it has just failed, then a pack-ready or finished notice when it
/// has just completed.
pub fn poll_notices(plan: &PollPlan, kind: DownloadKind, name: &str, state: &str) -> (r: Vec<crate::push::Notice>)
    ensures
        notices_view(r@) == spec_poll_notices(*plan, kind, name@, state@),
{
    let mut r: Vec<crate::push::Notice> = Vec::new();
    if plan.newly_failed {
        r.push(crate::push::Notice::torrent_failed(name, state));
    }
    assert(notices_view(r@) =~= (if plan.newly_failed {
        seq![
            (
                crate::models::NotifyKind::Failure,
                crate::lits::lit_t_download_failed(),
                name@ + crate::lits::lit_b_failed_qb() + state@ + crate::lits::lit_close_paren(),
            ),
        ]
    } else {
        Seq::empty()
    }));
    let ghost before = notices_view(r@);
    if plan.newly_completed {
        match kind {
            DownloadKind::Pack => r.push(crate::push::Notice::pack_ready(name)),
            DownloadKind::Single => r.push(crate::push::Notice::download_finished(name)),
        }
        assert(notices_view(r@) =~= before.push(notices_view(r@).last()));
    }
    r
}

} // verus!

verus! {

// ---------------------------------------------------------------------------
// Laws of the download life cycle
// ---------------------------------------------------------------------------

/// A torrent whose progress reached 1.0 counts as completed, whatever
/// state qBittorrent reports.
pub proof fn law_finished_torrent_is_completed(state: Seq<char>)
    ensures
        spec_map_state(state, true) == TorrentState::Completed,
{
}

/// How qBittorrent's state of an unfinished torrent reads: `error` and
/// `missingFiles` are errors; `queuedDL`, `checkingDL`, `stalledDL`,
/// `downloading`, `metaDL` and `forcedDL` are downloading; any other state
/// (paused, seeding, checking a finished torrent, an unknown one) counts as
/// queued.
pub proof fn law_unfinished_torrent_states(state: Seq<char>)
    ensures
        (state == "error"@ || state == "missingFiles"@) ==> spec_map_state(state, false) == TorrentState::Error,
        (state == "queuedDL"@ || state == "checkingDL"@ || state == "stalledDL"@ || state == "downloading"@
            || state == "metaDL"@ || state == "forcedDL"@) ==> spec_map_state(state, false)
            == TorrentState::Downloading,
        !(state == "error"@ || state == "missingFiles"@ || state == "queuedDL"@ || state == "checkingDL"@
            || state == "stalledDL"@ || state == "downloading"@ || state == "metaDL"@ || state
            == "forcedDL"@) ==> spec_map_state(state, false) == TorrentState::Queued,
{
    reveal_strlit("error");
    reveal_strlit("missingFiles");
    reveal_strlit("queuedDL");
    reveal_strlit("checkingDL");
    reveal_strlit("stalledDL");
    reveal_strlit("downloading");
    reveal_strlit("metaDL");
    reveal_strlit("forcedDL");
    assert(lit_error() =~= "error"@);
    assert(lit_missing_files() =~= "missingFiles"@);
    assert(lit_queued_dl() =~= "queuedDL"@);
    assert(lit_checking_dl() =~= "checkingDL"@);
    assert(lit_stalled_dl() =~= "stalledDL"@);
    assert(lit_downloading() =~= "downloading"@);
    assert(lit_meta_dl() =~= "metaDL"@);
    assert(lit_forced_dl() =~= "forcedDL"@);
}

/// Neither a poll nor a refresh touches a download that waits for its
/// Audible match, is being copied or is imported.
pub proof fn law_poll_and_refresh_leave_settled_downloads(
    current: DownloadStatus,
    kind: DownloadKind,
    mapped: TorrentState,
    has_completed_at: bool,
)
    requires
        current == DownloadStatus::AwaitingMatch || current == DownloadStatus::Copying || current
            == DownloadStatus::Imported,
    ensures
        spec_poll_plan(current, mapped, has_completed_at) matches Some(p) ==> p.status == current,
        spec_refresh_status(current, kind, mapped) == current,
{
}

/// A pack that waits for mapping or is partly imported keeps that status on
/// a poll once its torrent is complete, and the poll runs its import.
pub proof fn law_poll_keeps_mapping_status(current: DownloadStatus, has_completed_at: bool)
    requires
        waits_for_map(current),
    ensures
        spec_poll_plan(current, TorrentState::Completed, has_completed_at) == Some(
            PollPlan {
                status: current,
                record_error: false,
                stamp_completed: !has_completed_at,
                promote_pending_items: true,
                newly_completed: false,
                newly_failed: false,
                import: true,
            },
        ),
{
}

/// Refreshing a failed pack whose torrent is complete puts it back to
/// completed, so that its imports are tried again.
pub proof fn law_refresh_retries_failed_pack()
    ensures
        spec_refresh_status(DownloadStatus::Error, DownloadKind::Pack, TorrentState::Completed)
            == DownloadStatus::Completed,
{
}

/// A pack is imported exactly when it has books, some imported and none
/// left to import.
pub proof fn law_pack_imported_exactly_when_done(total: i64, imported: i64, remaining: i64)
    ensures
        (spec_pack_status(total, imported, remaining) == DownloadStatus::Imported) <==> (total != 0
            && remaining == 0 && imported > 0),
{
}

/// Once a book of a pack is imported, unmapping or un-importing another
/// book leaves the pack in the status an import pass would give it.
pub proof fn law_unmap_agrees_with_import_tally(current: DownloadStatus, imported: i64, remaining: i64)
    requires
        imported > 0,
        remaining >= 0,
        imported + remaining <= i64::MAX,
    ensures
        spec_status_after_unmap(current, imported, remaining) == spec_pack_status(
            (imported + remaining) as i64,
            imported,
            remaining,
        ),
        spec_status_after_unimport(current, imported, remaining) == spec_pack_status(
            (imported + remaining) as i64,
            imported,
            remaining,
        ),
{
}

/// Mapping a ready book into a pack that was waiting, partly or fully
/// imported or complete makes the next poll import it, whatever qBittorrent
/// reports, and the import takes the pack route.
pub proof fn law_mapped_book_gets_imported(current: DownloadStatus, mapped: TorrentState, has_completed_at: bool)
    requires
        current == DownloadStatus::Imported || waits_for_map(current) || current
            == DownloadStatus::Completed,
    ensures
        spec_poll_plan(spec_status_after_map(current, ItemStatus::Ready), mapped, has_completed_at) matches Some(p)
            && p.import,
        spec_import_route(spec_status_after_map(current, ItemStatus::Ready), DownloadKind::Pack)
            == ImportRoute::Pack,
{
}

} // verus!
