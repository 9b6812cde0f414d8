//! Bringing Audiobookshelf users and libraries into Audiobooker.
//!
//! Audiobookshelf never gives out passwords: a user created here gets the
//! configured default password (`changeme` when none is set) and must
//! change it.
use vstd::prelude::*;

use crate::error::{bad_request, fails_bad, AppError};
use crate::json::{bool_member, get_bool, get_items, get_str, items_member, str_member, Json};
use crate::models::{Library, Settings, User};
use crate::text::{
    opt_str_view, str_chars, trim, trim_end_char, trim_end_char_exec, trim_chars, trim_str,
};

verus! {

/// What a user sync did.
#[derive(Debug, Default, Clone)]
pub struct AbsUserSyncResult {
    pub created: usize,
    pub linked: usize,
    pub updated_libraries: usize,
    pub skipped: usize,
    pub total_abs_users: usize,
}

/// What became of one Audiobookshelf user.
#[derive(Debug, Clone, Copy, PartialEq, Eq, Structural)]
pub enum AbsUserOutcome {
    /// Not synced (incomplete, not a regular active user, without
    /// libraries, or matching the root account).
    Skipped,
    /// Matched an existing account, which was linked to the Audiobookshelf
    /// id when it was not, and given its libraries when those are synced.
    Existing { linked: bool, libraries_set: bool },
    /// A new account was made.
    Created,
}

pub open spec fn count_created(o: Seq<AbsUserOutcome>) -> nat
    decreases o.len(),
{
    if o.len() == 0 {
        0
    } else {
        count_created(o.drop_last()) + if o.last() == AbsUserOutcome::Created {
            1nat
        } else {
            0nat
        }
    }
}

pub open spec fn count_skipped(o: Seq<AbsUserOutcome>) -> nat
    decreases o.len(),
{
    if o.len() == 0 {
        0
    } else {
        count_skipped(o.drop_last()) + if o.last() == AbsUserOutcome::Skipped {
            1nat
        } else {
            0nat
        }
    }
}

pub open spec fn count_linked(o: Seq<AbsUserOutcome>) -> nat
    decreases o.len(),
{
    if o.len() == 0 {
        0
    } else {
        count_linked(o.drop_last()) + if o.last() matches AbsUserOutcome::Existing {
            linked: true,
            ..
        } {
            1nat
        } else {
            0nat
        }
    }
}

pub open spec fn count_libraries_set(o: Seq<AbsUserOutcome>) -> nat
    decreases o.len(),
{
    if o.len() == 0 {
        0
    } else {
        count_libraries_set(o.drop_last()) + if o.last() matches AbsUserOutcome::Existing {
            libraries_set: true,
            ..
        } {
            1nat
        } else {
            0nat
        }
    }
}

pub proof fn lemma_counts_bounded(o: Seq<AbsUserOutcome>)
    ensures
        count_created(o) <= o.len(),
        count_skipped(o) <= o.len(),
        count_linked(o) <= o.len(),
        count_libraries_set(o) <= o.len(),
    decreases o.len(),
{
    if o.len() > 0 {
        lemma_counts_bounded(o.drop_last());
    }
}

impl AbsUserSyncResult {
    /// The result of a sync over `total_abs_users` users whose outcomes, in
    /// order, are `outcomes`.
    pub fn tally(total_abs_users: usize, outcomes: &[AbsUserOutcome]) -> (r: AbsUserSyncResult)
        ensures
            r.total_abs_users == total_abs_users,
            r.created == count_created(outcomes@),
            r.skipped == count_skipped(outcomes@),
            r.linked == count_linked(outcomes@),
            r.updated_libraries == count_libraries_set(outcomes@),
    {
        let mut r = AbsUserSyncResult {
            created: 0,
            linked: 0,
            updated_libraries: 0,
            skipped: 0,
            total_abs_users,
        };
        let mut i: usize = 0;
        while i < outcomes.len()
            invariant
                i <= outcomes.len(),
                r.total_abs_users == total_abs_users,
                r.created == count_created(outcomes@.take(i as int)),
                r.skipped == count_skipped(outcomes@.take(i as int)),
                r.linked == count_linked(outcomes@.take(i as int)),
                r.updated_libraries == count_libraries_set(outcomes@.take(i as int)),
            decreases outcomes.len() - i,
        {
            let ghost t = outcomes@.take(i + 1);
            assert(t.drop_last() =~= outcomes@.take(i as int));
            proof {
                lemma_counts_bounded(t);
            }
            match outcomes[i] {
                AbsUserOutcome::Skipped => {
                    r.skipped = r.skipped + 1;
                },
                AbsUserOutcome::Created => {
                    r.created = r.created + 1;
                },
                AbsUserOutcome::Existing { linked, libraries_set } => {
                    if linked {
                        r.linked = r.linked + 1;
                    }
                    if libraries_set {
                        r.updated_libraries = r.updated_libraries + 1;
                    }
                },
            }
            i += 1;
        }
        assert(outcomes@.take(outcomes.len() as int) =~= outcomes@);
        r
    }
}

/// Where and as whom a user sync runs.
#[derive(Debug, Clone)]
pub struct AbsSyncConfig {
    /// The Audiobookshelf URL, trimmed and without trailing `/`.
    pub base: String,
    pub token: String,
    /// The password given to newly created accounts.
    pub password: String,
}

pub open spec fn spec_default_password(stored: Seq<char>) -> Seq<char> {
    if trim(stored).len() == 0 {
        "changeme"@
    } else {
        trim(stored)
    }
}

/// A user sync needs the Audiobookshelf URL and token, and a default
/// password of at least 8 bytes.
pub fn sync_config(settings: &Settings) -> (r: Result<AbsSyncConfig, AppError>)
    ensures
        ({
            let base = trim_end_char(trim(settings.audiobookshelf_url@), '/');
            let token = trim(settings.audiobookshelf_token@);
            let password = spec_default_password(settings.abs_user_default_password@);
            if base.len() == 0 || token.len() == 0 {
                fails_bad(r, "Configure Audiobookshelf URL and API token first"@)
            } else if vstd::utf8::encode_utf8(password).len() < 8 {
                fails_bad(r, "ABS sync default password must be at least 8 characters"@)
            } else {
                r matches Ok(c) && c.base@ == base && c.token@ == token && c.password@ == password
            }
        }),
{
    let u = trim_str(settings.audiobookshelf_url.as_str());
    let base = trim_end_char_exec(u.as_slice(), '/');
    let token = trim_str(settings.audiobookshelf_token.as_str());
    if base.len() == 0 || token.len() == 0 {
        return Err(bad_request("Configure Audiobookshelf URL and API token first"));
    }
    let p = trim_str(settings.abs_user_default_password.as_str());
    let password = if p.len() == 0 {
        "changeme".to_owned()
    } else {
        crate::text::chars_to_string(p.as_slice())
    };
    if password.as_str().as_bytes().len() < 8 {
        return Err(bad_request("ABS sync default password must be at least 8 characters"));
    }
    Ok(
        AbsSyncConfig {
            base: crate::text::chars_to_string(base.as_slice()),
            token: crate::text::chars_to_string(token.as_slice()),
            password,
        },
    )
}

/// The fields of an Audiobookshelf user that the sync reads.
#[derive(Debug, Clone)]
pub struct AbsUserFields {
    /// `id`, trimmed (empty when absent).
    pub abs_id: String,
    /// `username`, trimmed (empty when absent).
    pub username: String,
    /// `type`, `user` when absent.
    pub user_type: String,
    /// `isActive`, true when absent.
    pub is_active: bool,
}

pub open spec fn str_or(o: Option<Seq<char>>, d: Seq<char>) -> Seq<char> {
    match o {
        Some(s) => s,
        None => d,
    }
}

pub fn abs_user_fields(user: &Json) -> (r: AbsUserFields)
    ensures
        r.abs_id@ == trim(str_or(str_member(*user, "id"@), Seq::empty())),
        r.username@ == trim(str_or(str_member(*user, "username"@), Seq::empty())),
        r.user_type@ == str_or(str_member(*user, "type"@), "user"@),
        r.is_active == match bool_member(*user, "isActive"@) {
            Some(b) => b,
            None => true,
        },
{
    let id = match get_str(user, "id") {
        Some(s) => trim_str(s),
        None => Vec::new(),
    };
    assert(id@ == trim(str_or(str_member(*user, "id"@), Seq::empty()))) by {
        if str_member(*user, "id"@) is None {
            assert(trim(Seq::<char>::empty()) =~= Seq::<char>::empty());
        }
    }
    let name = match get_str(user, "username") {
        Some(s) => trim_str(s),
        None => Vec::new(),
    };
    assert(name@ == trim(str_or(str_member(*user, "username"@), Seq::empty()))) by {
        if str_member(*user, "username"@) is None {
            assert(trim(Seq::<char>::empty()) =~= Seq::<char>::empty());
        }
    }
    let user_type = match get_str(user, "type") {
        Some(s) => s.to_owned(),
        None => "user".to_owned(),
    };
    let is_active = match get_bool(user, "isActive") {
        Some(b) => b,
        None => true,
    };
    AbsUserFields {
        abs_id: crate::text::chars_to_string(id.as_slice()),
        username: crate::text::chars_to_string(name.as_slice()),
        user_type,
        is_active,
    }
}

/// Only complete, regular, active Audiobookshelf users are synced.
pub fn abs_user_eligible(f: &AbsUserFields) -> (r: bool)
    ensures
        r == (f.abs_id@.len() > 0 && f.username@.len() > 0 && f.user_type@ == "user"@
            && f.is_active),
{
    !f.abs_id.as_str().is_empty() && !f.username.as_str().is_empty() && crate::models::str_eq(
        f.user_type.as_str(),
        "user",
    ) && f.is_active
}

/// What is done for an Audiobookshelf user that matches an existing
/// account: the root account is never touched; others are linked to the
/// Audiobookshelf id when they are not, and get their libraries when those
/// are synced.
pub fn existing_user_outcome(user: &User, abs_id: &str, sync_libraries: bool) -> (r: AbsUserOutcome)
    ensures
        user.spec_is_root() ==> r == AbsUserOutcome::Skipped,
        !user.spec_is_root() ==> r == (AbsUserOutcome::Existing {
            linked: crate::text::opt_string_view(user.abs_user_id) != Some(abs_id@),
            libraries_set: sync_libraries,
        }),
{
    if user.is_root() {
        return AbsUserOutcome::Skipped;
    }
    let same = match &user.abs_user_id {
        Some(a) => crate::models::str_eq(a.as_str(), abs_id),
        None => false,
    };
    AbsUserOutcome::Existing { linked: !same, libraries_set: sync_libraries }
}

/// Users are synced only once some library exists to give them.
pub fn check_libraries_exist(all_library_ids: &[i64]) -> (r: Result<(), AppError>)
    ensures
        all_library_ids.len() == 0 ==> fails_bad(r, "Create or sync at least one library before syncing users"@),
        all_library_ids.len() > 0 ==> r is Ok,
{
    if all_library_ids.len() == 0 {
        return Err(bad_request("Create or sync at least one library before syncing users"));
    }
    Ok(())
}

/// The libraries an Audiobookshelf user gets: those resolved from the
/// user's access when libraries are synced, else every library. `None`
/// (the user is skipped) for a user that is not eligible or would get no
/// library.
pub fn abs_user_libraries(
    fields: &AbsUserFields,
    sync_libraries: bool,
    resolved: &[i64],
    all_library_ids: &[i64],
) -> (r: Option<Vec<i64>>)
    ensures
        ({
            let eligible = fields.abs_id@.len() > 0 && fields.username@.len() > 0 && fields.user_type@ == "user"@
                && fields.is_active;
            let chosen = if sync_libraries {
                resolved@
            } else {
                all_library_ids@
            };
            if !eligible || chosen.len() == 0 {
                r is None
            } else {
                r matches Some(ids) && ids@ == chosen
            }
        }),
{
    if !abs_user_eligible(fields) {
        return None;
    }
    let chosen = if sync_libraries {
        copy_ids(resolved)
    } else {
        copy_ids(all_library_ids)
    };
    if chosen.len() == 0 {
        return None;
    }
    Some(chosen)
}

/// What is done for an eligible Audiobookshelf user, given the account it
/// matched, if any: a new account when none matched, else as
/// `existing_user_outcome` says.
pub fn matched_user_outcome(existing: Option<&User>, abs_id: &str, sync_libraries: bool) -> (r: AbsUserOutcome)
    ensures
        match existing {
            None => r == AbsUserOutcome::Created,
            Some(user) => if user.spec_is_root() {
                r == AbsUserOutcome::Skipped
            } else {
                r == (AbsUserOutcome::Existing {
                    linked: crate::text::opt_string_view(user.abs_user_id) != Some(abs_id@),
                    libraries_set: sync_libraries,
                })
            },
        },
{
    match existing {
        None => AbsUserOutcome::Created,
        Some(user) => existing_user_outcome(user, abs_id, sync_libraries),
    }
}

pub open spec fn strictly_increasing(s: Seq<i64>) -> bool {
    forall|i: int, j: int| 0 <= i < j < s.len() ==> s[i] < s[j]
}

#[verifier::spinoff_prover]
fn insert_sorted(v: &mut Vec<i64>, x: i64)
    requires
        strictly_increasing(old(v)@),
    ensures
        strictly_increasing(final(v)@),
        forall|y: i64| final(v)@.contains(y) <==> (old(v)@.contains(y) || y == x),
{
    let mut i: usize = 0;
    while i < v.len() && v[i] < x
        invariant
            i <= v.len(),
            forall|k: int| 0 <= k < i ==> v@[k] < x,
        decreases v.len() - i,
    {
        i += 1;
    }
    if i < v.len() && v[i] == x {
        assert(v@[i as int] == x);
        return;
    }
    let ghost old_v = v@;
    v.insert(i, x);
    assert(v@ == old_v.insert(i as int, x));
    assert forall|a: int, b: int| 0 <= a < b < v@.len() implies v@[a] < v@[b] by {
        if a < i && b < i {
        } else if a < i && b == i {
        } else if a < i {
            assert(old_v[a] < old_v[b - 1] || a == b - 1);
        } else if a == i {
            assert(old_v[i as int] > x || (i as int) == b - 1);
            assert(old_v[i as int] <= old_v[b - 1]);
        } else {
        }
    }
    assert forall|y: i64| v@.contains(y) <==> (old_v.contains(y) || y == x) by {
        if v@.contains(y) {
            let k = choose|k: int| 0 <= k < v@.len() && v@[k] == y;
            if k < i {
                assert(old_v[k] == y);
            } else if k > i {
                assert(old_v[k - 1] == y);
            }
        }
        if old_v.contains(y) {
            let k = choose|k: int| 0 <= k < old_v.len() && old_v[k] == y;
            if k < i {
                assert(v@[k] == y);
            } else {
                assert(v@[k + 1] == y);
            }
        }
        if y == x {
            assert(v@[i as int] == x);
        }
    }
}

/// The id of the first local library with Audiobookshelf id `abs`.
pub open spec fn lib_for(abs_libs: Seq<(i64, Seq<char>)>, abs: Seq<char>) -> Option<i64>
    decreases abs_libs.len(),
{
    if abs_libs.len() == 0 {
        None
    } else if abs_libs[0].1 == abs {
        Some(abs_libs[0].0)
    } else {
        lib_for(abs_libs.drop_first(), abs)
    }
}

/// Local ids of the libraries a user may access, in the order listed.
pub open spec fn found_ids(entries: Seq<Json>, abs_libs: Seq<(i64, Seq<char>)>) -> Seq<i64>
    decreases entries.len(),
{
    if entries.len() == 0 {
        Seq::empty()
    } else {
        let rest = found_ids(entries.drop_last(), abs_libs);
        let abs = str_or(entries.last().spec_as_str(), Seq::empty());
        if abs.len() == 0 {
            rest
        } else {
            match lib_for(abs_libs, abs) {
                Some(id) => rest.push(id),
                None => rest,
            }
        }
    }
}

pub open spec fn access_all(user: Json) -> bool {
    match user.spec_get("permissions"@) {
        Some(p) => bool_member(p, "accessAllLibraries"@) == Some(true),
        None => false,
    }
}

fn lib_for_exec(abs_libs: &[(i64, String)], abs: &str) -> (r: Option<i64>)
    ensures
        r == lib_for(crate::workflow::libs_view(abs_libs@), abs@),
{
    let ghost lv = crate::workflow::libs_view(abs_libs@);
    assert(lv.skip(0) =~= lv);
    let mut i: usize = 0;
    while i < abs_libs.len()
        invariant
            i <= abs_libs.len(),
            lv == crate::workflow::libs_view(abs_libs@),
            lib_for(lv, abs@) == lib_for(lv.skip(i as int), abs@),
        decreases abs_libs.len() - i,
    {
        let ghost s = lv.skip(i as int);
        assert(s[0] == lv[i as int]);
        assert(s.drop_first() =~= lv.skip(i + 1));
        if crate::models::str_eq(abs_libs[i].1.as_str(), abs) {
            return Some(abs_libs[i].0);
        }
        i += 1;
    }
    None
}

fn copy_ids(s: &[i64]) -> (r: Vec<i64>)
    ensures
        r@ == s@,
{
    let mut r: Vec<i64> = Vec::new();
    let mut i: usize = 0;
    while i < s.len()
        invariant
            i <= s.len(),
            r@ == s@.take(i as int),
        decreases s.len() - i,
    {
        r.push(s[i]);
        assert(r@ =~= s@.take(i + 1));
        i += 1;
    }
    assert(s@.take(s.len() as int) =~= s@);
    r
}

/// The local libraries a synced user is given: all of them when the user
/// may access all libraries or lists none; else the local libraries whose
/// Audiobookshelf ids the user lists, in increasing id order without
/// repeats, or all of them when none of those is known here.
pub fn resolve_library_ids(abs_user: &Json, abs_libs: &[(i64, String)], all_library_ids: &[i64]) -> (r: Vec<i64>)
    ensures
        ({
            let entries = items_member(*abs_user, "librariesAccessible"@);
            let ids = found_ids(entries, crate::workflow::libs_view(abs_libs@));
            if access_all(*abs_user) || entries.len() == 0 || ids.len() == 0 {
                r@ == all_library_ids@
            } else {
                strictly_increasing(r@) && forall|y: i64| r@.contains(y) <==> ids.contains(y)
            }
        }),
{
    let all_flag = match abs_user.get("permissions") {
        Some(p) => match get_bool(p, "accessAllLibraries") {
            Some(b) => b,
            None => false,
        },
        None => false,
    };
    if all_flag {
        return copy_ids(all_library_ids);
    }
    let entries = get_items(abs_user, "librariesAccessible");
    if entries.len() == 0 {
        return copy_ids(all_library_ids);
    }
    let ghost lv = crate::workflow::libs_view(abs_libs@);
    let mut ids: Vec<i64> = Vec::new();
    let mut sorted: Vec<i64> = Vec::new();
    let mut i: usize = 0;
    while i < entries.len()
        invariant
            i <= entries.len(),
            lv == crate::workflow::libs_view(abs_libs@),
            ids@ == found_ids(entries@.take(i as int), lv),
            strictly_increasing(sorted@),
            forall|y: i64| sorted@.contains(y) <==> ids@.contains(y),
        decreases entries.len() - i,
    {
        let ghost t = entries@.take(i + 1);
        assert(t.drop_last() =~= entries@.take(i as int));
        assert(t.last() == entries@[i as int]);
        let abs: &str = match entries[i].as_str() {
            Some(s) => s,
            None => "",
        };
        assert(abs@ == str_or(entries@[i as int].spec_as_str(), Seq::empty())) by {
            if entries@[i as int].spec_as_str() is None {
                reveal_strlit("");
            }
        }
        if !abs.is_empty() {
            match lib_for_exec(abs_libs, abs) {
                Some(id) => {
                    let ghost before = ids@;
                    ids.push(id);
                    insert_sorted(&mut sorted, id);
                    assert forall|y: i64| ids@.contains(y) <==> (before.contains(y) || y == id) by {
                        if ids@.contains(y) {
                            let k = choose|k: int| 0 <= k < ids@.len() && ids@[k] == y;
                            if k < before.len() {
                                assert(before[k] == y);
                            }
                        }
                        if before.contains(y) {
                            let k = choose|k: int| 0 <= k < before.len() && before[k] == y;
                            assert(ids@[k] == y);
                        }
                        if y == id {
                            assert(ids@[before.len() as int] == id);
                        }
                    }
                },
                None => {},
            }
        } else {
            assert(abs@.len() == 0);
        }
        i += 1;
    }
    assert(entries@.take(entries.len() as int) =~= entries@);
    if ids.len() == 0 {
        return copy_ids(all_library_ids);
    }
    sorted
}

/// Whether the periodic user sync is due: it is enabled, Audiobookshelf is
/// configured, and `elapsed_ms` (time since the last sync; `None` when
/// there was none or its time cannot be read) has reached the interval,
/// which is at least a minute.
pub fn periodic_sync_due(settings: &Settings, elapsed_ms: Option<i64>) -> (r: bool)
    ensures
        r == (settings.abs_user_sync_enabled && trim(settings.audiobookshelf_url@).len() > 0
            && trim(settings.audiobookshelf_token@).len() > 0 && match elapsed_ms {
            Some(e) => e >= (if settings.abs_user_sync_interval_ms > 60000 {
                settings.abs_user_sync_interval_ms
            } else {
                60000
            }),
            None => true,
        }),
{
    if !settings.abs_user_sync_enabled {
        return false;
    }
    if trim_str(settings.audiobookshelf_url.as_str()).len() == 0 || trim_str(
        settings.audiobookshelf_token.as_str(),
    ).len() == 0 {
        return false;
    }
    let interval: i64 = if settings.abs_user_sync_interval_ms > 60000 {
        settings.abs_user_sync_interval_ms
    } else {
        60000
    };
    match elapsed_ms {
        Some(e) => e >= interval,
        None => true,
    }
}

} // verus!
