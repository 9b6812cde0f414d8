//! Libraries: where books are imported, and how they are brought over from
//! Audiobookshelf.
use vstd::prelude::*;

use crate::error::{bad_request, fails_bad, AppError};
use crate::json::{get_items, get_str, str_member, Json};
use crate::models::{Library, Settings};
use crate::text::{
    chars_to_string, char_is_ascii_alnum, char_lower, is_ascii_alnum, lower, opt_string_view,
    str_chars, trim, trim_end_char, trim_end_char_exec, trim_str,
};

verus! {

/// A library as the administrator creates or edits it.
#[derive(Debug, Clone)]
pub struct UpsertLibraryRequest {
    pub name: String,
    pub path: String,
    pub abs_id: Option<String>,
}

/// Audiobookshelf credentials given with a library sync; the stored ones
/// are used for those left out.
#[derive(Debug, Clone)]
pub struct SyncAbsRequest {
    pub audiobookshelf_url: Option<String>,
    pub audiobookshelf_token: Option<String>,
}

pub open spec fn slug_char(c: char) -> char {
    if is_ascii_alnum(c) {
        lower(c)
    } else {
        '-'
    }
}

pub open spec fn spec_unset_path(abs_id: Seq<char>, name: Seq<char>) -> Seq<char> {
    if abs_id.len() > 0 {
        crate::lits::lit_unset_prefix() + abs_id
    } else {
        crate::lits::lit_unset_prefix() + name.map_values(|c: char| slug_char(c))
    }
}

/// The placeholder container path of a library brought over from
/// Audiobookshelf, until the administrator sets its mount:
/// `__unset__/` and its Audiobookshelf id, or a slug of its name.
pub fn unset_path_for(abs_id: &str, name: &str) -> (r: String)
    ensures
        r@ == spec_unset_path(abs_id@, name@),
{
    let mut v = crate::lits::mk_unset_prefix();
    let ghost prefix = v@;
    if !abs_id.is_empty() {
        let a = str_chars(abs_id);
        crate::text::extend_chars(&mut v, a.as_slice());
        return chars_to_string(v.as_slice());
    }
    let n = str_chars(name);
    let mut i: usize = 0;
    while i < n.len()
        invariant
            i <= n.len(),
            n@ == name@,
            prefix == crate::lits::lit_unset_prefix(),
            v@ == prefix + n@.take(i as int).map_values(|c: char| slug_char(c)),
        decreases n.len() - i,
    {
        let c = n[i];
        let s = if char_is_ascii_alnum(c) {
            char_lower(c)
        } else {
            '-'
        };
        v.push(s);
        assert(n@.take(i + 1).map_values(|c: char| slug_char(c)) =~= n@.take(i as int).map_values(
            |c: char| slug_char(c),
        ).push(slug_char(c)));
        i += 1;
    }
    assert(n@.take(n.len() as int) =~= n@);
    chars_to_string(v.as_slice())
}

/// A library's name and container path as entered: both trimmed, the path
/// without trailing `/`. Both are needed, and the path cannot be a
/// placeholder.
pub fn validate_library(body: &UpsertLibraryRequest) -> (r: Result<(String, String), AppError>)
    ensures
        ({
            let name = trim(body.name@);
            let path = trim_end_char(trim(body.path@), '/');
            if name.len() == 0 || path.len() == 0 {
                fails_bad(r, "Name and path are required"@)
            } else if Library::spec_path_needs_config(path) {
                fails_bad(r, "Set a real container path (the mount point inside this container)"@)
            } else {
                r matches Ok(p) && p.0@ == name && p.1@ == path
            }
        }),
{
    let name = trim_str(body.name.as_str());
    let t = trim_str(body.path.as_str());
    let path = trim_end_char_exec(t.as_slice(), '/');
    if name.len() == 0 || path.len() == 0 {
        return Err(bad_request("Name and path are required"));
    }
    let path_s = chars_to_string(path.as_slice());
    if Library::path_needs_config(path_s.as_str()) {
        return Err(bad_request("Set a real container path (the mount point inside this container)"));
    }
    Ok((chars_to_string(name.as_slice()), path_s))
}

/// The last library cannot be deleted.
pub fn check_library_delete(count: i64) -> (r: Result<(), AppError>)
    ensures
        r is Ok <==> count > 1,
        r is Err ==> fails_bad(r, "At least one library must remain"@),
{
    if count <= 1 {
        Err(bad_request("At least one library must remain"))
    } else {
        Ok(())
    }
}

pub open spec fn given(o: Option<Seq<char>>) -> Option<Seq<char>> {
    match o {
        Some(s) => if trim(s).len() > 0 {
            Some(trim(s))
        } else {
            None
        },
        None => None,
    }
}

fn given_exec(o: &Option<String>) -> (r: Option<Vec<char>>)
    ensures
        match given(opt_string_view(*o)) {
            Some(s) => r is Some && r->0@ == s,
            None => r is None,
        },
{
    match o {
        Some(s) => {
            let t = trim_str(s.as_str());
            if t.len() > 0 {
                Some(t)
            } else {
                None
            }
        },
        None => None,
    }
}

/// The Audiobookshelf URL (without trailing `/`) and token a library sync
/// uses: those given, trimmed, else the stored ones. Both are needed.
pub fn abs_credentials(body: &SyncAbsRequest, settings: &Settings) -> (r: Result<(String, String), AppError>)
    ensures
        ({
            let url = match given(opt_string_view(body.audiobookshelf_url)) {
                Some(u) => u,
                None => settings.audiobookshelf_url@,
            };
            let base = trim_end_char(url, '/');
            let token = match given(opt_string_view(body.audiobookshelf_token)) {
                Some(t) => t,
                None => settings.audiobookshelf_token@,
            };
            if base.len() == 0 || token.len() == 0 {
                fails_bad(r, "Audiobookshelf URL and API token are required"@)
            } else {
                r matches Ok(p) && p.0@ == base && p.1@ == token
            }
        }),
{
    let url = match given_exec(&body.audiobookshelf_url) {
        Some(u) => u,
        None => str_chars(settings.audiobookshelf_url.as_str()),
    };
    let base = trim_end_char_exec(url.as_slice(), '/');
    let token = match given_exec(&body.audiobookshelf_token) {
        Some(t) => t,
        None => str_chars(settings.audiobookshelf_token.as_str()),
    };
    if base.len() == 0 || token.len() == 0 {
        return Err(bad_request("Audiobookshelf URL and API token are required"));
    }
    Ok((chars_to_string(base.as_slice()), chars_to_string(token.as_slice())))
}

/// Credentials given with a library sync are saved for later use.
pub fn saves_credentials(body: &SyncAbsRequest) -> (r: bool)
    ensures
        r == (given(opt_string_view(body.audiobookshelf_url)) is Some || given(
            opt_string_view(body.audiobookshelf_token),
        ) is Some),
{
    given_exec(&body.audiobookshelf_url).is_some() || given_exec(&body.audiobookshelf_token).is_some()
}

/// The fields of an Audiobookshelf library that the sync reads.
#[derive(Debug, Clone)]
pub struct AbsLibraryFields {
    /// `id`, empty when absent.
    pub abs_id: String,
    /// `name`, `Library` when absent.
    pub name: String,
    /// The library's folder in Audiobookshelf, trimmed and without trailing
    /// `/` (empty when unknown).
    pub abs_folder: String,
}

/// The member holding a library's folder: `folderPath`, else `fullPath`
/// (or `path`) of the first entry of `folders`.
pub open spec fn folder_member(lib: Json) -> Option<Seq<char>> {
    match lib.spec_get("folderPath"@) {
        Some(v) => v.spec_as_str(),
        None => {
            let folders = match lib.spec_get("folders"@) {
                Some(f) => f.spec_items(),
                None => None,
            };
            match folders {
                Some(fs) => if fs.len() > 0 {
                    match fs[0].spec_get("fullPath"@) {
                        Some(v) => v.spec_as_str(),
                        None => str_member(fs[0], "path"@),
                    }
                } else {
                    None
                },
                None => None,
            }
        },
    }
}

pub fn abs_library_fields(lib: &Json) -> (r: AbsLibraryFields)
    ensures
        r.abs_id@ == crate::abs_sync::str_or(str_member(*lib, "id"@), Seq::empty()),
        r.name@ == crate::abs_sync::str_or(str_member(*lib, "name"@), "Library"@),
        r.abs_folder@ == trim_end_char(
            trim(crate::abs_sync::str_or(folder_member(*lib), Seq::empty())),
            '/',
        ),
{
    let abs_id: String = match get_str(lib, "id") {
        Some(s) => s.to_owned(),
        None => {
            proof {
                reveal_strlit("");
            }
            "".to_owned()
        },
    };
    let name: String = match get_str(lib, "name") {
        Some(s) => s.to_owned(),
        None => "Library".to_owned(),
    };
    let folder: Option<&str> = match lib.get("folderPath") {
        Some(v) => v.as_str(),
        None => {
            let fs: Option<&Vec<Json>> = match lib.get("folders") {
                Some(f) => f.items(),
                None => None,
            };
            match fs {
                Some(fs) => if fs.len() > 0 {
                    match fs[0].get("fullPath") {
                        Some(v) => v.as_str(),
                        None => get_str(&fs[0], "path"),
                    }
                } else {
                    None
                },
                None => None,
            }
        },
    };
    let f: Vec<char> = match folder {
        Some(s) => str_chars(s),
        None => Vec::new(),
    };
    assert(f@ == crate::abs_sync::str_or(folder_member(*lib), Seq::empty()));
    let t = crate::text::trim_chars(f.as_slice());
    let folder_clean = trim_end_char_exec(t.as_slice(), '/');
    AbsLibraryFields {
        abs_id,
        name,
        abs_folder: chars_to_string(folder_clean.as_slice()),
    }
}

/// What a library sync writes for one Audiobookshelf library.
#[derive(Debug, Clone)]
pub struct LibrarySyncWrite {
    pub name: String,
    pub abs_id: Option<String>,
    pub abs_path: Option<String>,
    /// The container path of a new library (the stored one is kept for an
    /// existing library).
    pub path: String,
    /// The library still needs its container path set.
    pub needs_path: bool,
}

pub open spec fn nonempty(s: Seq<char>) -> Option<Seq<char>> {
    if s.len() > 0 {
        Some(s)
    } else {
        None
    }
}

/// What a library sync writes: the name from Audiobookshelf, its id and
/// folder (the stored ones where Audiobookshelf gives none); an existing
/// library keeps its container path, a new one gets a placeholder.
pub fn library_sync_write(existing: Option<&Library>, fields: &AbsLibraryFields) -> (r: LibrarySyncWrite)
    ensures
        r.name@ == fields.name@,
        match existing {
            Some(row) => {
                &&& opt_string_view(r.abs_id) == (if fields.abs_id@.len() == 0 {
                    opt_string_view(row.abs_id)
                } else {
                    Some(fields.abs_id@)
                })
                &&& opt_string_view(r.abs_path) == (if fields.abs_folder@.len() == 0 {
                    opt_string_view(row.abs_path)
                } else {
                    Some(fields.abs_folder@)
                })
                &&& r.path@ == row.path@
                &&& r.needs_path == Library::spec_path_needs_config(row.path@)
            },
            None => {
                &&& opt_string_view(r.abs_id) == nonempty(fields.abs_id@)
                &&& opt_string_view(r.abs_path) == nonempty(fields.abs_folder@)
                &&& r.path@ == spec_unset_path(fields.abs_id@, fields.name@)
                &&& r.needs_path
            },
        },
{
    let name = fields.name.as_str().to_owned();
    match existing {
        Some(row) => {
            let abs_id = if fields.abs_id.as_str().is_empty() {
                match &row.abs_id {
                    Some(a) => Some(a.as_str().to_owned()),
                    None => None,
                }
            } else {
                Some(fields.abs_id.as_str().to_owned())
            };
            let abs_path = if fields.abs_folder.as_str().is_empty() {
                match &row.abs_path {
                    Some(a) => Some(a.as_str().to_owned()),
                    None => None,
                }
            } else {
                Some(fields.abs_folder.as_str().to_owned())
            };
            LibrarySyncWrite {
                name,
                abs_id,
                abs_path,
                path: row.path.as_str().to_owned(),
                needs_path: Library::path_needs_config(row.path.as_str()),
            }
        },
        None => {
            let abs_id = if fields.abs_id.as_str().is_empty() {
                None
            } else {
                Some(fields.abs_id.as_str().to_owned())
            };
            let abs_path = if fields.abs_folder.as_str().is_empty() {
                None
            } else {
                Some(fields.abs_folder.as_str().to_owned())
            };
            LibrarySyncWrite {
                name,
                abs_id,
                abs_path,
                path: unset_path_for(fields.abs_id.as_str(), fields.name.as_str()),
                needs_path: true,
            }
        },
    }
}

} // verus!
