//! Path primitives over `str` paths (Unix separators).
//!
//! `path_join` follows `PathBuf::push` exactly and is verified here; the
//! component-wise operations of `std::path::Path` (file name, parent,
//! prefix stripping, equality) are called through small wrappers whose
//! results are named, and existence on disk is an outside observation.
use vstd::prelude::*;

use crate::text::{chars_to_string, extend_chars, opt_string_view, str_chars};

verus! {

broadcast use vstd::string::group_string_axioms;

/// `PathBuf::push` (and so `Path::join`): an absolute `p` replaces `base`;
/// otherwise a `/` is inserted when `base` is non-empty and does not already
/// end with one.
pub open spec fn spec_join(base: Seq<char>, p: Seq<char>) -> Seq<char> {
    if p.len() > 0 && p[0] == '/' {
        p
    } else if base.len() > 0 && base.last() != '/' {
        base + seq!['/'] + p
    } else {
        base + p
    }
}

pub fn join_chars(base: &[char], p: &[char]) -> (r: Vec<char>)
    ensures
        r@ == spec_join(base@, p@),
{
    let mut r: Vec<char> = Vec::new();
    if p.len() > 0 && p[0] == '/' {
        extend_chars(&mut r, p);
        return r;
    }
    extend_chars(&mut r, base);
    if base.len() > 0 && base[base.len() - 1] != '/' {
        r.push('/');
    }
    extend_chars(&mut r, p);
    r
}

pub fn path_join(base: &str, p: &str) -> (r: String)
    ensures
        r@ == spec_join(base@, p@),
{
    let b = str_chars(base);
    let q = str_chars(p);
    let r = join_chars(b.as_slice(), q.as_slice());
    chars_to_string(r.as_slice())
}

/// What `Path::file_name` returns for a path (its last normal component).
pub uninterp spec fn spec_file_name(p: Seq<char>) -> Option<Seq<char>>;

/// What `Path::parent` returns for a path.
pub uninterp spec fn spec_parent(p: Seq<char>) -> Option<Seq<char>>;

/// What `Path::strip_prefix` returns: the rest of `p` after the components
/// of `base`, when `base` is a component-wise prefix of `p`.
pub uninterp spec fn spec_strip_prefix(p: Seq<char>, base: Seq<char>) -> Option<Seq<char>>;

/// Component-wise path equality (`Path == Path`).
pub uninterp spec fn spec_path_eq(a: Seq<char>, b: Seq<char>) -> bool;

/// `Path::file_name`.
#[verifier::external_body]
pub(crate) fn path_file_name(p: &str) -> (r: Option<String>)
    ensures
        opt_string_view(r) == spec_file_name(p@),
{
    std::path::Path::new(p).file_name().map(|s| s.to_string_lossy().into_owned())
}

/// `Path::parent`.
#[verifier::external_body]
pub(crate) fn path_parent(p: &str) -> (r: Option<String>)
    ensures
        opt_string_view(r) == spec_parent(p@),
{
    std::path::Path::new(p).parent().map(|s| s.to_string_lossy().into_owned())
}

/// `Path::strip_prefix`.
#[verifier::external_body]
pub(crate) fn path_strip_prefix(p: &str, base: &str) -> (r: Option<String>)
    ensures
        opt_string_view(r) == spec_strip_prefix(p@, base@),
{
    std::path::Path::new(p).strip_prefix(base).ok().map(|s| s.to_string_lossy().into_owned())
}

/// `Path == Path`.
#[verifier::external_body]
pub(crate) fn path_eq(a: &str, b: &str) -> (r: bool)
    ensures
        r == spec_path_eq(a@, b@),
{
    std::path::Path::new(a) == std::path::Path::new(b)
}

/// `Path::exists`: whether something is on disk at `p` right now.  Nothing
/// is stated of the answer, which depends on the file system.
#[verifier::external_body]
pub(crate) fn path_exists(p: &str) -> (r: bool) {
    std::path::Path::new(p).exists()
}

} // verus!
