//! Where downloaded files are found and where imported books go.
//!
//! qBittorrent may report paths as its own container sees them; these
//! functions list, in order, the places a torrent's files may be found
//! here, and the library folder a book is copied into.
use vstd::prelude::*;

use crate::lits::{lit_complete, lit_complete_bs, lit_complete_cap_s, lit_complete_s, lit_completed, lit_completed_s, lit_dash_sep, lit_done, lit_incomplete, lit_incomplete_bs, lit_incomplete_cap_s, lit_incomplete_s, lit_unknown, lit_unknown_author, mk_backslash, mk_complete, mk_complete_bs, mk_complete_cap_s, mk_complete_s, mk_completed, mk_completed_s, mk_dash_sep, mk_done, mk_incomplete, mk_incomplete_bs, mk_incomplete_cap_s, mk_incomplete_s, mk_slash, mk_unknown, mk_unknown_author};
use crate::models::BookMetadataPublic;
use crate::paths::{
    join_chars, path_eq, path_exists, path_file_name, path_parent, path_strip_prefix, spec_file_name,
    spec_join, spec_parent, spec_path_eq, spec_strip_prefix,
};
use crate::text::{
    char_is_control, char_is_ws, chars_to_string, contains, contains_exec, copy_chars,
    extend_chars, is_control, lower_seq, opt_str_view, opt_string_view, replace, replace_exec,
    seqs_view, slice_chars, str_chars, to_ascii_lower, trim, trim_char, trim_char_exec, trim_chars,
    trim_start_char, trim_start_char_exec,
};

verus! {

broadcast use vstd::string::group_string_axioms;

// ---------------------------------------------------------------------------
// Library folder names
// ---------------------------------------------------------------------------

/// Characters that may not stand in a folder name; they become `_`.
pub open spec fn forbidden_in_name(c: char) -> bool {
    c == '<' || c == '>' || c == ':' || c == '"' || c == '/' || c == '\\' || c == '|' || c == '?'
        || c == '*' || is_control(c)
}

pub open spec fn replace_forbidden(s: Seq<char>) -> Seq<char> {
    s.map_values(|c: char| if forbidden_in_name(c) { '_' } else { c })
}

/// A safe folder name: forbidden characters become `_`, surrounding
/// whitespace and then surrounding dots are dropped, and an empty result
/// becomes `Unknown`.
pub open spec fn spec_sanitize_component(name: Seq<char>) -> Seq<char> {
    let t = trim_char(trim(replace_forbidden(name)), '.');
    if t.len() == 0 {
        lit_unknown()
    } else {
        t
    }
}

pub fn sanitize_component(name: &[char]) -> (r: Vec<char>)
    ensures
        r@ == spec_sanitize_component(name@),
{
    let mut cleaned: Vec<char> = Vec::new();
    let mut i: usize = 0;
    while i < name.len()
        invariant
            i <= name.len(),
            cleaned@ == replace_forbidden(name@.take(i as int)),
        decreases name.len() - i,
    {
        let c = name[i];
        let bad = c == '<' || c == '>' || c == ':' || c == '"' || c == '/' || c == '\\' || c
            == '|' || c == '?' || c == '*' || char_is_control(c);
        cleaned.push(if bad { '_' } else { c });
        assert(cleaned@ =~= replace_forbidden(name@.take(i + 1)));
        i += 1;
    }
    assert(name@.take(name.len() as int) =~= name@);
    let t = trim_chars(cleaned.as_slice());
    let t = trim_char_exec(t.as_slice(), '.');
    if t.len() == 0 {
        mk_unknown()
    } else {
        t
    }
}

pub open spec fn first_author(authors: Seq<Seq<char>>) -> Seq<char> {
    if authors.len() > 0 {
        authors[0]
    } else {
        lit_unknown_author()
    }
}

/// The book folder name: `<index> - <title>` when a non-empty series index
/// is known, else the title.
pub open spec fn book_title_part(title: Seq<char>, series_index: Option<Seq<char>>) -> Seq<char> {
    match series_index {
        Some(idx) => if idx.len() > 0 {
            idx + lit_dash_sep() + title
        } else {
            title
        },
        None => title,
    }
}

/// `Author/Series/Title` (the series level only when the book has one),
/// each part made safe; the template does not change the layout.
pub open spec fn spec_library_relative_path(
    authors: Seq<Seq<char>>,
    series: Option<Seq<char>>,
    series_index: Option<Seq<char>>,
    title: Seq<char>,
) -> Seq<char> {
    let author = spec_sanitize_component(first_author(authors));
    let book = spec_sanitize_component(book_title_part(title, series_index));
    match series {
        Some(s) => if s.len() > 0 {
            author + seq!['/'] + spec_sanitize_component(s) + seq!['/'] + book
        } else {
            author + seq!['/'] + book
        },
        None => author + seq!['/'] + book,
    }
}

/// A book of a non-empty series `s` gets its own series folder between the
/// author and the book, whatever its series index: `Author/Series/Book`,
/// the series index only changing the book part. A book without a series
/// (or with a blank one) goes right under its author.
pub proof fn law_series_gets_its_folder(
    authors: Seq<Seq<char>>,
    s: Seq<char>,
    series_index: Option<Seq<char>>,
    other_index: Option<Seq<char>>,
    title: Seq<char>,
)
    ensures
        s.len() > 0 ==> spec_library_relative_path(authors, Some(s), series_index, title)
            == spec_sanitize_component(first_author(authors)) + seq!['/'] + spec_sanitize_component(s) + seq!['/']
            + spec_sanitize_component(book_title_part(title, series_index)),
        s.len() > 0 ==> spec_library_relative_path(authors, Some(s), series_index, title).take(
            spec_sanitize_component(first_author(authors)).len() as int + spec_sanitize_component(s).len() as int + 2,
        ) == spec_library_relative_path(authors, Some(s), other_index, title).take(
            spec_sanitize_component(first_author(authors)).len() as int + spec_sanitize_component(s).len() as int + 2,
        ),
        spec_library_relative_path(authors, None, series_index, title) == spec_sanitize_component(
            first_author(authors),
        ) + seq!['/'] + spec_sanitize_component(book_title_part(title, series_index)),
        spec_library_relative_path(authors, Some(Seq::empty()), series_index, title)
            == spec_library_relative_path(authors, None, series_index, title),
{
    let a = spec_sanitize_component(first_author(authors));
    let b1 = spec_sanitize_component(book_title_part(title, series_index));
    let b2 = spec_sanitize_component(book_title_part(title, other_index));
    if s.len() > 0 {
        let sc = spec_sanitize_component(s);
        let n = a.len() as int + sc.len() as int + 2;
        assert((a + seq!['/'] + sc + seq!['/'] + b1).take(n) =~= a + seq!['/'] + sc + seq!['/']);
        assert((a + seq!['/'] + sc + seq!['/'] + b2).take(n) =~= a + seq!['/'] + sc + seq!['/']);
    }
}

/// Folder of a book inside its library, relative to the library root.
pub fn build_library_relative_path(template: &str, meta: &BookMetadataPublic) -> (r: String)
    ensures
        r@ == spec_library_relative_path(
            seqs_view(meta.authors@),
            opt_string_view(meta.series),
            opt_string_view(meta.series_index),
            meta.title@,
        ),
{
    let author_raw = if meta.authors.len() > 0 {
        str_chars(meta.authors[0].as_str())
    } else {
        mk_unknown_author()
    };
    let title = str_chars(meta.title.as_str());
    let book_raw = match &meta.series_index {
        Some(idx) => {
            let iv = str_chars(idx.as_str());
            if iv.len() > 0 {
                let mut b = iv;
                let sep = mk_dash_sep();
                extend_chars(&mut b, sep.as_slice());
                extend_chars(&mut b, title.as_slice());
                b
            } else {
                title
            }
        },
        None => title,
    };
    let author = sanitize_component(author_raw.as_slice());
    let book = sanitize_component(book_raw.as_slice());
    let mut path = author;
    match &meta.series {
        Some(s) => {
            let sv = str_chars(s.as_str());
            if sv.len() > 0 {
                let series = sanitize_component(sv.as_slice());
                path.push('/');
                extend_chars(&mut path, series.as_slice());
            }
        },
        None => {},
    }
    path.push('/');
    extend_chars(&mut path, book.as_slice());
    proof {
        assert(path@ =~= spec_library_relative_path(
            seqs_view(meta.authors@),
            opt_string_view(meta.series),
            opt_string_view(meta.series_index),
            meta.title@,
        ));
    }
    chars_to_string(path.as_slice())
}

// ---------------------------------------------------------------------------
// Where a torrent's files may be
// ---------------------------------------------------------------------------

/// `text` with one substitution appended when `from` occurs in it.
pub open spec fn push_if_contains(out: Seq<Seq<char>>, p: Seq<char>, from: Seq<char>, to: Seq<char>) -> Seq<Seq<char>> {
    if contains(p, from) {
        out.push(replace(p, from, to))
    } else {
        out
    }
}

/// Sibling folders tried when the last folder of `p` is `incomplete`.
pub open spec fn incomplete_folder_swap(p: Seq<char>) -> Seq<Seq<char>> {
    match (spec_parent(p), spec_file_name(p)) {
        (Some(parent), Some(name)) => if lower_seq(name) == lit_incomplete() {
            seq![spec_join(parent, lit_complete()), spec_join(parent, lit_completed())]
        } else {
            Seq::empty()
        },
        _ => Seq::empty(),
    }
}

/// The path as reported, then its `incomplete` → `complete`/`completed`
/// variants (a blank or missing path has none).
pub open spec fn spec_content_candidates(path: Option<Seq<char>>) -> Seq<Seq<char>> {
    match path {
        None => Seq::empty(),
        Some(p) => if p.len() == 0 {
            Seq::empty()
        } else {
            let s0 = seq![p];
            let s1 = push_if_contains(s0, p, lit_incomplete_s(), lit_complete_s());
            let s2 = push_if_contains(s1, p, lit_incomplete_cap_s(), lit_complete_cap_s());
            let s3 = push_if_contains(s2, p, lit_incomplete_s(), lit_completed_s());
            let s4 = push_if_contains(s3, p, lit_incomplete_bs(), lit_complete_bs());
            s4 + incomplete_folder_swap(p)
        },
    }
}

fn push_string(out: &mut Vec<String>, v: &[char])
    ensures
        seqs_view(final(out)@) == seqs_view(old(out)@).push(v@),
{
    let s = chars_to_string(v);
    out.push(s);
    assert(seqs_view(out@) =~= seqs_view(old(out)@).push(v@));
}

fn push_if_contains_exec(out: &mut Vec<String>, p: &[char], from: &[char], to: &[char])
    requires
        from.len() > 0,
    ensures
        seqs_view(final(out)@) == push_if_contains(seqs_view(old(out)@), p@, from@, to@),
{
    if contains_exec(p, from) {
        let r = replace_exec(p, from, to);
        push_string(out, r.as_slice());
    }
}

fn incomplete_folder_swap_exec(p: &[char]) -> (r: Vec<String>)
    ensures
        seqs_view(r@) == incomplete_folder_swap(p@),
{
    let mut out: Vec<String> = Vec::new();
    let ps = chars_to_string(p);
    let parent = path_parent(ps.as_str());
    let name = path_file_name(ps.as_str());
    if let Some(parent) = parent {
        if let Some(name) = name {
            let nv = str_chars(name.as_str());
            let lower = to_ascii_lower(nv.as_slice());
            let inc = mk_incomplete();
            if crate::text::chars_eq(lower.as_slice(), inc.as_slice()) {
                let pv = str_chars(parent.as_str());
                let c1 = mk_complete();
                let c2 = mk_completed();
                let j1 = join_chars(pv.as_slice(), c1.as_slice());
                let j2 = join_chars(pv.as_slice(), c2.as_slice());
                push_string(&mut out, j1.as_slice());
                push_string(&mut out, j2.as_slice());
                assert(seqs_view(out@) =~= incomplete_folder_swap(p@));
                return out;
            }
        }
    }
    assert(seqs_view(out@) =~= Seq::<Seq<char>>::empty());
    out
}

pub fn append_strings(out: &mut Vec<String>, more: &[String])
    ensures
        seqs_view(final(out)@) == seqs_view(old(out)@) + seqs_view(more@),
{
    let mut i: usize = 0;
    while i < more.len()
        invariant
            i <= more.len(),
            seqs_view(out@) == seqs_view(old(out)@) + seqs_view(more@.take(i as int)),
        decreases more.len() - i,
    {
        let s = more[i].clone();
        assert(s@ == more@[i as int]@);
        let ghost before = out@;
        out.push(s);
        assert(seqs_view(out@) =~= seqs_view(before).push(s@));
        assert(seqs_view(more@.take(i + 1)) =~= seqs_view(more@.take(i as int)).push(more@[i as int]@));
        assert(seqs_view(out@) =~= seqs_view(old(out)@) + seqs_view(more@.take(i + 1)));
        i += 1;
    }
    assert(more@.take(more.len() as int) =~= more@);
}

/// Where the files of a torrent reported at `path` may be.
pub fn content_path_candidates(path: Option<&str>) -> (r: Vec<String>)
    ensures
        seqs_view(r@) == spec_content_candidates(opt_str_view(path)),
{
    let mut out: Vec<String> = Vec::new();
    let p = match path {
        None => {
            return out;
        },
        Some(p) => p,
    };
    let pv = str_chars(p);
    if pv.len() == 0 {
        assert(seqs_view(out@) =~= Seq::<Seq<char>>::empty());
        return out;
    }
    push_string(&mut out, pv.as_slice());
    let inc = mk_incomplete_s();
    let comp = mk_complete_s();
    let inc_cap = mk_incomplete_cap_s();
    let comp_cap = mk_complete_cap_s();
    let compd = mk_completed_s();
    let inc_bs = mk_incomplete_bs();
    let comp_bs = mk_complete_bs();
    push_if_contains_exec(&mut out, pv.as_slice(), inc.as_slice(), comp.as_slice());
    push_if_contains_exec(&mut out, pv.as_slice(), inc_cap.as_slice(), comp_cap.as_slice());
    push_if_contains_exec(&mut out, pv.as_slice(), inc.as_slice(), compd.as_slice());
    push_if_contains_exec(&mut out, pv.as_slice(), inc_bs.as_slice(), comp_bs.as_slice());
    let swap = incomplete_folder_swap_exec(pv.as_slice());
    append_strings(&mut out, swap.as_slice());
    out
}

/// The download roots to try for a configured root: the root itself; when
/// its last folder name contains `incomplete`, the `complete`, `completed`
/// and `done` siblings come first; when it is `complete` or `completed`, the
/// `incomplete` sibling is added after it.
pub open spec fn sibling_unless_same(lr: Seq<char>, parent: Seq<char>, alt: Seq<char>) -> Seq<Seq<char>> {
    if spec_path_eq(lr, spec_join(parent, alt)) {
        Seq::empty()
    } else {
        seq![spec_join(parent, alt)]
    }
}

pub open spec fn spec_local_roots(root: Seq<char>) -> Seq<Seq<char>> {
    let lr = trim(root);
    if lr.len() == 0 {
        Seq::empty()
    } else {
        match (spec_parent(lr), spec_file_name(lr)) {
            (Some(parent), Some(name)) => {
                let lower = lower_seq(name);
                if contains(lower, lit_incomplete()) {
                    sibling_unless_same(lr, parent, lit_complete()) + sibling_unless_same(
                        lr,
                        parent,
                        lit_completed(),
                    ) + sibling_unless_same(lr, parent, lit_done()) + seq![lr]
                } else if lower == lit_complete() || lower == lit_completed() {
                    seq![lr] + sibling_unless_same(lr, parent, lit_incomplete())
                } else {
                    seq![lr]
                }
            },
            _ => seq![lr],
        }
    }
}

fn sibling_unless_same_exec(out: &mut Vec<String>, lr: &str, parent: &[char], alt: &[char])
    ensures
        seqs_view(final(out)@) == seqs_view(old(out)@) + sibling_unless_same(lr@, parent@, alt@),
{
    let j = join_chars(parent, alt);
    let js = chars_to_string(j.as_slice());
    if !path_eq(lr, js.as_str()) {
        push_string(out, j.as_slice());
        assert(seqs_view(final(out)@) =~= seqs_view(old(out)@) + sibling_unless_same(
            lr@,
            parent@,
            alt@,
        ));
    } else {
        assert(seqs_view(out@) =~= seqs_view(old(out)@) + sibling_unless_same(lr@, parent@, alt@));
    }
}

/// Download roots to look under, in order of preference.
pub fn local_root_candidates(local_download_root: &str) -> (r: Vec<String>)
    ensures
        seqs_view(r@) == spec_local_roots(local_download_root@),
{
    let mut out: Vec<String> = Vec::new();
    let lr = trim_str_chars(local_download_root);
    if lr.len() == 0 {
        assert(seqs_view(out@) =~= Seq::<Seq<char>>::empty());
        return out;
    }
    let lrs = chars_to_string(lr.as_slice());
    let parent = path_parent(lrs.as_str());
    let name = path_file_name(lrs.as_str());
    if let Some(parent) = parent {
        if let Some(name) = name {
            let pv = str_chars(parent.as_str());
            let nv = str_chars(name.as_str());
            let lower = to_ascii_lower(nv.as_slice());
            let inc = mk_incomplete();
            let comp = mk_complete();
            let compd = mk_completed();
            if contains_exec(lower.as_slice(), inc.as_slice()) {
                let done = mk_done();
                sibling_unless_same_exec(&mut out, lrs.as_str(), pv.as_slice(), comp.as_slice());
                sibling_unless_same_exec(&mut out, lrs.as_str(), pv.as_slice(), compd.as_slice());
                sibling_unless_same_exec(&mut out, lrs.as_str(), pv.as_slice(), done.as_slice());
                push_string(&mut out, lr.as_slice());
                return out;
            } else if crate::text::chars_eq(lower.as_slice(), comp.as_slice())
                || crate::text::chars_eq(lower.as_slice(), compd.as_slice()) {
                push_string(&mut out, lr.as_slice());
                sibling_unless_same_exec(&mut out, lrs.as_str(), pv.as_slice(), inc.as_slice());
                return out;
            }
        }
    }
    push_string(&mut out, lr.as_slice());
    out
}

fn trim_str_chars(s: &str) -> (r: Vec<char>)
    ensures
        r@ == trim(s@),
{
    let v = str_chars(s);
    trim_chars(v.as_slice())
}

/// A relative path as qBittorrent lists it, cleaned: leading `/` dropped,
/// then `\` turned into `/`.
pub open spec fn spec_norm_rel(relative: Seq<char>) -> Seq<char> {
    replace(trim_start_char(relative, '/'), seq!['\\'], seq!['/'])
}

pub fn norm_rel(relative: &[char]) -> (r: Vec<char>)
    ensures
        r@ == spec_norm_rel(relative@),
{
    let t = trim_start_char_exec(relative, '/');
    let bs = mk_backslash();
    let sl = mk_slash();
    assert(bs@ =~= seq!['\\']);
    assert(sl@ =~= seq!['/']);
    replace_exec(t.as_slice(), bs.as_slice(), sl.as_slice())
}

/// Index of the first `/` at or after `i` (or the end).
pub open spec fn slash_from(s: Seq<char>, i: int) -> int
    decreases s.len() - i,
{
    if i < 0 || i >= s.len() || s[i] == '/' {
        i
    } else {
        slash_from(s, i + 1)
    }
}

pub proof fn lemma_slash_from(s: Seq<char>, i: int)
    requires
        0 <= i <= s.len(),
    ensures
        i <= slash_from(s, i) <= s.len(),
    decreases s.len() - i,
{
    if i < s.len() && s[i] != '/' {
        lemma_slash_from(s, i + 1);
    }
}

/// Paths that a file listed by qBittorrent as `relative` may have under
/// `root`: `root/relative`, and, when the first folder of `relative` is the
/// last folder of `root` (the torrent folder named twice), the path with
/// that folder once.
pub open spec fn spec_source_variants(root: Seq<char>, relative: Seq<char>) -> Seq<Seq<char>> {
    let rel = spec_norm_rel(relative);
    if rel.len() == 0 {
        seq![root]
    } else {
        let out = seq![spec_join(root, rel)];
        let root_name = match spec_file_name(root) {
            Some(n) => n,
            None => Seq::empty(),
        };
        let first = rel.subrange(0, slash_from(rel, 0));
        if root_name.len() > 0 && root_name == first {
            let stripped = trim_start_char(rel.subrange(first.len() as int, rel.len() as int), '/');
            if stripped.len() == 0 {
                out.push(root)
            } else {
                out.push(spec_join(root, stripped))
            }
        } else {
            out
        }
    }
}

pub fn join_source_variants_chars(root: &[char], relative: &[char]) -> (r: Vec<String>)
    ensures
        seqs_view(r@) == spec_source_variants(root@, relative@),
{
    let mut out: Vec<String> = Vec::new();
    let rel = norm_rel(relative);
    if rel.len() == 0 {
        push_string(&mut out, root);
        assert(seqs_view(out@) =~= seq![root@]);
        return out;
    }
    let j = join_chars(root, rel.as_slice());
    push_string(&mut out, j.as_slice());
    let rs = chars_to_string(root);
    let root_name = match path_file_name(rs.as_str()) {
        Some(n) => str_chars(n.as_str()),
        None => Vec::new(),
    };
    let mut end: usize = 0;
    while end < rel.len() && rel[end] != '/'
        invariant
            end <= rel.len(),
            slash_from(rel@, end as int) == slash_from(rel@, 0),
        decreases rel.len() - end,
    {
        end += 1;
    }
    let first = slice_chars(rel.as_slice(), 0, end);
    if root_name.len() > 0 && crate::text::chars_eq(root_name.as_slice(), first.as_slice()) {
        let rest = slice_chars(rel.as_slice(), end, rel.len());
        let stripped = trim_start_char_exec(rest.as_slice(), '/');
        if stripped.len() == 0 {
            push_string(&mut out, root);
        } else {
            let j2 = join_chars(root, stripped.as_slice());
            push_string(&mut out, j2.as_slice());
        }
    }
    out
}

/// Paths that a file listed by qBittorrent may have under `root`.
pub fn join_source_variants(root: &str, relative: &str) -> (r: Vec<String>)
    ensures
        seqs_view(r@) == spec_source_variants(root@, relative@),
{
    let rv = str_chars(root);
    let relv = str_chars(relative);
    join_source_variants_chars(rv.as_slice(), relv.as_slice())
}

// ---------------------------------------------------------------------------
// Resolving a torrent's folder on disk
// ---------------------------------------------------------------------------

pub open spec fn nonempty_path(o: Option<Seq<char>>) -> Option<Seq<char>> {
    match o {
        Some(p) => if p.len() > 0 {
            Some(p)
        } else {
            None
        },
        None => None,
    }
}

/// The first `save` candidate at or after `j` that is a component-wise
/// prefix of `c`, as the rest of `c`.
pub open spec fn first_strip_row(c: Seq<char>, ss: Seq<Seq<char>>, j: int) -> Option<Seq<char>>
    decreases ss.len() - j,
{
    if j < 0 || j >= ss.len() {
        None
    } else if spec_strip_prefix(c, ss[j]) is Some {
        spec_strip_prefix(c, ss[j])
    } else {
        first_strip_row(c, ss, j + 1)
    }
}

/// Scanning content candidates (outer) and save candidates (inner) in order,
/// the path of the content relative to the save folder at the first pair
/// where that relation holds.
pub open spec fn first_strip(cs: Seq<Seq<char>>, ss: Seq<Seq<char>>, i: int) -> Option<Seq<char>>
    decreases cs.len() - i,
{
    if i < 0 || i >= cs.len() {
        None
    } else if first_strip_row(cs[i], ss, 0) is Some {
        first_strip_row(cs[i], ss, 0)
    } else {
        first_strip(cs, ss, i + 1)
    }
}

pub open spec fn join_each(roots: Seq<Seq<char>>, p: Seq<char>) -> Seq<Seq<char>> {
    roots.map_values(|r: Seq<char>| spec_join(r, p))
}

/// How a reported torrent location is looked for here: the paths to probe,
/// in order, and the path used when none of them exists.
///
/// 1. The content path and its `incomplete` → `complete` variants.
/// 2. When both content and save paths are known and some content variant
///    lies under some save variant, that relative path under each download
///    root (falling back to the first root).
/// 3. Else, with a content path: its last name under each download root
///    (falling back to the first root, or to the content path itself).
/// 4. Else, with a save path: its variants (falling back to the first
///    download root, or to the save path).
/// 5. Else the first download root, or the empty path.
pub open spec fn spec_source_plan(content: Option<Seq<char>>, save: Option<Seq<char>>, root: Seq<char>) -> (
    Seq<Seq<char>>,
    Seq<char>,
) {
    let cc = spec_content_candidates(content);
    let locals = spec_local_roots(root);
    let rel = match (nonempty_path(content), nonempty_path(save)) {
        (Some(c), Some(s)) => first_strip(
            spec_content_candidates(Some(c)),
            spec_content_candidates(Some(s)),
            0,
        ),
        _ => None,
    };
    if rel is Some && locals.len() > 0 {
        (cc + join_each(locals, rel->0), spec_join(locals[0], rel->0))
    } else {
        match nonempty_path(content) {
            Some(c) => match spec_file_name(c) {
                Some(name) => (
                    cc + join_each(locals, name),
                    if locals.len() > 0 {
                        spec_join(locals[0], name)
                    } else {
                        c
                    },
                ),
                None => (cc, c),
            },
            None => match nonempty_path(save) {
                Some(sv) => (
                    cc + spec_content_candidates(Some(sv)),
                    if locals.len() > 0 {
                        locals[0]
                    } else {
                        sv
                    },
                ),
                None => (
                    cc,
                    if locals.len() > 0 {
                        locals[0]
                    } else {
                        Seq::empty()
                    },
                ),
            },
        }
    }
}

fn nonempty_opt(o: Option<&str>) -> (r: Option<&str>)
    ensures
        opt_str_view(r) == nonempty_path(opt_str_view(o)),
{
    match o {
        Some(p) => if p.is_empty() {
            None
        } else {
            Some(p)
        },
        None => None,
    }
}

fn first_strip_row_exec(c: &str, ss: &[String], start: usize) -> (r: Option<String>)
    requires
        start <= ss.len(),
    ensures
        opt_string_view(r) == first_strip_row(c@, seqs_view(ss@), start as int),
    decreases ss.len() - start,
{
    if start == ss.len() {
        return None;
    }
    match path_strip_prefix(c, ss[start].as_str()) {
        Some(rel) => Some(rel),
        None => first_strip_row_exec(c, ss, start + 1),
    }
}

fn first_strip_exec(cs: &[String], ss: &[String], start: usize) -> (r: Option<String>)
    requires
        start <= cs.len(),
    ensures
        opt_string_view(r) == first_strip(seqs_view(cs@), seqs_view(ss@), start as int),
    decreases cs.len() - start,
{
    if start == cs.len() {
        return None;
    }
    match first_strip_row_exec(cs[start].as_str(), ss, 0) {
        Some(rel) => Some(rel),
        None => first_strip_exec(cs, ss, start + 1),
    }
}

fn join_each_exec(out: &mut Vec<String>, roots: &[String], p: &str)
    ensures
        seqs_view(final(out)@) == seqs_view(old(out)@) + join_each(seqs_view(roots@), p@),
{
    let pv = str_chars(p);
    let mut i: usize = 0;
    while i < roots.len()
        invariant
            i <= roots.len(),
            pv@ == p@,
            seqs_view(out@) == seqs_view(old(out)@) + join_each(seqs_view(roots@.take(i as int)), p@),
        decreases roots.len() - i,
    {
        let rv = str_chars(roots[i].as_str());
        let j = join_chars(rv.as_slice(), pv.as_slice());
        push_string(out, j.as_slice());
        assert(join_each(seqs_view(roots@.take(i + 1)), p@) =~= join_each(
            seqs_view(roots@.take(i as int)),
            p@,
        ).push(spec_join(roots@[i as int]@, p@)));
        i += 1;
    }
    assert(roots@.take(roots.len() as int) =~= roots@);
}

pub open spec fn plan_probes(content: Option<Seq<char>>, save: Option<Seq<char>>, root: Seq<char>) -> Seq<Seq<char>> {
    spec_source_plan(content, save, root).0
}

pub open spec fn plan_fallback(content: Option<Seq<char>>, save: Option<Seq<char>>, root: Seq<char>) -> Seq<char> {
    spec_source_plan(content, save, root).1
}

/// The probes and fallback of `spec_source_plan`.
pub fn download_source_plan(content_path: Option<&str>, save_path: Option<&str>, local_download_root: &str) -> (r: (Vec<String>, String))
    ensures
        seqs_view(r.0@) == plan_probes(opt_str_view(content_path), opt_str_view(save_path), local_download_root@),
        r.1@ == plan_fallback(opt_str_view(content_path), opt_str_view(save_path), local_download_root@),
{
    let ghost content = opt_str_view(content_path);
    let ghost save = opt_str_view(save_path);
    let mut probes = content_path_candidates(content_path);
    let locals = local_root_candidates(local_download_root);
    let c_ne = nonempty_opt(content_path);
    let s_ne = nonempty_opt(save_path);
    let rel: Option<String> = match (c_ne, s_ne) {
        (Some(c), Some(sv)) => {
            let cs = content_path_candidates(Some(c));
            let ss = content_path_candidates(Some(sv));
            first_strip_exec(cs.as_slice(), ss.as_slice(), 0)
        },
        _ => None,
    };
    if let Some(r) = rel {
        if locals.len() > 0 {
            join_each_exec(&mut probes, locals.as_slice(), r.as_str());
            let fallback = path_join_str(locals[0].as_str(), r.as_str());
            return (probes, fallback);
        }
    }
    match c_ne {
        Some(c) => match path_file_name(c) {
            Some(name) => {
                join_each_exec(&mut probes, locals.as_slice(), name.as_str());
                let fallback = if locals.len() > 0 {
                    path_join_str(locals[0].as_str(), name.as_str())
                } else {
                    c.to_string()
                };
                (probes, fallback)
            },
            None => (probes, c.to_string()),
        },
        None => match s_ne {
            Some(sv) => {
                let more = content_path_candidates(Some(sv));
                append_strings(&mut probes, more.as_slice());
                let fallback = if locals.len() > 0 {
                    locals[0].clone()
                } else {
                    sv.to_string()
                };
                (probes, fallback)
            },
            None => {
                let fallback = if locals.len() > 0 {
                    locals[0].clone()
                } else {
                    String::new()
                };
                (probes, fallback)
            },
        },
    }
}

fn path_join_str(base: &str, p: &str) -> (r: String)
    ensures
        r@ == spec_join(base@, p@),
{
    crate::paths::path_join(base, p)
}

/// The first of `probes` whose answer in `found` is `true`, else
/// `fallback`.
pub open spec fn spec_first_found(probes: Seq<Seq<char>>, found: Seq<bool>, fallback: Seq<char>) -> Seq<char>
    decreases probes.len(),
{
    if probes.len() == 0 || found.len() == 0 {
        fallback
    } else if found[0] {
        probes[0]
    } else {
        spec_first_found(probes.drop_first(), found.drop_first(), fallback)
    }
}

/// The first of `probes` found on disk, given for each probe whether it
/// was found; `fallback` when none was.
pub fn first_found(probes: &[String], found: &[bool], fallback: &str) -> (r: String)
    requires
        probes.len() == found.len(),
    ensures
        r@ == spec_first_found(seqs_view(probes@), found@, fallback@),
{
    let ghost pv = seqs_view(probes@);
    let mut i: usize = 0;
    assert(pv.skip(0) =~= pv);
    assert(found@.skip(0) =~= found@);
    while i < probes.len()
        invariant
            i <= probes.len(),
            probes.len() == found.len(),
            pv == seqs_view(probes@),
            spec_first_found(pv.skip(i as int), found@.skip(i as int), fallback@) == spec_first_found(pv, found@, fallback@),
        decreases probes.len() - i,
    {
        assert(pv.skip(i as int).drop_first() =~= pv.skip(i + 1));
        assert(found@.skip(i as int).drop_first() =~= found@.skip(i + 1));
        if found[i] {
            return probes[i].clone();
        }
        i += 1;
    }
    fallback.to_string()
}

/// Whether each path exists on disk, in order.
fn probe_all(paths: &[String]) -> (r: Vec<bool>)
    ensures
        r.len() == paths.len(),
{
    let mut out: Vec<bool> = Vec::new();
    let mut i: usize = 0;
    while i < paths.len()
        invariant
            i <= paths.len(),
            out.len() == i,
        decreases paths.len() - i,
    {
        out.push(path_exists(paths[i].as_str()));
        i += 1;
    }
    out
}

/// Where the files of a torrent are, given whether each probe of
/// `spec_source_plan` was found on disk: the first found, else the
/// fallback.
pub open spec fn spec_resolve_download(
    content: Option<Seq<char>>,
    save: Option<Seq<char>>,
    root: Seq<char>,
    found: Seq<bool>,
) -> Seq<char> {
    spec_first_found(plan_probes(content, save, root), found, plan_fallback(content, save, root))
}

/// Where the files of a torrent are on this machine: the first path of
/// `spec_source_plan` found on disk, else its fallback.  Which probes are
/// found depends on the disk.
pub fn resolve_download_source(content_path: Option<&str>, save_path: Option<&str>, local_download_root: &str) -> (r: String)
    ensures
        exists|found: Seq<bool>|
            found.len() == plan_probes(opt_str_view(content_path), opt_str_view(save_path), local_download_root@).len()
            && r@ == spec_resolve_download(opt_str_view(content_path), opt_str_view(save_path), local_download_root@, found),
{
    let plan = download_source_plan(content_path, save_path, local_download_root);
    let found = probe_all(plan.0.as_slice());
    let r = first_found(plan.0.as_slice(), found.as_slice(), plan.1.as_str());
    assert(found@.len() == plan_probes(opt_str_view(content_path), opt_str_view(save_path), local_download_root@).len()
        && r@ == spec_resolve_download(opt_str_view(content_path), opt_str_view(save_path), local_download_root@, found@));
    r
}

// ---------------------------------------------------------------------------
// Files of a pack item
// ---------------------------------------------------------------------------

/// `p` is added unless a path equal to it is already listed.
pub open spec fn push_unique(t: Seq<Seq<char>>, p: Seq<char>) -> Seq<Seq<char>> {
    if exists|k: int| 0 <= k < t.len() && spec_path_eq(#[trigger] t[k], p) {
        t
    } else {
        t.push(p)
    }
}

pub open spec fn push_all_unique(t: Seq<Seq<char>>, items: Seq<Seq<char>>) -> Seq<Seq<char>>
    decreases items.len(),
{
    if items.len() == 0 {
        t
    } else {
        push_all_unique(push_unique(t, items[0]), items.drop_first())
    }
}

/// Tries under each content-path variant.
pub open spec fn tries_content(t: Seq<Seq<char>>, cs: Seq<Seq<char>>, rel: Seq<char>) -> Seq<Seq<char>>
    decreases cs.len(),
{
    if cs.len() == 0 {
        t
    } else {
        tries_content(push_all_unique(t, spec_source_variants(cs[0], rel)), cs.drop_first(), rel)
    }
}

/// Tries under one download root: the variants, the bare relative path, and
/// the file name alone.
pub open spec fn tries_local_one(t: Seq<Seq<char>>, local: Seq<char>, rel: Seq<char>) -> Seq<Seq<char>> {
    let t1 = push_unique(push_all_unique(t, spec_source_variants(local, rel)), spec_join(local, rel));
    match spec_file_name(rel) {
        Some(name) => push_unique(t1, spec_join(local, name)),
        None => t1,
    }
}

pub open spec fn tries_locals(t: Seq<Seq<char>>, ls: Seq<Seq<char>>, rel: Seq<char>) -> Seq<Seq<char>>
    decreases ls.len(),
{
    if ls.len() == 0 {
        t
    } else {
        tries_locals(tries_local_one(t, ls[0], rel), ls.drop_first(), rel)
    }
}

/// The paths tried, in order and without repeats, for the file `relative`
/// of a pack whose folder was resolved to `resolved_root`.
pub open spec fn spec_item_tries(
    resolved_root: Seq<char>,
    content: Option<Seq<char>>,
    local_download_root: Seq<char>,
    relative: Seq<char>,
) -> Seq<Seq<char>> {
    let rel = spec_norm_rel(relative);
    let t0 = push_all_unique(Seq::empty(), spec_source_variants(resolved_root, rel));
    let t1 = tries_content(t0, spec_content_candidates(content), rel);
    tries_locals(t1, spec_local_roots(local_download_root), rel)
}

fn push_unique_exec(t: &mut Vec<String>, p: &[char])
    ensures
        seqs_view(final(t)@) == push_unique(seqs_view(old(t)@), p@),
{
    let ps = chars_to_string(p);
    let mut k: usize = 0;
    while k < t.len()
        invariant
            k <= t.len(),
            t@ == old(t)@,
            ps@ == p@,
            forall|m: int| 0 <= m < k ==> !spec_path_eq(#[trigger] seqs_view(t@)[m], p@),
        decreases t.len() - k,
    {
        if path_eq(t[k].as_str(), ps.as_str()) {
            assert(spec_path_eq(seqs_view(t@)[k as int], p@));
            return;
        }
        k += 1;
    }
    t.push(ps);
    assert(seqs_view(t@) =~= seqs_view(old(t)@).push(p@));
}

fn push_all_unique_exec(t: &mut Vec<String>, items: &[String])
    ensures
        seqs_view(final(t)@) == push_all_unique(seqs_view(old(t)@), seqs_view(items@)),
{
    let mut i: usize = 0;
    assert(seqs_view(items@).skip(0) =~= seqs_view(items@));
    while i < items.len()
        invariant
            i <= items.len(),
            push_all_unique(seqs_view(t@), seqs_view(items@).skip(i as int)) == push_all_unique(
                seqs_view(old(t)@),
                seqs_view(items@),
            ),
        decreases items.len() - i,
    {
        proof {
            if i == 0 {
                assert(seqs_view(items@).skip(0) =~= seqs_view(items@));
            }
            assert(seqs_view(items@).skip(i as int).drop_first() =~= seqs_view(items@).skip(i + 1));
        }
        let iv = str_chars(items[i].as_str());
        push_unique_exec(t, iv.as_slice());
        i += 1;
    }
    assert(seqs_view(items@).skip(i as int) =~= Seq::<Seq<char>>::empty());
}

/// The paths tried for a pack file, in order, without repeats.
pub fn item_source_tries(
    resolved_root: &str,
    content_path: Option<&str>,
    local_download_root: &str,
    relative: &str,
) -> (r: Vec<String>)
    ensures
        seqs_view(r@) == spec_item_tries(
            resolved_root@,
            opt_str_view(content_path),
            local_download_root@,
            relative@,
        ),
{
    let relv = str_chars(relative);
    let rel = norm_rel(relv.as_slice());
    let mut tried: Vec<String> = Vec::new();
    let rv = str_chars(resolved_root);
    let v0 = join_source_variants_chars(rv.as_slice(), rel.as_slice());
    push_all_unique_exec(&mut tried, v0.as_slice());
    assert(seqs_view(tried@) == push_all_unique(Seq::empty(), spec_source_variants(resolved_root@, rel@))) by {
        assert(seqs_view(Seq::<String>::empty()) =~= Seq::<Seq<char>>::empty());
    }
    let cs = content_path_candidates(content_path);
    let ghost csv = seqs_view(cs@);
    let mut i: usize = 0;
    assert(csv.skip(0) =~= csv);
    let ghost t0 = seqs_view(tried@);
    while i < cs.len()
        invariant
            i <= cs.len(),
            csv == seqs_view(cs@),
            tries_content(seqs_view(tried@), csv.skip(i as int), rel@) == tries_content(t0, csv, rel@),
        decreases cs.len() - i,
    {
        assert(csv.skip(i as int).drop_first() =~= csv.skip(i + 1));
        let cv = str_chars(cs[i].as_str());
        let vs = join_source_variants_chars(cv.as_slice(), rel.as_slice());
        push_all_unique_exec(&mut tried, vs.as_slice());
        i += 1;
    }
    assert(csv.skip(i as int) =~= Seq::<Seq<char>>::empty());
    let ls = local_root_candidates(local_download_root);
    let ghost lsv = seqs_view(ls@);
    let ghost t1 = seqs_view(tried@);
    let rels = chars_to_string(rel.as_slice());
    let name = path_file_name(rels.as_str());
    let mut j: usize = 0;
    assert(lsv.skip(0) =~= lsv);
    while j < ls.len()
        invariant
            j <= ls.len(),
            lsv == seqs_view(ls@),
            rels@ == rel@,
            opt_string_view(name) == spec_file_name(rel@),
            tries_locals(seqs_view(tried@), lsv.skip(j as int), rel@) == tries_locals(t1, lsv, rel@),
        decreases ls.len() - j,
    {
        assert(lsv.skip(j as int).drop_first() =~= lsv.skip(j + 1));
        let lv = str_chars(ls[j].as_str());
        let vs = join_source_variants_chars(lv.as_slice(), rel.as_slice());
        push_all_unique_exec(&mut tried, vs.as_slice());
        let bare = join_chars(lv.as_slice(), rel.as_slice());
        push_unique_exec(&mut tried, bare.as_slice());
        match &name {
            Some(n) => {
                let nv = str_chars(n.as_str());
                let jn = join_chars(lv.as_slice(), nv.as_slice());
                push_unique_exec(&mut tried, jn.as_slice());
            },
            None => {},
        }
        j += 1;
    }
    assert(lsv.skip(j as int) =~= Seq::<Seq<char>>::empty());
    tried
}

/// Where a file of a pack is, given which probes of the pack folder were
/// found on disk (`root_found`) and which paths tried for the file were
/// (`item_found`): the first tried path found, else the first tried.
pub open spec fn spec_resolve_item(
    content: Option<Seq<char>>,
    save: Option<Seq<char>>,
    local_download_root: Seq<char>,
    relative: Seq<char>,
    root_found: Seq<bool>,
    item_found: Seq<bool>,
) -> Seq<char> {
    let root = spec_resolve_download(content, save, local_download_root, root_found);
    let tries = spec_item_tries(root, content, local_download_root, relative);
    spec_first_found(tries, item_found, tries[0])
}

/// Where a file of a pack is on this machine.  The pack folder is first
/// resolved as `resolve_download_source` does; the file is then the first
/// path of `spec_item_tries` found on disk, else the first path tried.
/// Which paths are found depends on the disk.
pub fn resolve_item_source(
    content_path: Option<&str>,
    save_path: Option<&str>,
    local_download_root: &str,
    relative: &str,
) -> (r: String)
    ensures
        exists|root_found: Seq<bool>, item_found: Seq<bool>|
            root_found.len() == plan_probes(opt_str_view(content_path), opt_str_view(save_path), local_download_root@).len()
            && item_found.len() == spec_item_tries(
                spec_resolve_download(opt_str_view(content_path), opt_str_view(save_path), local_download_root@, root_found),
                opt_str_view(content_path),
                local_download_root@,
                relative@,
            ).len()
            && r@ == spec_resolve_item(
                opt_str_view(content_path),
                opt_str_view(save_path),
                local_download_root@,
                relative@,
                root_found,
                item_found,
            ),
{
    let root = resolve_download_source(content_path, save_path, local_download_root);
    let ghost root_found = choose|f: Seq<bool>|
        f.len() == plan_probes(opt_str_view(content_path), opt_str_view(save_path), local_download_root@).len()
        && root@ == spec_resolve_download(opt_str_view(content_path), opt_str_view(save_path), local_download_root@, f);
    let tried = item_source_tries(root.as_str(), content_path, local_download_root, relative);
    let ghost tv = spec_item_tries(root@, opt_str_view(content_path), local_download_root@, relative@);
    proof {
        let rel = spec_norm_rel(relative@);
        let v = spec_source_variants(root@, rel);
        assert(v.len() > 0);
        lemma_push_all_unique_grows(Seq::empty(), v);
        let t0 = push_all_unique(Seq::empty(), v);
        lemma_tries_content_grows(t0, spec_content_candidates(opt_str_view(content_path)), rel);
        lemma_tries_locals_grows(
            tries_content(t0, spec_content_candidates(opt_str_view(content_path)), rel),
            spec_local_roots(local_download_root@),
            rel,
        );
    }
    let found = probe_all(tried.as_slice());
    let r = first_found(tried.as_slice(), found.as_slice(), tried[0].as_str());
    assert(root_found.len() == plan_probes(opt_str_view(content_path), opt_str_view(save_path), local_download_root@).len()
        && found@.len() == tv.len()
        && r@ == spec_resolve_item(
            opt_str_view(content_path),
            opt_str_view(save_path),
            local_download_root@,
            relative@,
            root_found,
            found@,
        ));
    r
}

pub proof fn lemma_push_unique_keeps_first(t: Seq<Seq<char>>, p: Seq<char>)
    ensures
        push_unique(t, p).len() >= t.len(),
        t.len() > 0 ==> push_unique(t, p)[0] == t[0],
        t.len() == 0 ==> push_unique(t, p) == seq![p],
{
    if t.len() == 0 {
        assert(t.push(p) =~= seq![p]);
    }
}

pub proof fn lemma_push_all_unique_grows(t: Seq<Seq<char>>, items: Seq<Seq<char>>)
    ensures
        push_all_unique(t, items).len() >= t.len(),
        items.len() > 0 && t.len() == 0 ==> push_all_unique(t, items).len() > 0,
        t.len() > 0 ==> push_all_unique(t, items)[0] == t[0],
        items.len() > 0 && t.len() == 0 ==> push_all_unique(t, items)[0] == items[0],
    decreases items.len(),
{
    if items.len() > 0 {
        lemma_push_unique_keeps_first(t, items[0]);
        lemma_push_all_unique_grows(push_unique(t, items[0]), items.drop_first());
    }
}

pub proof fn lemma_tries_content_grows(t: Seq<Seq<char>>, cs: Seq<Seq<char>>, rel: Seq<char>)
    ensures
        tries_content(t, cs, rel).len() >= t.len(),
        t.len() > 0 ==> tries_content(t, cs, rel)[0] == t[0],
    decreases cs.len(),
{
    if cs.len() > 0 {
        lemma_push_all_unique_grows(t, spec_source_variants(cs[0], rel));
        lemma_tries_content_grows(
            push_all_unique(t, spec_source_variants(cs[0], rel)),
            cs.drop_first(),
            rel,
        );
    }
}

pub proof fn lemma_tries_locals_grows(t: Seq<Seq<char>>, ls: Seq<Seq<char>>, rel: Seq<char>)
    ensures
        tries_locals(t, ls, rel).len() >= t.len(),
        t.len() > 0 ==> tries_locals(t, ls, rel)[0] == t[0],
    decreases ls.len(),
{
    if ls.len() > 0 {
        let l = ls[0];
        lemma_push_all_unique_grows(t, spec_source_variants(l, rel));
        let t0 = push_all_unique(t, spec_source_variants(l, rel));
        lemma_push_unique_keeps_first(t0, spec_join(l, rel));
        let t1 = push_unique(t0, spec_join(l, rel));
        match spec_file_name(rel) {
            Some(name) => lemma_push_unique_keeps_first(t1, spec_join(l, name)),
            None => {},
        }
        lemma_tries_locals_grows(tries_local_one(t, l, rel), ls.drop_first(), rel);
    }
}

/// With no answer `true`, `spec_first_found` gives the fallback.
pub proof fn lemma_nothing_found(probes: Seq<Seq<char>>, found: Seq<bool>, fallback: Seq<char>)
    requires
        forall|i: int| 0 <= i < found.len() ==> !#[trigger] found[i],
    ensures
        spec_first_found(probes, found, fallback) == fallback,
    decreases probes.len(),
{
    if probes.len() > 0 && found.len() > 0 {
        assert(!found[0]);
        assert forall|i: int| 0 <= i < found.drop_first().len() implies !#[trigger] found.drop_first()[i] by {
            assert(found.drop_first()[i] == found[i + 1]);
        }
        lemma_nothing_found(probes.drop_first(), found.drop_first(), fallback);
    }
}

/// When nothing is found on disk, a pack file is looked for at the first
/// path tried: the torrent folder's fallback joined with the cleaned
/// relative path (the fallback itself when that path is empty).
pub proof fn law_nothing_found_gives_first_try(
    content: Option<Seq<char>>,
    save: Option<Seq<char>>,
    local_download_root: Seq<char>,
    relative: Seq<char>,
    root_found: Seq<bool>,
    item_found: Seq<bool>,
)
    requires
        forall|i: int| 0 <= i < root_found.len() ==> !#[trigger] root_found[i],
        forall|i: int| 0 <= i < item_found.len() ==> !#[trigger] item_found[i],
    ensures
        spec_resolve_download(content, save, local_download_root, root_found) == plan_fallback(
            content,
            save,
            local_download_root,
        ),
        spec_resolve_item(content, save, local_download_root, relative, root_found, item_found)
            == spec_join_source(plan_fallback(content, save, local_download_root), spec_norm_rel(relative)),
{
    let root = plan_fallback(content, save, local_download_root);
    lemma_nothing_found(plan_probes(content, save, local_download_root), root_found, root);
    let rel = spec_norm_rel(relative);
    let v = spec_source_variants(root, rel);
    assert(v[0] == spec_join_source(root, rel));
    lemma_push_all_unique_grows(Seq::empty(), v);
    let t0 = push_all_unique(Seq::empty(), v);
    lemma_tries_content_grows(t0, spec_content_candidates(content), rel);
    let t1 = tries_content(t0, spec_content_candidates(content), rel);
    lemma_tries_locals_grows(t1, spec_local_roots(local_download_root), rel);
    let tries = spec_item_tries(root, content, local_download_root, relative);
    assert(tries[0] == v[0]);
    lemma_nothing_found(tries, item_found, tries[0]);
}

/// `root/relative` for a mapped pack path (cleaned as `spec_norm_rel`), or
/// `root` itself for an empty relative path.
pub open spec fn spec_join_source(root: Seq<char>, relative: Seq<char>) -> Seq<char> {
    let rel = spec_norm_rel(relative);
    if rel.len() == 0 {
        root
    } else {
        spec_join(root, rel)
    }
}

pub fn join_source(root: &str, relative: &str) -> (r: String)
    ensures
        r@ == spec_join_source(root@, relative@),
{
    let relv = str_chars(relative);
    let rel = norm_rel(relv.as_slice());
    if rel.len() == 0 {
        return root.to_string();
    }
    let rv = str_chars(root);
    let j = join_chars(rv.as_slice(), rel.as_slice());
    chars_to_string(j.as_slice())
}

} // verus!

verus! {

/// Every character of a trimmed text comes from the text.
pub proof fn lemma_trim_from(s: Seq<char>)
    ensures
        forall|k: int| 0 <= k < trim(s).len() ==> s.contains(#[trigger] trim(s)[k]),
{
    crate::text::lemma_skip_ws_bounds(s, 0);
    let a = crate::text::skip_ws(s, 0);
    let t = s.subrange(a, s.len() as int);
    crate::text::lemma_back_ws_bounds(t, t.len() as int);
    assert forall|k: int| 0 <= k < trim(s).len() implies s.contains(#[trigger] trim(s)[k]) by {
        assert(trim(s)[k] == s[a + k]);
    }
}

/// A folder name made safe is never empty, holds no path separator, and
/// neither starts nor ends with a dot (so it is never `.` or `..`): a book
/// always lands inside its library.
pub proof fn law_folder_names_are_safe(name: Seq<char>)
    ensures
        spec_sanitize_component(name).len() > 0,
        forall|i: int|
            0 <= i < spec_sanitize_component(name).len() ==> #[trigger] spec_sanitize_component(name)[i]
                != '/' && spec_sanitize_component(name)[i] != '\\',
        spec_sanitize_component(name)[0] != '.',
        spec_sanitize_component(name).last() != '.',
{
    let r = replace_forbidden(name);
    let t0 = trim(r);
    lemma_trim_from(r);
    assert forall|k: int| 0 <= k < t0.len() implies #[trigger] t0[k] != '/' && t0[k] != '\\' by {
        assert(r.contains(t0[k]));
        let m = choose|m: int| 0 <= m < r.len() && r[m] == t0[k];
        assert(forbidden_in_name('/') && forbidden_in_name('\\'));
    }
    crate::text::lemma_skip_char_bounds(t0, '.', 0);
    let a = crate::text::skip_char(t0, '.', 0);
    let t1 = t0.subrange(a, t0.len() as int);
    crate::text::lemma_back_char_bounds(t1, '.', t1.len() as int);
    let b = crate::text::back_char(t1, '.', t1.len() as int);
    let t = trim_char(t0, '.');
    assert(t =~= t1.subrange(0, b));
    if t.len() == 0 {
        assert(lit_unknown() =~= seq!['U', 'n', 'k', 'n', 'o', 'w', 'n']);
    } else {
        assert forall|i: int| 0 <= i < t.len() implies #[trigger] t[i] != '/' && t[i] != '\\' by {
            assert(t[i] == t0[a + i]);
        }
        assert(t[0] == t0[a]);
        assert(t.last() == t1[b - 1]);
    }
}

} // verus!

verus! {

// ---------------------------------------------------------------------------
// Removing an imported copy
// ---------------------------------------------------------------------------

/// What removing the imported copy `destination` of a library at `root`
/// deletes: the destination (taken relative to the root unless absolute),
/// only when it lies strictly inside the root and its path below the root
/// holds no `..`.
pub open spec fn spec_removal_target(root: Seq<char>, destination: Seq<char>) -> Option<Seq<char>> {
    let target = spec_join(root, destination);
    match crate::paths::spec_strip_prefix(target, root) {
        Some(rel) => if rel.len() > 0 && !crate::text::contains(rel, crate::lits::lit_dotdot()) {
            Some(target)
        } else {
            None
        },
        None => None,
    }
}

pub fn removal_target(root: &str, destination: &str) -> (r: Option<String>)
    ensures
        opt_string_view(r) == spec_removal_target(root@, destination@),
{
    let target = crate::paths::path_join(root, destination);
    match crate::paths::path_strip_prefix(target.as_str(), root) {
        Some(rel) => {
            let rv = str_chars(rel.as_str());
            let dd = crate::lits::mk_dotdot();
            if rv.len() > 0 && !crate::text::contains_exec(rv.as_slice(), dd.as_slice()) {
                Some(target)
            } else {
                None
            }
        },
        None => None,
    }
}

} // verus!
