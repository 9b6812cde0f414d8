//! qBittorrent's Web API: the addresses asked, the forms sent, and what a
//! sign-in answer means.
use vstd::prelude::*;

use crate::error::{bad_request, fails_bad, AppError};
use crate::text::{chars_to_string, extend_chars, opt_str_view, starts_with, str_chars, trim, trim_end_char};

verus! {

broadcast use vstd::string::group_string_axioms;

/// An endpoint of the Web API under `base` (its trailing `/` dropped).
pub open spec fn spec_api_url(base: Seq<char>, path: Seq<char>) -> Seq<char> {
    trim_end_char(base, '/') + path
}

pub fn api_url(base: &str, path: &str) -> (r: String)
    ensures
        r@ == spec_api_url(base@, path@),
{
    let mut v = crate::text::trim_end_char_exec(str_chars(base).as_slice(), '/');
    extend_chars(&mut v, str_chars(path).as_slice());
    chars_to_string(v.as_slice())
}

/// The file list of the torrent `hash`, the hash percent-encoded.
pub fn files_url(base: &str, hash: &str) -> (r: String)
    ensures
        r@ == spec_api_url(base@, "/api/v2/torrents/files?hash="@)
            + crate::magnet::pct_encode(vstd::utf8::encode_utf8(hash@)),
{
    let mut v = str_chars(api_url(base, "/api/v2/torrents/files?hash=").as_str());
    let h = crate::magnet::url_encode(hash);
    extend_chars(&mut v, str_chars(h.as_str()).as_slice());
    chars_to_string(v.as_slice())
}

pub open spec fn pairs_view(v: Seq<(String, String)>) -> Seq<(Seq<char>, Seq<char>)> {
    v.map_values(|p: (String, String)| (p.0@, p.1@))
}

/// The form that adds a magnet link: the link, then the category if one
/// is given, then the tags if given and not blank (trimmed; qBittorrent
/// creates tags it does not know).
pub open spec fn spec_add_form(
    magnet: Seq<char>,
    category: Option<Seq<char>>,
    tags: Option<Seq<char>>,
) -> Seq<(Seq<char>, Seq<char>)> {
    let with_category = match category {
        Some(c) => seq![("urls"@, magnet), ("category"@, c)],
        None => seq![("urls"@, magnet)],
    };
    match crate::libraries::given(tags) {
        Some(t) => with_category.push(("tags"@, t)),
        None => with_category,
    }
}

pub fn add_form(magnet: &str, category: Option<&str>, tags: Option<&str>) -> (r: Vec<(String, String)>)
    ensures
        pairs_view(r@) == spec_add_form(magnet@, opt_str_view(category), opt_str_view(tags)),
{
    let mut r: Vec<(String, String)> = Vec::new();
    r.push(("urls".to_owned(), magnet.to_owned()));
    if let Some(c) = category {
        r.push(("category".to_owned(), c.to_owned()));
    }
    let ghost before = pairs_view(r@);
    assert(before =~= match opt_str_view(category) {
        Some(c) => seq![("urls"@, magnet@), ("category"@, c)],
        None => seq![("urls"@, magnet@)],
    });
    if let Some(t) = tags {
        let tr = crate::text::trim_str(t);
        if tr.len() > 0 {
            r.push(("tags".to_owned(), chars_to_string(tr.as_slice())));
            assert(pairs_view(r@) =~= before.push(("tags"@, trim(t@))));
        }
    }
    r
}

/// The part of a `Set-Cookie` value before its first `;`.
pub open spec fn first_segment(s: Seq<char>) -> Seq<char> {
    if exists|i: int| 0 <= i < s.len() && s[i] == ';' {
        s.take(
            choose|i: int|
                0 <= i < s.len() && s[i] == ';' && forall|k: int| 0 <= k < i ==> s[k] != ';',
        )
    } else {
        s
    }
}

fn first_segment_exec(s: &str) -> (r: Vec<char>)
    ensures
        r@ == first_segment(s@),
{
    let v = str_chars(s);
    let mut i: usize = 0;
    while i < v.len() && v[i] != ';'
        invariant
            i <= v.len(),
            v@ == s@,
            forall|k: int| 0 <= k < i ==> v@[k] != ';',
        decreases v.len() - i,
    {
        i += 1;
    }
    if i < v.len() {
        let ghost j = choose|j: int|
            0 <= j < s@.len() && s@[j] == ';' && forall|k: int| 0 <= k < j ==> s@[k] != ';';
        assert(0 <= i < s@.len() && s@[i as int] == ';' && forall|k: int| 0 <= k < i ==> s@[k] != ';');
        assert(j == i) by {
            if j < i {
                assert(s@[j] != ';');
            }
            if i < j {
                assert(s@[i as int] != ';');
            }
        }
    } else {
        assert(!exists|j: int| 0 <= j < s@.len() && s@[j] == ';');
        assert(v@.take(i as int) =~= v@);
    }
    crate::text::slice_chars(v.as_slice(), 0, i)
}

pub open spec fn sid_prefix() -> Seq<char> {
    seq!['S', 'I', 'D', '=']
}

/// The session cookie among `Set-Cookie` values: the first value whose
/// first segment starts with `SID=`, as that segment.
pub open spec fn sid_from(cookies: Seq<Seq<char>>, k: int) -> Option<Seq<char>>
    decreases cookies.len() - k,
{
    if k < 0 || k >= cookies.len() {
        None
    } else if starts_with(first_segment(cookies[k]), sid_prefix()) {
        Some(first_segment(cookies[k]))
    } else {
        sid_from(cookies, k + 1)
    }
}

fn session_cookie(cookies: &[String]) -> (r: Option<Vec<char>>)
    ensures
        match r {
            Some(v) => sid_from(crate::text::seqs_view(cookies@), 0) == Some(v@),
            None => sid_from(crate::text::seqs_view(cookies@), 0) is None,
        },
{
    let ghost cs = crate::text::seqs_view(cookies@);
    let prefix: [char; 4] = ['S', 'I', 'D', '='];
    assert(prefix@ =~= sid_prefix());
    let mut k: usize = 0;
    while k < cookies.len()
        invariant
            k <= cookies.len(),
            cs == crate::text::seqs_view(cookies@),
            prefix@ == sid_prefix(),
            sid_from(cs, 0) == sid_from(cs, k as int),
        decreases cookies.len() - k,
    {
        let seg = first_segment_exec(cookies[k].as_str());
        assert(cs[k as int] == cookies@[k as int]@);
        if crate::text::starts_with_exec(seg.as_slice(), &prefix) {
            return Some(seg);
        }
        k += 1;
    }
    None
}

pub open spec fn login_failed_msg(status: Seq<char>) -> Seq<char> {
    "qBittorrent login failed ("@ + status + ")"@
}

/// What a sign-in answer means: a refused request (with its status) or
/// the `Fails.` body are errors; otherwise the session cookie is the
/// answer, and its absence an error.
pub fn login_session(success: bool, status: &str, set_cookies: &[String], body: &str) -> (r: Result<String, AppError>)
    ensures
        !success ==> (r matches Err(AppError::Internal(m)) && m@ == login_failed_msg(status@)),
        success && trim(body@) == "Fails."@ ==> fails_bad(r, "qBittorrent login failed: invalid credentials"@),
        success && trim(body@) != "Fails."@ ==> match sid_from(crate::text::seqs_view(set_cookies@), 0) {
            Some(sid) => (r matches Ok(s) && s@ == sid),
            None => (r matches Err(AppError::Internal(m)) && m@
                == "qBittorrent login failed: missing session cookie. Is the Web UI enabled?"@),
        },
{
    if !success {
        let mut v = str_chars("qBittorrent login failed (");
        extend_chars(&mut v, str_chars(status).as_slice());
        extend_chars(&mut v, str_chars(")").as_slice());
        return Err(AppError::Internal(chars_to_string(v.as_slice())));
    }
    let t = crate::text::trim_str(body);
    let fails = str_chars("Fails.");
    if crate::text::chars_eq(t.as_slice(), fails.as_slice()) {
        return Err(bad_request("qBittorrent login failed: invalid credentials"));
    }
    match session_cookie(set_cookies) {
        Some(sid) => Ok(chars_to_string(sid.as_slice())),
        None => Err(
            AppError::Internal("qBittorrent login failed: missing session cookie. Is the Web UI enabled?".to_owned()),
        ),
    }
}

} // verus!
