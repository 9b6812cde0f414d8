//! AudiobookBay: result records, text clean-up, categories and the URLs
//! the client requests.
use vstd::prelude::*;
use vstd::utf8::encode_utf8;

use crate::lits::{lit_amp, lit_amp_ent, lit_apos39_ent, lit_apos8217_ent, lit_archive_dq, lit_archive_sq, lit_cat_undef, lit_cdata_close, lit_cdata_open, lit_collection, lit_dash_sep, lit_dotdot, lit_dquote, lit_dslash, lit_feed_http, lit_feed_http_s, lit_feed_https, lit_feed_https_s, lit_feed_paged, lit_feed_path, lit_feed_rss, lit_feed_rss2, lit_feed_rss2_amp, lit_gt, lit_gt_ent, lit_http, lit_https_colon, lit_lt, lit_lt_ent, lit_mirror, lit_nbsp_ent, lit_page_seg, lit_paged_amp, lit_pct20, lit_pct2b, lit_plus, lit_q_s, lit_quot_ent, lit_s_eq, lit_slash, lit_space, lit_squote, lit_type_path, mk_amp, mk_amp_ent, mk_apos39_ent, mk_apos8217_ent, mk_archive_dq, mk_archive_sq, mk_cat_undef, mk_cdata_close, mk_cdata_open, mk_collection, mk_dash_sep, mk_dotdot, mk_dquote, mk_dslash, mk_feed_http, mk_feed_http_s, mk_feed_https, mk_feed_https_s, mk_feed_paged, mk_feed_path, mk_feed_rss, mk_feed_rss2, mk_feed_rss2_amp, mk_gt, mk_gt_ent, mk_http, mk_https_colon, mk_lt, mk_lt_ent, mk_mirror, mk_nbsp_ent, mk_page_seg, mk_paged_amp, mk_pct20, mk_pct2b, mk_plus, mk_q_s, mk_quot_ent, mk_s_eq, mk_slash, mk_space, mk_squote, mk_type_path};
use crate::magnet::pct_encode;
use crate::text::{
    chars_eq, chars_to_string, contains, contains_exec, ends_with, extend_chars, is_ws, lower_seq,
    occurs_at, occurs_at_exec, replace, replace_exec, skip_ws, slice_chars, starts_with,
    starts_with_exec, str_chars, to_ascii_lower, trim, trim_chars, char_is_ws, lemma_skip_ws_bounds,
};

verus! {

broadcast use vstd::string::group_string_axioms;

/// One search or browse result.
#[derive(Debug)]
pub struct AbbSearchResult {
    pub title: String,
    pub url: String,
    pub cover_url: Option<String>,
    pub info: Option<String>,
    pub author: Option<String>,
    pub language: Option<String>,
    pub format: Option<String>,
    pub bitrate: Option<String>,
    pub size: Option<String>,
    pub posted: Option<String>,
    pub category: Option<String>,
}

/// A page of results.
#[derive(Debug)]
pub struct AbbSearchPage {
    pub results: Vec<AbbSearchResult>,
    pub page: u32,
    pub has_more: bool,
    pub mirror: String,
    /// `latest` | `search` | `category`
    pub mode: String,
    pub query: Option<String>,
    pub category: Option<String>,
    pub category_label: Option<String>,
}

/// A browsable category.
#[derive(Debug)]
pub struct AbbCategory {
    pub slug: String,
    pub label: String,
    pub group: String,
}

/// A book's detail page.
#[derive(Debug)]
pub struct AbbDetails {
    pub title: String,
    pub url: String,
    pub info_hash: Option<String>,
    pub magnet_uri: Option<String>,
    pub cover_url: Option<String>,
    pub description: Option<String>,
    pub author: Option<String>,
    pub narrator: Option<String>,
    pub format: Option<String>,
    pub bitrate: Option<String>,
    pub size: Option<String>,
}

// ---------------------------------------------------------------------------
// Words and whitespace
// ---------------------------------------------------------------------------

/// End of the word starting at `j`: the first whitespace at or after `j`.
pub open spec fn word_end(s: Seq<char>, j: int) -> int
    decreases s.len() - j,
{
    if j < 0 || j >= s.len() || is_ws(s[j]) {
        j
    } else {
        word_end(s, j + 1)
    }
}

pub proof fn lemma_word_end(s: Seq<char>, j: int)
    requires
        0 <= j <= s.len(),
    ensures
        j <= word_end(s, j) <= s.len(),
        forall|k: int| j <= k < word_end(s, j) ==> !is_ws(#[trigger] s[k]),
    decreases s.len() - j,
{
    if j < s.len() && !is_ws(s[j]) {
        lemma_word_end(s, j + 1);
    }
}

/// `str::split_whitespace` from index `i`: the maximal runs of
/// non-whitespace characters, in order.
pub open spec fn words_from(s: Seq<char>, i: int) -> Seq<Seq<char>>
    decreases s.len() - i,
{
    let a = skip_ws(s, i);
    let b = word_end(s, a);
    if i < 0 || a < i || a >= s.len() || b <= a || b > s.len() {
        Seq::empty()
    } else {
        seq![s.subrange(a, b)] + words_from(s, b)
    }
}

pub open spec fn words(s: Seq<char>) -> Seq<Seq<char>> {
    words_from(s, 0)
}

/// The words joined by single spaces (`[..].join(" ")`).
pub open spec fn join_space(ws: Seq<Seq<char>>) -> Seq<char>
    decreases ws.len(),
{
    if ws.len() == 0 {
        Seq::empty()
    } else if ws.len() == 1 {
        ws[0]
    } else {
        join_space(ws.drop_last()) + seq![' '] + ws.last()
    }
}

pub open spec fn vv_view(v: Seq<Vec<char>>) -> Seq<Seq<char>> {
    v.map_values(|x: Vec<char>| x@)
}

pub fn split_words(s: &[char]) -> (r: Vec<Vec<char>>)
    ensures
        vv_view(r@) == words(s@),
{
    let mut out: Vec<Vec<char>> = Vec::new();
    let mut i: usize = 0;
    loop
        invariant
            i <= s.len(),
            vv_view(out@) + words_from(s@, i as int) == words(s@),
        decreases s.len() - i,
    {
        proof {
            lemma_skip_ws_bounds(s@, i as int);
        }
        let mut a = i;
        while a < s.len() && char_is_ws(s[a])
            invariant
                i <= a <= s.len(),
                skip_ws(s@, a as int) == skip_ws(s@, i as int),
            decreases s.len() - a,
        {
            a += 1;
        }
        if a >= s.len() {
            assert(words_from(s@, i as int) =~= Seq::<Seq<char>>::empty());
            assert(vv_view(out@) =~= words(s@));
            return out;
        }
        proof {
            lemma_word_end(s@, a as int);
        }
        let mut b = a;
        while b < s.len() && !char_is_ws(s[b])
            invariant
                a <= b <= s.len(),
                word_end(s@, b as int) == word_end(s@, a as int),
            decreases s.len() - b,
        {
            b += 1;
        }
        let w = slice_chars(s, a, b);
        let ghost before = vv_view(out@);
        out.push(w);
        assert(vv_view(out@) =~= before.push(s@.subrange(a as int, b as int)));
        assert(words_from(s@, i as int) =~= seq![s@.subrange(a as int, b as int)] + words_from(
            s@,
            b as int,
        ));
        assert(vv_view(out@) + words_from(s@, b as int) =~= before + words_from(s@, i as int));
        i = b;
    }
}

pub fn join_with_space(ws: &[Vec<char>]) -> (r: Vec<char>)
    ensures
        r@ == join_space(vv_view(ws@)),
{
    let mut out: Vec<char> = Vec::new();
    let mut k: usize = 0;
    while k < ws.len()
        invariant
            k <= ws.len(),
            out@ == join_space(vv_view(ws@).take(k as int)),
        decreases ws.len() - k,
    {
        let ghost prev = vv_view(ws@).take(k as int);
        let ghost next = vv_view(ws@).take(k + 1);
        assert(next.drop_last() =~= prev);
        if k > 0 {
            out.push(' ');
        }
        extend_chars(&mut out, ws[k].as_slice());
        proof {
            if k == 0 {
                assert(out@ =~= join_space(next));
            } else {
                assert(out@ =~= join_space(next));
            }
        }
        k += 1;
    }
    assert(vv_view(ws@).take(ws.len() as int) =~= vv_view(ws@));
    out
}

/// Whitespace runs collapsed to one space, leading/trailing whitespace gone.
pub open spec fn collapse_ws(s: Seq<char>) -> Seq<char> {
    join_space(words(s))
}

pub fn collapse_whitespace(s: &[char]) -> (r: Vec<char>)
    ensures
        r@ == collapse_ws(s@),
{
    let ws = split_words(s);
    join_with_space(ws.as_slice())
}

/// The HTML entities the site uses, decoded in this order: `&amp;`,
/// `&nbsp;`, `&quot;`, `&#039;`, `&#8217;`, `&lt;`, `&gt;`.
pub open spec fn spec_html_entity_decode(s: Seq<char>) -> Seq<char> {
    let s1 = replace(s, lit_amp_ent(), lit_amp());
    let s2 = replace(s1, lit_nbsp_ent(), lit_space());
    let s3 = replace(s2, lit_quot_ent(), lit_dquote());
    let s4 = replace(s3, lit_apos39_ent(), lit_squote());
    let s5 = replace(s4, lit_apos8217_ent(), lit_squote());
    let s6 = replace(s5, lit_lt_ent(), lit_lt());
    replace(s6, lit_gt_ent(), lit_gt())
}

pub fn html_entity_decode(s: &[char]) -> (r: Vec<char>)
    ensures
        r@ == spec_html_entity_decode(s@),
{
    let s1 = replace_exec(s, mk_amp_ent().as_slice(), mk_amp().as_slice());
    let s2 = replace_exec(s1.as_slice(), mk_nbsp_ent().as_slice(), mk_space().as_slice());
    let s3 = replace_exec(s2.as_slice(), mk_quot_ent().as_slice(), mk_dquote().as_slice());
    let s4 = replace_exec(s3.as_slice(), mk_apos39_ent().as_slice(), mk_squote().as_slice());
    let s5 = replace_exec(s4.as_slice(), mk_apos8217_ent().as_slice(), mk_squote().as_slice());
    let s6 = replace_exec(s5.as_slice(), mk_lt_ent().as_slice(), mk_lt().as_slice());
    replace_exec(s6.as_slice(), mk_gt_ent().as_slice(), mk_gt().as_slice())
}

/// Text as shown: whitespace collapsed, no-break spaces made plain, entities
/// decoded, then trimmed.
pub open spec fn spec_clean_text(s: Seq<char>) -> Seq<char> {
    trim(spec_html_entity_decode(replace(collapse_ws(s), seq!['\u{a0}'], seq![' '])))
}

pub fn clean_text(s: &[char]) -> (r: Vec<char>)
    ensures
        r@ == spec_clean_text(s@),
{
    let c = collapse_whitespace(s);
    let nb: [char; 1] = ['\u{a0}'];
    let sp: [char; 1] = [' '];
    assert(nb@ =~= seq!['\u{a0}']);
    assert(sp@ =~= seq![' ']);
    let c2 = replace_exec(c.as_slice(), &nb, &sp);
    let d = html_entity_decode(c2.as_slice());
    trim_chars(d.as_slice())
}

/// The contents of a `<![CDATA[...]]>` section (after trimming), or the
/// trimmed text when it is not one.
pub open spec fn spec_strip_cdata(s: Seq<char>) -> Seq<char> {
    let t = trim(s);
    if starts_with(t, lit_cdata_open()) && ends_with(
        t.subrange(9, t.len() as int),
        lit_cdata_close(),
    ) {
        t.subrange(9, t.len() - 3)
    } else {
        t
    }
}

pub fn strip_cdata(s: &[char]) -> (r: Vec<char>)
    ensures
        r@ == spec_strip_cdata(s@),
{
    let t = trim_chars(s);
    let open = mk_cdata_open();
    let close = mk_cdata_close();
    if starts_with_exec(t.as_slice(), open.as_slice()) {
        let rest = slice_chars(t.as_slice(), 9, t.len());
        if crate::text::ends_with_exec(rest.as_slice(), close.as_slice()) {
            assert(close@.len() == 3);
            assert(rest@.len() == t@.len() - 9);
            return slice_chars(t.as_slice(), 9, t.len() - 3);
        }
    }
    t
}

/// `Tue, 18 Mar 2025 08:23:10 +0000` → `18 Mar 2025`: words two to four
/// when there are at least four words; else the text itself, or nothing
/// for an empty text.
pub open spec fn spec_short_rfc2822(s: Seq<char>) -> Option<Seq<char>> {
    let parts = words(s);
    if parts.len() >= 4 {
        Some(parts[1] + seq![' '] + parts[2] + seq![' '] + parts[3])
    } else if s.len() == 0 {
        None
    } else {
        Some(s)
    }
}

pub fn short_rfc2822(s: &[char]) -> (r: Option<Vec<char>>)
    ensures
        match r {
            Some(v) => spec_short_rfc2822(s@) == Some(v@),
            None => spec_short_rfc2822(s@) is None,
        },
{
    let parts = split_words(s);
    if parts.len() >= 4 {
        let mut out = crate::text::copy_chars(parts[1].as_slice());
        out.push(' ');
        extend_chars(&mut out, parts[2].as_slice());
        out.push(' ');
        extend_chars(&mut out, parts[3].as_slice());
        assert(vv_view(parts@)[1] == parts@[1]@);
        assert(vv_view(parts@)[2] == parts@[2]@);
        assert(vv_view(parts@)[3] == parts@[3]@);
        return Some(out);
    }
    if s.len() == 0 {
        return None;
    }
    Some(crate::text::copy_chars(s))
}

// ---------------------------------------------------------------------------
// "Title - Author"
// ---------------------------------------------------------------------------

/// The last index `k` at or below `k0` where `pat` occurs.
pub open spec fn rfind_from(s: Seq<char>, pat: Seq<char>, k: int) -> Option<int>
    decreases k + 1,
{
    if k < 0 {
        None
    } else if occurs_at(s, pat, k) {
        Some(k)
    } else {
        rfind_from(s, pat, k - 1)
    }
}

pub proof fn lemma_rfind_from(s: Seq<char>, pat: Seq<char>, k: int)
    ensures
        rfind_from(s, pat, k) matches Some(m) ==> m <= k && occurs_at(s, pat, m),
    decreases k + 1,
{
    if k >= 0 && !occurs_at(s, pat, k) {
        lemma_rfind_from(s, pat, k - 1);
    }
}

/// `str::rfind`.
pub open spec fn rfind(s: Seq<char>, pat: Seq<char>) -> Option<int> {
    rfind_from(s, pat, s.len() - pat.len())
}

pub fn rfind_exec(s: &[char], pat: &[char]) -> (r: Option<usize>)
    ensures
        match r {
            Some(k) => rfind(s@, pat@) == Some(k as int),
            None => rfind(s@, pat@) is None,
        },
{
    if pat.len() > s.len() {
        return None;
    }
    let mut k: usize = s.len() - pat.len();
    loop
        invariant
            k <= s.len() - pat.len(),
            pat.len() <= s.len(),
            rfind_from(s@, pat@, k as int) == rfind(s@, pat@),
        decreases k,
    {
        if occurs_at_exec(s, pat, k) {
            return Some(k);
        }
        if k == 0 {
            assert(rfind_from(s@, pat@, -1) is None);
            return None;
        }
        k -= 1;
    }
}

/// What `char::is_alphabetic` answers (the Unicode `Alphabetic` property).
pub uninterp spec fn spec_is_alphabetic(c: char) -> bool;

/// `char::is_alphabetic`; within ASCII, exactly the letters.
#[verifier::external_body]
pub(crate) fn char_is_alphabetic(c: char) -> (r: bool)
    ensures
        r == spec_is_alphabetic(c),
        (c as u32) < 128 ==> (r <==> (('a' <= c && c <= 'z') || ('A' <= c && c <= 'Z'))),
{
    c.is_alphabetic()
}

pub open spec fn has_alphabetic(s: Seq<char>) -> bool {
    exists|i: int| 0 <= i < s.len() && spec_is_alphabetic(#[trigger] s[i])
}

/// A title of the form `Book Title - Author Name` (split at the last
/// ` - `) gives the book title and the author, provided the author part is
/// non-blank, shorter than 80 bytes, has no `Collection`, and has a letter.
/// Otherwise the whole cleaned title is kept and there is no author.
pub open spec fn spec_split_title_author(raw: Seq<char>) -> (Seq<char>, Option<Seq<char>>) {
    let cleaned = spec_clean_text(raw);
    match rfind(cleaned, lit_dash_sep()) {
        Some(k) => {
            let author = trim(cleaned.subrange(k + 3, cleaned.len() as int));
            if author.len() > 0 && encode_utf8(author).len() < 80 && !contains(
                author,
                lit_collection(),
            ) && has_alphabetic(author) {
                (trim(cleaned.subrange(0, k)), Some(author))
            } else {
                (cleaned, None)
            }
        },
        None => (cleaned, None),
    }
}

fn any_alphabetic(s: &[char]) -> (r: bool)
    ensures
        r == has_alphabetic(s@),
{
    let mut i: usize = 0;
    while i < s.len()
        invariant
            i <= s.len(),
            forall|k: int| 0 <= k < i ==> !spec_is_alphabetic(#[trigger] s@[k]),
        decreases s.len() - i,
    {
        if char_is_alphabetic(s[i]) {
            return true;
        }
        i += 1;
    }
    false
}

pub fn split_title_author(raw: &[char]) -> (r: (Vec<char>, Option<Vec<char>>))
    ensures
        r.0@ == spec_split_title_author(raw@).0,
        match r.1 {
            Some(a) => spec_split_title_author(raw@).1 == Some(a@),
            None => spec_split_title_author(raw@).1 is None,
        },
{
    let cleaned = clean_text(raw);
    let sep = mk_dash_sep();
    match rfind_exec(cleaned.as_slice(), sep.as_slice()) {
        Some(k) => {
            proof {
                lemma_rfind_from(cleaned@, sep@, cleaned@.len() - sep@.len());
                assert(sep@.len() == 3);
                assert(occurs_at(cleaned@, sep@, k as int));
            }
            let n = cleaned.len();
            assert(k + 3 <= n);
            let right = slice_chars(cleaned.as_slice(), k + 3, cleaned.len());
            let author = trim_chars(right.as_slice());
            let author_s = chars_to_string(author.as_slice());
            let coll = mk_collection();
            if author.len() > 0 && author_s.as_str().as_bytes().len() < 80 && !contains_exec(
                author.as_slice(),
                coll.as_slice(),
            ) && any_alphabetic(author.as_slice()) {
                let left = slice_chars(cleaned.as_slice(), 0, k);
                return (trim_chars(left.as_slice()), Some(author));
            }
            (cleaned, None)
        },
        None => (cleaned, None),
    }
}

} // verus!

verus! {

// ---------------------------------------------------------------------------
// Categories
// ---------------------------------------------------------------------------

/// The categories offered for browsing: (slug, label, group), in order.
pub open spec fn category_table() -> Seq<(Seq<char>, Seq<char>, Seq<char>)> {
    seq![
        ("children"@, "Children"@, "Age"@),
        ("teen-young-adult"@, "Teen & Young Adult"@, "Age"@),
        ("new"@, "New"@, "Age"@),
        ("adults"@, "Adults"@, "Age"@),
        ("bestsellers"@, "Bestsellers"@, "Modifiers"@),
        ("anthology"@, "Anthology"@, "Modifiers"@),
        ("classic"@, "Classic"@, "Modifiers"@),
        ("documentary"@, "Documentary"@, "Modifiers"@),
        ("full-cast"@, "Full Cast"@, "Modifiers"@),
        ("libertarian"@, "Libertarian"@, "Modifiers"@),
        ("military"@, "Military"@, "Modifiers"@),
        ("novel"@, "Novel"@, "Modifiers"@),
        ("short-story"@, "Short Story"@, "Modifiers"@),
        ("postapocalyptic"@, "(Post)apocalyptic"@, "Category"@),
        ("action"@, "Action"@, "Category"@),
        ("adventure"@, "Adventure"@, "Category"@),
        ("art"@, "Art"@, "Category"@),
        ("autobiography-biographies"@, "Autobiography & Biographies"@, "Category"@),
        ("business"@, "Business"@, "Category"@),
        ("computer"@, "Computer"@, "Category"@),
        ("contemporary"@, "Contemporary"@, "Category"@),
        ("crime"@, "Crime"@, "Category"@),
        ("detective"@, "Detective"@, "Category"@),
        ("doctor-who-sci-fi"@, "Doctor Who"@, "Category"@),
        ("education"@, "Education"@, "Category"@),
        ("fantasy"@, "Fantasy"@, "Category"@),
        ("general-fiction"@, "General Fiction"@, "Category"@),
        ("general-non-fiction"@, "Misc. Non-fiction"@, "Category"@),
        ("historical-fiction"@, "Historical Fiction"@, "Category"@),
        ("history"@, "History"@, "Category"@),
        ("horror"@, "Horror"@, "Category"@),
        ("humor"@, "Humor"@, "Category"@),
        ("lecture"@, "Lecture"@, "Category"@),
        ("lgbt"@, "LGBT"@, "Category"@),
        ("light-novel"@, "Light Novel"@, "Category"@),
        ("literature"@, "Literature"@, "Category"@),
        ("litrpg"@, "LitRPG"@, "Category"@),
        ("mystery"@, "Mystery"@, "Category"@),
        ("paranormal"@, "Paranormal"@, "Category"@),
        ("plays-theater"@, "Plays & Theater"@, "Category"@),
        ("poetry"@, "Poetry"@, "Category"@),
        ("political"@, "Political"@, "Category"@),
        ("radio-productions"@, "Radio Productions"@, "Category"@),
        ("romance"@, "Romance"@, "Category"@),
        ("sci-fi"@, "Sci-Fi"@, "Category"@),
        ("science"@, "Science"@, "Category"@),
        ("self-help"@, "Self-help"@, "Category"@),
        ("spiritual"@, "Spiritual & Religious"@, "Category"@),
        ("sports"@, "Sport & Recreation"@, "Category"@),
        ("suspense"@, "Suspense"@, "Category"@),
        ("thriller"@, "Thriller"@, "Category"@),
        ("true-crime"@, "True Crime"@, "Category"@),
        ("tutorial"@, "Tutorial"@, "Category"@),
        ("westerns"@, "Westerns"@, "Category"@),
        ("zombies"@, "Zombies"@, "Category"@),
        ("other"@, "Other"@, "Category"@)
    ]
}

pub open spec fn category_view(c: AbbCategory) -> (Seq<char>, Seq<char>, Seq<char>) {
    (c.slug@, c.label@, c.group@)
}

pub open spec fn categories_view(v: Seq<AbbCategory>) -> Seq<(Seq<char>, Seq<char>, Seq<char>)> {
    v.map_values(|c: AbbCategory| category_view(c))
}

fn push_category(out: &mut Vec<AbbCategory>, slug: &str, label: &str, group: &str)
    ensures
        categories_view(final(out)@) == categories_view(old(out)@).push((slug@, label@, group@)),
{
    let c = AbbCategory { slug: slug.to_string(), label: label.to_string(), group: group.to_string() };
    out.push(c);
    assert(categories_view(out@) =~= categories_view(old(out)@).push((slug@, label@, group@)));
}

fn push_categories_0(out: &mut Vec<AbbCategory>)
    ensures
        categories_view(final(out)@) == categories_view(old(out)@) + category_table().subrange(0, 8),
{
    push_category(out, "children", "Children", "Age");
    push_category(out, "teen-young-adult", "Teen & Young Adult", "Age");
    push_category(out, "new", "New", "Age");
    push_category(out, "adults", "Adults", "Age");
    push_category(out, "bestsellers", "Bestsellers", "Modifiers");
    push_category(out, "anthology", "Anthology", "Modifiers");
    push_category(out, "classic", "Classic", "Modifiers");
    push_category(out, "documentary", "Documentary", "Modifiers");
    assert(categories_view(out@) =~= categories_view(old(out)@) + category_table().subrange(0, 8));
}

fn push_categories_8(out: &mut Vec<AbbCategory>)
    ensures
        categories_view(final(out)@) == categories_view(old(out)@) + category_table().subrange(8, 16),
{
    push_category(out, "full-cast", "Full Cast", "Modifiers");
    push_category(out, "libertarian", "Libertarian", "Modifiers");
    push_category(out, "military", "Military", "Modifiers");
    push_category(out, "novel", "Novel", "Modifiers");
    push_category(out, "short-story", "Short Story", "Modifiers");
    push_category(out, "postapocalyptic", "(Post)apocalyptic", "Category");
    push_category(out, "action", "Action", "Category");
    push_category(out, "adventure", "Adventure", "Category");
    assert(categories_view(out@) =~= categories_view(old(out)@) + category_table().subrange(8, 16));
}

fn push_categories_16(out: &mut Vec<AbbCategory>)
    ensures
        categories_view(final(out)@) == categories_view(old(out)@) + category_table().subrange(16, 24),
{
    push_category(out, "art", "Art", "Category");
    push_category(out, "autobiography-biographies", "Autobiography & Biographies", "Category");
    push_category(out, "business", "Business", "Category");
    push_category(out, "computer", "Computer", "Category");
    push_category(out, "contemporary", "Contemporary", "Category");
    push_category(out, "crime", "Crime", "Category");
    push_category(out, "detective", "Detective", "Category");
    push_category(out, "doctor-who-sci-fi", "Doctor Who", "Category");
    assert(categories_view(out@) =~= categories_view(old(out)@) + category_table().subrange(16, 24));
}

fn push_categories_24(out: &mut Vec<AbbCategory>)
    ensures
        categories_view(final(out)@) == categories_view(old(out)@) + category_table().subrange(24, 32),
{
    push_category(out, "education", "Education", "Category");
    push_category(out, "fantasy", "Fantasy", "Category");
    push_category(out, "general-fiction", "General Fiction", "Category");
    push_category(out, "general-non-fiction", "Misc. Non-fiction", "Category");
    push_category(out, "historical-fiction", "Historical Fiction", "Category");
    push_category(out, "history", "History", "Category");
    push_category(out, "horror", "Horror", "Category");
    push_category(out, "humor", "Humor", "Category");
    assert(categories_view(out@) =~= categories_view(old(out)@) + category_table().subrange(24, 32));
}

fn push_categories_32(out: &mut Vec<AbbCategory>)
    ensures
        categories_view(final(out)@) == categories_view(old(out)@) + category_table().subrange(32, 40),
{
    push_category(out, "lecture", "Lecture", "Category");
    push_category(out, "lgbt", "LGBT", "Category");
    push_category(out, "light-novel", "Light Novel", "Category");
    push_category(out, "literature", "Literature", "Category");
    push_category(out, "litrpg", "LitRPG", "Category");
    push_category(out, "mystery", "Mystery", "Category");
    push_category(out, "paranormal", "Paranormal", "Category");
    push_category(out, "plays-theater", "Plays & Theater", "Category");
    assert(categories_view(out@) =~= categories_view(old(out)@) + category_table().subrange(32, 40));
}

fn push_categories_40(out: &mut Vec<AbbCategory>)
    ensures
        categories_view(final(out)@) == categories_view(old(out)@) + category_table().subrange(40, 48),
{
    push_category(out, "poetry", "Poetry", "Category");
    push_category(out, "political", "Political", "Category");
    push_category(out, "radio-productions", "Radio Productions", "Category");
    push_category(out, "romance", "Romance", "Category");
    push_category(out, "sci-fi", "Sci-Fi", "Category");
    push_category(out, "science", "Science", "Category");
    push_category(out, "self-help", "Self-help", "Category");
    push_category(out, "spiritual", "Spiritual & Religious", "Category");
    assert(categories_view(out@) =~= categories_view(old(out)@) + category_table().subrange(40, 48));
}

fn push_categories_48(out: &mut Vec<AbbCategory>)
    ensures
        categories_view(final(out)@) == categories_view(old(out)@) + category_table().subrange(48, 56),
{
    push_category(out, "sports", "Sport & Recreation", "Category");
    push_category(out, "suspense", "Suspense", "Category");
    push_category(out, "thriller", "Thriller", "Category");
    push_category(out, "true-crime", "True Crime", "Category");
    push_category(out, "tutorial", "Tutorial", "Category");
    push_category(out, "westerns", "Westerns", "Category");
    push_category(out, "zombies", "Zombies", "Category");
    push_category(out, "other", "Other", "Category");
    assert(categories_view(out@) =~= categories_view(old(out)@) + category_table().subrange(48, 56));
}

/// The browsable categories, in the order of `category_table`.
pub fn abb_categories() -> (r: Vec<AbbCategory>)
    ensures
        categories_view(r@) == category_table(),
{
    let mut out: Vec<AbbCategory> = Vec::new();
    push_categories_0(&mut out);
    push_categories_8(&mut out);
    push_categories_16(&mut out);
    push_categories_24(&mut out);
    push_categories_32(&mut out);
    push_categories_40(&mut out);
    push_categories_48(&mut out);
    assert(categories_view(out@) =~= category_table());
    out
}

} // verus!

verus! {

/// Index of the first category with this slug.
pub open spec fn find_category(slug: Seq<char>, k: int) -> Option<int>
    decreases category_table().len() - k,
{
    if k < 0 || k >= category_table().len() {
        None
    } else if category_table()[k].0 == slug {
        Some(k)
    } else {
        find_category(slug, k + 1)
    }
}

fn find_category_exec(cats: &Vec<AbbCategory>, slug: &String) -> (r: Option<usize>)
    requires
        categories_view(cats@) == category_table(),
    ensures
        match r {
            Some(k) => find_category(slug@, 0) == Some(k as int) && k < cats.len(),
            None => find_category(slug@, 0) is None,
        },
{
    let mut k: usize = 0;
    while k < cats.len()
        invariant
            k <= cats.len(),
            categories_view(cats@) == category_table(),
            find_category(slug@, k as int) == find_category(slug@, 0),
        decreases cats.len() - k,
    {
        assert(categories_view(cats@)[k as int] == category_view(cats@[k as int]));
        if cats[k].slug == *slug {
            return Some(k);
        }
        k += 1;
    }
    None
}

/// A category slug as typed: trimmed, outer `/` dropped, lower-cased; it
/// must name one of the categories (and hold no `/` or `..`).
pub open spec fn spec_normalize_category_slug(raw: Seq<char>) -> Option<Seq<char>> {
    let slug = lower_seq(crate::text::trim_char(trim(raw), '/'));
    if slug.len() == 0 || slug.contains('/') || contains(slug, lit_dotdot()) {
        None
    } else {
        match find_category(slug, 0) {
            Some(k) => Some(category_table()[k].0),
            None => None,
        }
    }
}

pub fn normalize_category_slug(raw: &str) -> (r: Option<String>)
    ensures
        crate::text::opt_string_view(r) == spec_normalize_category_slug(raw@),
{
    let v = str_chars(raw);
    let t = trim_chars(v.as_slice());
    let t2 = crate::text::trim_char_exec(t.as_slice(), '/');
    let slug = to_ascii_lower(t2.as_slice());
    let dd = mk_dotdot();
    if slug.len() == 0 || crate::text::contains_char(slug.as_slice(), '/') || contains_exec(
        slug.as_slice(),
        dd.as_slice(),
    ) {
        return None;
    }
    let slug_s = chars_to_string(slug.as_slice());
    let cats = abb_categories();
    match find_category_exec(&cats, &slug_s) {
        Some(k) => {
            assert(categories_view(cats@)[k as int] == category_view(cats@[k as int]));
            Some(cats[k].slug.clone())
        },
        None => None,
    }
}

/// The label of a category, or the slug itself when it is not one.
pub open spec fn spec_category_label_for(slug: Seq<char>) -> Seq<char> {
    match find_category(slug, 0) {
        Some(k) => category_table()[k].1,
        None => slug,
    }
}

pub fn category_label_for(slug: &str) -> (r: String)
    ensures
        r@ == spec_category_label_for(slug@),
{
    let s = slug.to_string();
    let cats = abb_categories();
    match find_category_exec(&cats, &s) {
        Some(k) => {
            assert(categories_view(cats@)[k as int] == category_view(cats@[k as int]));
            cats[k].label.clone()
        },
        None => s,
    }
}

// ---------------------------------------------------------------------------
// Telling pages apart
// ---------------------------------------------------------------------------

/// A search or archive listing carries the `archiveTitle` heading; the
/// home page does not.
pub open spec fn spec_is_search_results_page(html: Seq<char>) -> bool {
    contains(html, lit_archive_dq()) || contains(html, lit_archive_sq())
}

pub fn is_abb_search_results_page(html: &str) -> (r: bool)
    ensures
        r == spec_is_search_results_page(html@),
{
    let v = str_chars(html);
    contains_exec(v.as_slice(), mk_archive_dq().as_slice()) || contains_exec(
        v.as_slice(),
        mk_archive_sq().as_slice(),
    )
}

/// An RSS document is the search feed for a query when (ignoring ASCII
/// case) it does not link to the home feed, mentions `s=<query>`, and
/// mentions `feed=rss`.
pub open spec fn spec_rss_is_search_feed(xml: Seq<char>, encoded_query: Seq<char>) -> bool {
    let lower = lower_seq(xml);
    if contains(lower, lit_feed_http()) || contains(lower, lit_feed_https()) || contains(
        lower,
        lit_feed_http_s(),
    ) || contains(lower, lit_feed_https_s()) {
        false
    } else {
        contains(lower, lit_s_eq() + lower_seq(encoded_query)) && (contains(
            lower,
            lit_feed_rss2(),
        ) || contains(lower, lit_feed_rss()))
    }
}

pub fn rss_is_search_feed(xml: &str, encoded_query: &str) -> (r: bool)
    ensures
        r == spec_rss_is_search_feed(xml@, encoded_query@),
{
    let v = str_chars(xml);
    let lower = to_ascii_lower(v.as_slice());
    if contains_exec(lower.as_slice(), mk_feed_http().as_slice()) || contains_exec(
        lower.as_slice(),
        mk_feed_https().as_slice(),
    ) || contains_exec(lower.as_slice(), mk_feed_http_s().as_slice()) || contains_exec(
        lower.as_slice(),
        mk_feed_https_s().as_slice(),
    ) {
        return false;
    }
    let q = str_chars(encoded_query);
    let lq = to_ascii_lower(q.as_slice());
    let mut needle = mk_s_eq();
    extend_chars(&mut needle, lq.as_slice());
    contains_exec(lower.as_slice(), needle.as_slice()) && (contains_exec(
        lower.as_slice(),
        mk_feed_rss2().as_slice(),
    ) || contains_exec(lower.as_slice(), mk_feed_rss().as_slice()))
}

// ---------------------------------------------------------------------------
// URLs
// ---------------------------------------------------------------------------

/// The search term as the site's search form sends it: trimmed,
/// ASCII-lower-cased (the site redirects mixed case to its home page),
/// percent-encoded, with `%20` and `%2B` written `+`.
pub open spec fn spec_encode_abb_query(q: Seq<char>) -> Seq<char> {
    let e = pct_encode(encode_utf8(lower_seq(trim(q))));
    replace(replace(e, lit_pct20(), lit_plus()), lit_pct2b(), lit_plus())
}

pub fn encode_abb_query(q: &str) -> (r: String)
    ensures
        r@ == spec_encode_abb_query(q@),
{
    let t = crate::text::trim_str(q);
    let l = to_ascii_lower(t.as_slice());
    let e = crate::magnet::percent_encode(l.as_slice());
    let r1 = replace_exec(e.as_slice(), mk_pct20().as_slice(), mk_plus().as_slice());
    let r2 = replace_exec(r1.as_slice(), mk_pct2b().as_slice(), mk_plus().as_slice());
    chars_to_string(r2.as_slice())
}

/// A link made absolute against the site's origin `base`.
pub open spec fn spec_absolutize(url: Seq<char>, base: Seq<char>) -> Seq<char> {
    if starts_with(url, lit_http()) {
        url
    } else if starts_with(url, lit_dslash()) {
        lit_https_colon() + url
    } else if starts_with(url, lit_slash()) {
        base + url
    } else {
        base + lit_slash() + url
    }
}

pub fn absolutize(url: &[char], base: &[char]) -> (r: Vec<char>)
    ensures
        r@ == spec_absolutize(url@, base@),
{
    let mut out: Vec<char> = Vec::new();
    if starts_with_exec(url, mk_http().as_slice()) {
        extend_chars(&mut out, url);
    } else if starts_with_exec(url, mk_dslash().as_slice()) {
        extend_chars(&mut out, mk_https_colon().as_slice());
        extend_chars(&mut out, url);
    } else if starts_with_exec(url, mk_slash().as_slice()) {
        extend_chars(&mut out, base);
        extend_chars(&mut out, url);
    } else {
        extend_chars(&mut out, base);
        extend_chars(&mut out, mk_slash().as_slice());
        extend_chars(&mut out, url);
    }
    assert(out@ =~= spec_absolutize(url@, base@));
    out
}

/// The site's address.
pub open spec fn abb_mirror() -> Seq<char> {
    lit_mirror()
}

/// Pages are numbered from 1; 0 means the first page.
pub open spec fn first_page(page: u32) -> nat {
    if page < 1 {
        1
    } else {
        page as nat
    }
}

/// The recent-uploads feed: `/feed/` for the first page, `/feed/?paged=N`
/// after it.
pub open spec fn spec_latest_url(page: u32) -> Seq<char> {
    let p = first_page(page);
    if p <= 1 {
        abb_mirror() + lit_feed_path()
    } else {
        abb_mirror() + lit_feed_paged() + crate::text::decimal(p)
    }
}

pub fn latest_url(page: u32) -> (r: String)
    ensures
        r@ == spec_latest_url(page),
{
    let p: u32 = if page < 1 { 1 } else { page };
    let mut out = mk_mirror();
    if p <= 1 {
        extend_chars(&mut out, mk_feed_path().as_slice());
    } else {
        extend_chars(&mut out, mk_feed_paged().as_slice());
        let d = crate::text::u64_decimal(p as u64);
        extend_chars(&mut out, d.as_slice());
    }
    assert(out@ =~= spec_latest_url(page));
    chars_to_string(out.as_slice())
}

/// A category listing: `/audio-books/type/<slug>/`, then `page/N/` after
/// the first page.
pub open spec fn spec_category_url(slug: Seq<char>, page: u32) -> Seq<char> {
    let p = first_page(page);
    let base = abb_mirror() + lit_type_path() + slug;
    if p <= 1 {
        base + lit_slash()
    } else {
        base + lit_page_seg() + crate::text::decimal(p) + lit_slash()
    }
}

pub fn category_url(slug: &str, page: u32) -> (r: String)
    ensures
        r@ == spec_category_url(slug@, page),
{
    let p: u32 = if page < 1 { 1 } else { page };
    let mut out = mk_mirror();
    extend_chars(&mut out, mk_type_path().as_slice());
    let sv = str_chars(slug);
    extend_chars(&mut out, sv.as_slice());
    if p <= 1 {
        extend_chars(&mut out, mk_slash().as_slice());
    } else {
        extend_chars(&mut out, mk_page_seg().as_slice());
        let d = crate::text::u64_decimal(p as u64);
        extend_chars(&mut out, d.as_slice());
        extend_chars(&mut out, mk_slash().as_slice());
    }
    assert(out@ =~= spec_category_url(slug@, page));
    chars_to_string(out.as_slice())
}

/// The HTML search pages tried, in order: with and without the
/// `cat=undefined,undefined` parameter the site's own form adds; pages after
/// the first are under `/page/N/`.
pub open spec fn spec_search_html_urls(encoded: Seq<char>, page: u32) -> Seq<Seq<char>> {
    let p = first_page(page);
    let base = if p <= 1 {
        abb_mirror() + lit_q_s() + encoded
    } else {
        abb_mirror() + lit_page_seg() + crate::text::decimal(p) + lit_q_s() + encoded
    };
    seq![base + lit_cat_undef(), base]
}

pub fn search_html_urls(encoded: &str, page: u32) -> (r: Vec<String>)
    ensures
        crate::text::seqs_view(r@) == spec_search_html_urls(encoded@, page),
{
    let p: u32 = if page < 1 { 1 } else { page };
    let mut base = mk_mirror();
    if p > 1 {
        extend_chars(&mut base, mk_page_seg().as_slice());
        let d = crate::text::u64_decimal(p as u64);
        extend_chars(&mut base, d.as_slice());
    }
    extend_chars(&mut base, mk_q_s().as_slice());
    let ev = str_chars(encoded);
    extend_chars(&mut base, ev.as_slice());
    let mut with_cat = crate::text::copy_chars(base.as_slice());
    extend_chars(&mut with_cat, mk_cat_undef().as_slice());
    let mut out: Vec<String> = Vec::new();
    out.push(chars_to_string(with_cat.as_slice()));
    out.push(chars_to_string(base.as_slice()));
    assert(crate::text::seqs_view(out@) =~= spec_search_html_urls(encoded@, page));
    out
}

/// The RSS form of a search: `/?s=<q>&feed=rss2`, then `&paged=N` after
/// the first page.
pub open spec fn spec_search_rss_url(encoded: Seq<char>, page: u32) -> Seq<char> {
    let p = first_page(page);
    let base = abb_mirror() + lit_q_s() + encoded + lit_feed_rss2_amp();
    if p <= 1 {
        base
    } else {
        base + lit_paged_amp() + crate::text::decimal(p)
    }
}

pub fn search_rss_url(encoded: &str, page: u32) -> (r: String)
    ensures
        r@ == spec_search_rss_url(encoded@, page),
{
    let p: u32 = if page < 1 { 1 } else { page };
    let mut out = mk_mirror();
    extend_chars(&mut out, mk_q_s().as_slice());
    let ev = str_chars(encoded);
    extend_chars(&mut out, ev.as_slice());
    extend_chars(&mut out, mk_feed_rss2_amp().as_slice());
    if p > 1 {
        extend_chars(&mut out, mk_paged_amp().as_slice());
        let d = crate::text::u64_decimal(p as u64);
        extend_chars(&mut out, d.as_slice());
    }
    assert(out@ =~= spec_search_rss_url(encoded@, page));
    chars_to_string(out.as_slice())
}

/// A detail page given as a full URL, a site path, or a bare path.
pub open spec fn spec_details_url(path_or_url: Seq<char>) -> Seq<char> {
    if starts_with(path_or_url, lit_http()) {
        path_or_url
    } else if starts_with(path_or_url, lit_slash()) {
        abb_mirror() + path_or_url
    } else {
        abb_mirror() + lit_slash() + path_or_url
    }
}

pub fn details_url(path_or_url: &str) -> (r: String)
    ensures
        r@ == spec_details_url(path_or_url@),
{
    let v = str_chars(path_or_url);
    let mut out: Vec<char> = Vec::new();
    if starts_with_exec(v.as_slice(), mk_http().as_slice()) {
        extend_chars(&mut out, v.as_slice());
    } else if starts_with_exec(v.as_slice(), mk_slash().as_slice()) {
        extend_chars(&mut out, mk_mirror().as_slice());
        extend_chars(&mut out, v.as_slice());
    } else {
        extend_chars(&mut out, mk_mirror().as_slice());
        extend_chars(&mut out, mk_slash().as_slice());
        extend_chars(&mut out, v.as_slice());
    }
    assert(out@ =~= spec_details_url(path_or_url@));
    chars_to_string(out.as_slice())
}

/// What `url::Url::parse` reads of a URL: its scheme and its host, if it
/// has one (`None` when the URL does not parse).
pub uninterp spec fn spec_url_parts(url: Seq<char>) -> Option<(Seq<char>, Option<Seq<char>>)>;

/// `url::Url::parse(url)`, then `Url::scheme` and `Url::host_str`.
#[verifier::external_body]
fn url_parts(url: &str) -> (r: Option<(String, Option<String>)>)
    ensures
        match r {
            Some((scheme, host)) => spec_url_parts(url@) == Some((scheme@, crate::text::opt_string_view(host))),
            None => spec_url_parts(url@) is None,
        },
{
    let parsed = url::Url::parse(url).ok()?;
    Some((parsed.scheme().to_string(), parsed.host_str().map(String::from)))
}

/// `scheme://host` of a URL that parses and has a host.
pub open spec fn spec_origin_of(url: Seq<char>) -> Option<Seq<char>> {
    match spec_url_parts(url) {
        Some((scheme, Some(host))) => Some(scheme + seq![':', '/', '/'] + host),
        _ => None,
    }
}

/// The origin (`scheme://host`) of a URL, if it parses and has a host.
pub fn origin_of(url: &str) -> (r: Option<String>)
    ensures
        crate::text::opt_string_view(r) == spec_origin_of(url@),
{
    match url_parts(url) {
        Some((scheme, Some(host))) => {
            let mut v = str_chars(scheme.as_str());
            let sep: [char; 3] = [':', '/', '/'];
            extend_chars(&mut v, &sep);
            extend_chars(&mut v, str_chars(host.as_str()).as_slice());
            assert(v@ =~= scheme@ + seq![':', '/', '/'] + host@);
            Some(chars_to_string(v.as_slice()))
        },
        _ => None,
    }
}

/// The origin of a URL, or the site's address when it has none.
pub open spec fn spec_origin_or_mirror(url: Seq<char>) -> Seq<char> {
    match spec_origin_of(url) {
        Some(o) => o,
        None => abb_mirror(),
    }
}

pub fn origin_or_mirror(url: &str) -> (r: String)
    ensures
        r@ == spec_origin_or_mirror(url@),
{
    match origin_of(url) {
        Some(o) => o,
        None => chars_to_string(mk_mirror().as_slice()),
    }
}

} // verus!

verus! {

/// ASCII lower-casing leaves whitespace as it is.
pub proof fn lemma_lower_keeps_ws(c: char)
    ensures
        is_ws(crate::text::lower(c)) == is_ws(c),
{
}

pub proof fn lemma_skip_ws_lower(s: Seq<char>, i: int)
    requires
        0 <= i <= s.len(),
    ensures
        skip_ws(lower_seq(s), i) == skip_ws(s, i),
    decreases s.len() - i,
{
    if i < s.len() {
        lemma_lower_keeps_ws(s[i]);
        if is_ws(s[i]) {
            lemma_skip_ws_lower(s, i + 1);
        }
    }
}

pub proof fn lemma_back_ws_lower(s: Seq<char>, j: int)
    requires
        0 <= j <= s.len(),
    ensures
        crate::text::back_ws(lower_seq(s), j) == crate::text::back_ws(s, j),
    decreases j,
{
    if j > 0 {
        lemma_lower_keeps_ws(s[j - 1]);
        if is_ws(s[j - 1]) {
            lemma_back_ws_lower(s, j - 1);
        }
    }
}

/// Trimming and ASCII lower-casing can be done in either order.
pub proof fn lemma_trim_lower(s: Seq<char>)
    ensures
        trim(lower_seq(s)) == lower_seq(trim(s)),
{
    lemma_skip_ws_lower(s, 0);
    let a = skip_ws(s, 0);
    lemma_skip_ws_bounds(s, 0);
    let t = s.subrange(a, s.len() as int);
    assert(lower_seq(s).subrange(a, s.len() as int) =~= lower_seq(t));
    lemma_back_ws_lower(t, t.len() as int);
    crate::text::lemma_back_ws_bounds(t, t.len() as int);
    assert(lower_seq(t).subrange(0, crate::text::back_ws(t, t.len() as int)) =~= lower_seq(
        t.subrange(0, crate::text::back_ws(t, t.len() as int)),
    ));
}

/// Lower-casing twice is lower-casing once.
pub proof fn lemma_lower_idempotent(s: Seq<char>)
    ensures
        lower_seq(lower_seq(s)) == lower_seq(s),
{
    assert(lower_seq(lower_seq(s)) =~= lower_seq(s));
}

/// A search term is encoded the same whatever its ASCII case: the site
/// only answers lower-case searches.
pub proof fn law_search_encoding_ignores_case(q: Seq<char>)
    ensures
        spec_encode_abb_query(lower_seq(q)) == spec_encode_abb_query(q),
{
    lemma_trim_lower(q);
    lemma_lower_idempotent(trim(q));
}

} // verus!
