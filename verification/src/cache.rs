//! The AudiobookBay cache: pages and detail pages are kept for a while,
//! and every result seen is remembered for searches served locally.
use vstd::prelude::*;

use crate::abb::{AbbDetails, AbbSearchPage, AbbSearchResult};
use crate::text::{
    chars_to_string, extend_chars, lower_seq, opt_string_view, str_chars, to_ascii_lower, trim,
    trim_end_char, trim_end_char_exec, trim_str,
};

verus! {

/// The first page of the latest uploads is refreshed after 20 minutes.
pub const TTL_LATEST_PAGE1_SECS: i64 = 1200;
/// Later pages of the latest uploads change less often: two hours.
pub const TTL_LATEST_DEEP_SECS: i64 = 7200;
pub const TTL_SEARCH_SECS: i64 = 7200;
pub const TTL_CATEGORY_SECS: i64 = 3600;
/// Detail pages (magnet and hash) rarely change: a week.
pub const TTL_DETAILS_SECS: i64 = 604800;

/// `mode|query|page`, the page in decimal.
pub open spec fn spec_page_cache_key(mode: Seq<char>, query_key: Seq<char>, page: nat) -> Seq<char> {
    mode + seq!['|'] + query_key + seq!['|'] + crate::text::decimal(page)
}

/// Two pages share a cache key only when mode, query and page number are
/// the same, as long as neither mode nor query holds a `|`.
pub proof fn law_page_cache_keys_are_distinct(
    mode1: Seq<char>,
    key1: Seq<char>,
    page1: nat,
    mode2: Seq<char>,
    key2: Seq<char>,
    page2: nat,
)
    requires
        !mode1.contains('|'),
        !key1.contains('|'),
        !mode2.contains('|'),
        !key2.contains('|'),
    ensures
        spec_page_cache_key(mode1, key1, page1) == spec_page_cache_key(mode2, key2, page2) <==> (mode1 == mode2
            && key1 == key2 && page1 == page2),
{
    if spec_page_cache_key(mode1, key1, page1) == spec_page_cache_key(mode2, key2, page2) {
        let rest1 = key1 + seq!['|'] + crate::text::decimal(page1);
        let rest2 = key2 + seq!['|'] + crate::text::decimal(page2);
        assert(spec_page_cache_key(mode1, key1, page1) =~= mode1 + seq!['|'] + rest1);
        assert(spec_page_cache_key(mode2, key2, page2) =~= mode2 + seq!['|'] + rest2);
        crate::text::lemma_split_at_separator(mode1, rest1, mode2, rest2, '|');
        crate::text::lemma_split_at_separator(key1, crate::text::decimal(page1), key2, crate::text::decimal(page2), '|');
        crate::text::lemma_decimal_injective(page1, page2);
    }
}

/// The key of a cached page: `mode|query|page`.
pub fn page_cache_key(mode: &str, query_key: &str, page: u32) -> (r: String)
    ensures
        r@ == spec_page_cache_key(mode@, query_key@, page as nat),
{
    let mut v = str_chars(mode);
    extend_chars(&mut v, str_chars("|").as_slice());
    extend_chars(&mut v, str_chars(query_key).as_slice());
    extend_chars(&mut v, str_chars("|").as_slice());
    extend_chars(&mut v, crate::text::u64_decimal(page as u64).as_slice());
    proof {
        reveal_strlit("|");
        assert(v@ =~= spec_page_cache_key(mode@, query_key@, page as nat));
    }
    chars_to_string(v.as_slice())
}

/// The text before the first `c` (all of it when there is none).
pub open spec fn before_char(s: Seq<char>, c: char) -> Seq<char>
    decreases s.len(),
{
    if s.len() == 0 {
        s
    } else if s.contains(c) {
        if s.last() == c && !s.drop_last().contains(c) {
            s.drop_last()
        } else {
            before_char(s.drop_last(), c)
        }
    } else {
        s
    }
}

fn before_char_exec(s: &[char], c: char) -> (r: Vec<char>)
    ensures
        r@ == before_char(s@, c),
{
    let mut i: usize = 0;
    while i < s.len()
        invariant
            i <= s.len(),
            !s@.take(i as int).contains(c),
        decreases s.len() - i,
    {
        if s[i] == c {
            proof {
                lemma_before_char(s@, c, i as int);
            }
            return crate::text::slice_chars(s, 0, i);
        }
        assert(s@.take(i + 1) =~= s@.take(i as int).push(s@[i as int]));
        i += 1;
    }
    assert(s@.take(s.len() as int) =~= s@);
    crate::text::copy_chars(s)
}

/// The text before the first `c` is the prefix up to its first occurrence.
pub proof fn lemma_before_char(s: Seq<char>, c: char, i: int)
    requires
        0 <= i < s.len(),
        s[i] == c,
        !s.take(i).contains(c),
    ensures
        before_char(s, c) == s.take(i),
    decreases s.len(),
{
    assert(s.contains(c));
    if s.len() - 1 == i {
        assert(s.drop_last() =~= s.take(i));
    } else {
        assert(s.drop_last().take(i) =~= s.take(i));
        assert(s.drop_last()[i] == c);
        assert(s.drop_last().contains(c));
        lemma_before_char(s.drop_last(), c, i);
    }
}

pub open spec fn spec_normalize_listing_url(url: Seq<char>) -> Seq<char> {
    trim_end_char(before_char(before_char(trim(url), '#'), '?'), '/')
}

/// The form under which a result's URL is remembered: trimmed, without
/// fragment, query or trailing `/`.
pub fn normalize_listing_url(url: &str) -> (r: String)
    ensures
        r@ == spec_normalize_listing_url(url@),
{
    let t = trim_str(url);
    let a = before_char_exec(t.as_slice(), '#');
    let b = before_char_exec(a.as_slice(), '?');
    chars_to_string(trim_end_char_exec(b.as_slice(), '/').as_slice())
}

pub open spec fn spec_ttl(mode: Seq<char>, page: u32) -> i64 {
    if mode == "latest"@ {
        if page <= 1 {
            TTL_LATEST_PAGE1_SECS
        } else {
            TTL_LATEST_DEEP_SECS
        }
    } else if mode == "category"@ {
        TTL_CATEGORY_SECS
    } else {
        TTL_SEARCH_SECS
    }
}

/// How long a cached page stays fresh, in seconds.
pub fn ttl_for(mode: &str, page: u32) -> (r: i64)
    ensures
        r == spec_ttl(mode@, page),
{
    if crate::models::str_eq(mode, "latest") {
        if page <= 1 {
            TTL_LATEST_PAGE1_SECS
        } else {
            TTL_LATEST_DEEP_SECS
        }
    } else if crate::models::str_eq(mode, "category") {
        TTL_CATEGORY_SECS
    } else {
        TTL_SEARCH_SECS
    }
}

/// A cached page as stored.
#[derive(Debug, Clone)]
pub struct PageCacheRow {
    pub has_more: bool,
    pub results_json: String,
    pub mirror: String,
    pub category_label: Option<String>,
    pub mode: String,
    pub query_key: String,
    pub page: i64,
    pub expires_at: String,
}

/// A cached page read back, given its results decoded from
/// `results_json` (`None` when they could not be read, which drops the
/// page). The query key is the search query of a search page and the slug
/// of a category page.
pub fn row_to_page(row: PageCacheRow, results: Option<Vec<AbbSearchResult>>) -> (r: Option<AbbSearchPage>)
    ensures
        match results {
            None => r is None,
            Some(rs) => r matches Some(p) && {
                &&& p.results@ == rs@
                &&& p.page == row.page as u32
                &&& p.has_more == row.has_more
                &&& p.mirror == row.mirror
                &&& p.mode == row.mode
                &&& opt_string_view(p.query) == (if row.mode@ == "search"@ && row.query_key@.len() > 0 {
                    Some(row.query_key@)
                } else {
                    None
                })
                &&& opt_string_view(p.category) == (if row.mode@ == "category"@
                    && row.query_key@.len() > 0 {
                    Some(row.query_key@)
                } else {
                    None
                })
                &&& p.category_label == row.category_label
            },
        },
{
    let results = match results {
        Some(rs) => rs,
        None => {
            return None;
        },
    };
    let has_key = !row.query_key.as_str().is_empty();
    let query = if crate::models::str_eq(row.mode.as_str(), "search") && has_key {
        Some(row.query_key.as_str().to_owned())
    } else {
        None
    };
    let category = if crate::models::str_eq(row.mode.as_str(), "category") && has_key {
        Some(row.query_key.as_str().to_owned())
    } else {
        None
    };
    #[verifier::truncate]
    let page = row.page as u32;
    Some(
        AbbSearchPage {
            results,
            page,
            has_more: row.has_more,
            mirror: row.mirror,
            mode: row.mode,
            query,
            category,
            category_label: row.category_label,
        },
    )
}

pub open spec fn spec_page_query_key(mode: Seq<char>, query: Option<Seq<char>>, category: Option<Seq<char>>) -> Seq<char> {
    if mode == "search"@ {
        lower_seq(trim(crate::abs_sync::str_or(query, Seq::empty())))
    } else if mode == "category"@ {
        crate::abs_sync::str_or(category, Seq::empty())
    } else {
        Seq::empty()
    }
}

/// The query key a page is cached under: the trimmed, lower-cased query
/// of a search, the slug of a category, nothing for the latest uploads.
pub fn page_query_key(page: &AbbSearchPage) -> (r: String)
    ensures
        r@ == spec_page_query_key(page.mode@, opt_string_view(page.query), opt_string_view(page.category)),
{
    if crate::models::str_eq(page.mode.as_str(), "search") {
        let q: Vec<char> = match &page.query {
            Some(q) => str_chars(q.as_str()),
            None => Vec::new(),
        };
        let t = crate::text::trim_chars(q.as_slice());
        chars_to_string(to_ascii_lower(t.as_slice()).as_slice())
    } else if crate::models::str_eq(page.mode.as_str(), "category") {
        match &page.category {
            Some(c) => c.as_str().to_owned(),
            None => {
                proof {
                    reveal_strlit("");
                }
                "".to_owned()
            },
        }
    } else {
        proof {
            reveal_strlit("");
        }
        "".to_owned()
    }
}

/// A cached detail page as stored.
#[derive(Debug, Clone)]
pub struct DetailsRow {
    pub title: String,
    pub url: String,
    pub info_hash: Option<String>,
    pub magnet_uri: Option<String>,
    pub cover_url: Option<String>,
    pub description: Option<String>,
    pub author: Option<String>,
    pub narrator: Option<String>,
    pub format: Option<String>,
    pub bitrate: Option<String>,
    pub size: Option<String>,
}

/// A cached detail page read back: every field as stored.
pub fn row_to_details(r: DetailsRow) -> (d: AbbDetails)
    ensures
        d.title == r.title,
        d.url == r.url,
        d.info_hash == r.info_hash,
        d.magnet_uri == r.magnet_uri,
        d.cover_url == r.cover_url,
        d.description == r.description,
        d.author == r.author,
        d.narrator == r.narrator,
        d.format == r.format,
        d.bitrate == r.bitrate,
        d.size == r.size,
{
    AbbDetails {
        title: r.title,
        url: r.url,
        info_hash: r.info_hash,
        magnet_uri: r.magnet_uri,
        cover_url: r.cover_url,
        description: r.description,
        author: r.author,
        narrator: r.narrator,
        format: r.format,
        bitrate: r.bitrate,
        size: r.size,
    }
}

fn copy_opt(o: &Option<String>) -> (r: Option<String>)
    ensures
        opt_string_view(r) == opt_string_view(*o),
{
    match o {
        Some(s) => Some(s.as_str().to_owned()),
        None => None,
    }
}

/// The result remembered from a detail page, under the page's
/// normalized URL `url`; what a detail page does not show stays unknown.
pub fn listing_from_details(d: &AbbDetails, url: String) -> (r: AbbSearchResult)
    ensures
        r.title@ == d.title@,
        r.url == url,
        opt_string_view(r.cover_url) == opt_string_view(d.cover_url),
        r.info is None,
        opt_string_view(r.author) == opt_string_view(d.author),
        r.language is None,
        opt_string_view(r.format) == opt_string_view(d.format),
        opt_string_view(r.bitrate) == opt_string_view(d.bitrate),
        opt_string_view(r.size) == opt_string_view(d.size),
        r.posted is None,
        r.category is None,
{
    AbbSearchResult {
        title: d.title.as_str().to_owned(),
        url,
        cover_url: copy_opt(&d.cover_url),
        info: None,
        author: copy_opt(&d.author),
        language: None,
        format: copy_opt(&d.format),
        bitrate: copy_opt(&d.bitrate),
        size: copy_opt(&d.size),
        posted: None,
        category: None,
    }
}

/// What a local search looks up: the SQL `LIKE` pattern of the query
/// (lower-cased, between `%`), the page (at least 1) and the offset of its
/// first row; `None` for a blank query, which is never served locally.
pub fn local_search_plan(query: &str, page: u32, page_size: usize) -> (r: Option<(String, u32, usize)>)
    requires
        (page as int) * (page_size as int) <= usize::MAX,
    ensures
        trim(query@).len() == 0 ==> r is None,
        trim(query@).len() > 0 ==> (r matches Some(t) && {
            let p: u32 = if page < 1 { 1 } else { page };
            &&& t.0@ == "%"@ + lower_seq(trim(query@)) + "%"@
            &&& t.1 == p
            &&& t.2 == (p - 1) * page_size
        }),
{
    let q = trim_str(query);
    if q.len() == 0 {
        return None;
    }
    let p: u32 = if page < 1 { 1 } else { page };
    assert((p - 1) * page_size <= (page as int) * (page_size as int)) by (nonlinear_arith)
        requires
            p as int - 1 <= page as int,
            page_size >= 0,
            p >= 1,
    ;
    let offset: usize = ((p - 1) as usize) * page_size;
    let mut like = str_chars("%");
    extend_chars(&mut like, to_ascii_lower(q.as_slice()).as_slice());
    extend_chars(&mut like, str_chars("%").as_slice());
    Some((chars_to_string(like.as_slice()), p, offset))
}

/// Whether the remembered listings can fill the page: the first page needs
/// one match, later pages a full page beyond the offset.
pub fn local_search_enough(total: i64, page: u32, offset: usize, page_size: usize) -> (r: bool)
    ensures
        r == (total > 0 && total >= offset + (if page == 1 {
            1
        } else {
            page_size as int
        })),
{
    if total <= 0 {
        return false;
    }
    let need: u128 = if page == 1 {
        1
    } else {
        page_size as u128
    };
    (total as u128) >= (offset as u128) + need
}

/// A locally served search page from `rows` (the remembered listings at
/// the offset): none when there are no rows, or when a later page is not
/// full; it has more when rows lie beyond it.
pub fn local_search_page(
    rows: Vec<AbbSearchResult>,
    query: String,
    page: u32,
    offset: usize,
    page_size: usize,
    total: i64,
) -> (r: Option<AbbSearchPage>)
    ensures
        (rows@.len() == 0 || (page > 1 && rows@.len() < page_size)) ==> r is None,
        !(rows@.len() == 0 || (page > 1 && rows@.len() < page_size)) ==> (r matches Some(p) && {
            &&& p.results@ == rows@
            &&& p.page == page
            &&& p.has_more == (offset + rows@.len() < total)
            &&& p.mode@ == "search"@
            &&& p.query == Some(query)
            &&& p.mirror@ == crate::abb::abb_mirror()
        }),
{
    let n = rows.len();
    if n == 0 || (page > 1 && n < page_size) {
        return None;
    }
    let has_more = (offset as u128) + (n as u128) < (if total < 0 {
        0u128
    } else {
        total as u128
    }) && total > 0;
    Some(AbbSearchPage::search_page(rows, page, has_more, query))
}

} // verus!
