//! Reading AudiobookBay pages and feeds into results. Pattern matching is
//! done by the `regex` crate; what is made of the matches is this module's.
use vstd::prelude::*;
use scraper::{Html, Selector};

use crate::abb::{
    absolutize, clean_text, html_entity_decode, short_rfc2822, spec_absolutize, spec_clean_text,
    spec_html_entity_decode, spec_short_rfc2822, spec_split_title_author, spec_strip_cdata,
    split_title_author, strip_cdata, AbbDetails, AbbSearchPage, AbbSearchResult,
};
use crate::text::{
    chars_to_string, contains, contains_exec, extend_chars, lower_seq, opt_string_view,
    str_chars, to_ascii_lower,
};

verus! {

/// The groups of the first match of `pattern` in `hay` (group 0 being the
/// whole match; `None` for a group that took no part), as the `regex`
/// crate finds it; `None` when nothing matches or the pattern does not
/// compile.
pub uninterp spec fn spec_regex_captures(pattern: Seq<char>, hay: Seq<char>) -> Option<Seq<Option<Seq<char>>>>;

/// The groups of each successive non-overlapping match of `pattern` in
/// `hay`, in order; empty when the pattern does not compile.
pub uninterp spec fn spec_regex_captures_all(pattern: Seq<char>, hay: Seq<char>) -> Seq<Seq<Option<Seq<char>>>>;

pub open spec fn groups_view(v: Seq<Option<String>>) -> Seq<Option<Seq<char>>> {
    v.map_values(|o: Option<String>| opt_string_view(o))
}

pub open spec fn all_groups_view(v: Seq<Vec<Option<String>>>) -> Seq<Seq<Option<Seq<char>>>> {
    v.map_values(|g: Vec<Option<String>>| groups_view(g@))
}

/// `regex::Regex::new(pattern)` and `Regex::captures(hay)`: the texts of the
/// groups of the first match.
#[verifier::external_body]
pub(crate) fn regex_captures(pattern: &str, hay: &str) -> (r: Option<Vec<Option<String>>>)
    ensures
        match spec_regex_captures(pattern@, hay@) {
            Some(g) => r is Some && groups_view(r->0@) == g,
            None => r is None,
        },
{
    let re = regex::Regex::new(pattern).ok()?;
    let caps = re.captures(hay)?;
    Some(caps.iter().map(|m| m.map(|m| m.as_str().to_string())).collect())
}

/// `regex::Regex::new(pattern)` and `Regex::captures_iter(hay)`: the texts
/// of the groups of every match, in order.
#[verifier::external_body]
fn regex_captures_all(pattern: &str, hay: &str) -> (r: Vec<Vec<Option<String>>>)
    ensures
        all_groups_view(r@) == spec_regex_captures_all(pattern@, hay@),
{
    match regex::Regex::new(pattern) {
        Ok(re) => re.captures_iter(hay).map(|c| c.iter().map(|m| m.map(|m| m.as_str().to_string())).collect()).collect(),
        Err(_) => Vec::new(),
    }
}

/// Group `i` of a match, if the match has it and it took part.
pub open spec fn group(caps: Option<Seq<Option<Seq<char>>>>, i: int) -> Option<Seq<char>> {
    match caps {
        Some(g) => if 0 <= i < g.len() {
            g[i]
        } else {
            None
        },
        None => None,
    }
}

pub(crate) fn group_exec(caps: &Option<Vec<Option<String>>>, i: usize) -> (r: Option<Vec<char>>)
    ensures
        match group(
            match caps {
                Some(v) => Some(groups_view(v@)),
                None => None,
            },
            i as int,
        ) {
            Some(s) => r is Some && r->0@ == s,
            None => r is None,
        },
{
    match caps {
        Some(v) => if i < v.len() {
            match &v[i] {
                Some(s) => Some(str_chars(s.as_str())),
                None => None,
            }
        } else {
            None
        },
        None => None,
    }
}

/// First group of the first match of `pattern` in `hay`.
pub open spec fn first_group(pattern: Seq<char>, hay: Seq<char>) -> Option<Seq<char>> {
    group(spec_regex_captures(pattern, hay), 1)
}

fn first_group_exec(pattern: &str, hay: &str) -> (r: Option<Vec<char>>)
    ensures
        match first_group(pattern@, hay@) {
            Some(s) => r is Some && r->0@ == s,
            None => r is None,
        },
{
    let caps = regex_captures(pattern, hay);
    group_exec(&caps, 1)
}

pub open spec fn spec_capture_labeled(hay: Seq<char>, pattern: Seq<char>) -> Option<Seq<char>> {
    match first_group(pattern, hay) {
        Some(g) => {
            let value = spec_clean_text(g);
            if value.len() == 0 {
                None
            } else {
                Some(spec_html_entity_decode(value))
            }
        },
        None => None,
    }
}

/// The value captured by the first group of `pattern`, cleaned and
/// entity-decoded; none when there is no match or the value is blank.
pub fn capture_labeled(hay: &str, pattern: &str) -> (r: Option<String>)
    ensures
        opt_string_view(r) == spec_capture_labeled(hay@, pattern@),
{
    match first_group_exec(pattern, hay) {
        Some(g) => {
            let value = clean_text(g.as_slice());
            if value.len() == 0 {
                None
            } else {
                Some(chars_to_string(html_entity_decode(value.as_slice()).as_slice()))
            }
        },
        None => None,
    }
}

pub open spec fn file_size_pattern() -> Seq<char> {
    "(?is)File Size:\\s*(?:<[^>]+>)?\\s*([0-9.]+)\\s*(?:</[^>]+>)?\\s*([A-Za-z]+)"@
}

pub open spec fn spec_capture_file_size(hay: Seq<char>) -> Option<Seq<char>> {
    let caps = spec_regex_captures(file_size_pattern(), hay);
    match (group(caps, 1), group(caps, 2)) {
        (Some(n), Some(u)) => Some(crate::text::trim(n) + seq![' '] + crate::text::trim(u)),
        _ => None,
    }
}

/// A file size such as `File Size: 1.2 GBs`, as its number and unit.
pub fn capture_file_size(hay: &str) -> (r: Option<String>)
    ensures
        opt_string_view(r) == spec_capture_file_size(hay@),
{
    let pattern = "(?is)File Size:\\s*(?:<[^>]+>)?\\s*([0-9.]+)\\s*(?:</[^>]+>)?\\s*([A-Za-z]+)";
    assert(pattern@ == file_size_pattern());
    let caps = regex_captures(pattern, hay);
    let n = group_exec(&caps, 1);
    let u = group_exec(&caps, 2);
    match (n, u) {
        (Some(n), Some(u)) => {
            let mut v = crate::text::trim_chars(n.as_slice());
            v.push(' ');
            let ut = crate::text::trim_chars(u.as_slice());
            extend_chars(&mut v, ut.as_slice());
            Some(chars_to_string(v.as_slice()))
        },
        _ => None,
    }
}

} // verus!

verus! {

// ---------------------------------------------------------------------------
// Pages of results
// ---------------------------------------------------------------------------

/// The site lists about nine posts per page.
pub const ABB_PAGE_SIZE: usize = 9;

pub open spec fn page_pattern() -> Seq<char> {
    "/page/(\\d+)/"@
}

/// Some `/page/N/` link names a page after the current one.
pub open spec fn links_later_page(caps: Seq<Seq<Option<Seq<char>>>>, current: u32) -> bool {
    exists|i: int|
        0 <= i < caps.len() && match group(Some(#[trigger] caps[i]), 1) {
            Some(g) => match crate::text::spec_parse_u32(g) {
                Some(n) => n > current,
                None => false,
            },
            None => false,
        }
}

pub open spec fn spec_detect_has_more(html: Seq<char>, current: u32) -> bool {
    links_later_page(spec_regex_captures_all(page_pattern(), html), current) || contains(
        html,
        "/page/"@ + crate::text::decimal((current + 1) as nat) + "/"@,
    )
}

/// A listing page has a next page when it links a `/page/N/` beyond the
/// current one, or the page right after it.
pub fn detect_has_more(html: &str, current_page: u32) -> (r: bool)
    requires
        current_page < u32::MAX,
    ensures
        r == spec_detect_has_more(html@, current_page),
{
    let next = current_page + 1;
    let pattern = "/page/(\\d+)/";
    assert(pattern@ == page_pattern());
    let caps = regex_captures_all(pattern, html);
    let ghost cv = all_groups_view(caps@);
    let mut i: usize = 0;
    while i < caps.len()
        invariant
            i <= caps.len(),
            cv == all_groups_view(caps@),
            cv == spec_regex_captures_all(page_pattern(), html@),
            !links_later_page(cv.take(i as int), current_page),
        decreases caps.len() - i,
    {
        let g = group_exec(&Some(copy_groups(&caps[i])), 1);
        assert(cv[i as int] == groups_view(caps@[i as int]@));
        let found = match g {
            Some(text) => match crate::text::parse_u32(text.as_slice()) {
                Some(n) => n > current_page,
                None => false,
            },
            None => false,
        };
        if found {
            assert(links_later_page(cv, current_page)) by {
                assert(0 <= i < cv.len());
            }
            return true;
        }
        assert(!links_later_page(cv.take(i + 1), current_page)) by {
            if links_later_page(cv.take(i + 1), current_page) {
                let k = choose|k: int|
                    0 <= k < cv.take(i + 1).len() && match group(Some(#[trigger] cv.take(i + 1)[k]), 1) {
                        Some(g) => match crate::text::spec_parse_u32(g) {
                            Some(n) => n > current_page,
                            None => false,
                        },
                        None => false,
                    };
                if k < i {
                    assert(cv.take(i as int)[k] == cv.take(i + 1)[k]);
                }
            }
        }
        i += 1;
    }
    assert(cv.take(caps.len() as int) =~= cv);
    let mut want = str_chars("/page/");
    extend_chars(&mut want, crate::text::u64_decimal(next as u64).as_slice());
    extend_chars(&mut want, str_chars("/").as_slice());
    let h = str_chars(html);
    contains_exec(h.as_slice(), want.as_slice())
}

fn copy_groups(v: &Vec<Option<String>>) -> (r: Vec<Option<String>>)
    ensures
        groups_view(r@) == groups_view(v@),
{
    let mut r: Vec<Option<String>> = Vec::new();
    let mut i: usize = 0;
    while i < v.len()
        invariant
            i <= v.len(),
            groups_view(r@) == groups_view(v@.take(i as int)),
        decreases v.len() - i,
    {
        let o: Option<String> = match &v[i] {
            Some(s) => Some(s.as_str().to_owned()),
            None => None,
        };
        assert(opt_string_view(o) == opt_string_view(v@[i as int]));
        let ghost before = r@;
        r.push(o);
        assert(groups_view(r@) =~= groups_view(before).push(opt_string_view(v@[i as int])));
        assert(groups_view(v@.take(i + 1)) =~= groups_view(v@.take(i as int)).push(opt_string_view(v@[i as int])));
        i += 1;
    }
    assert(v@.take(v.len() as int) =~= v@);
    r
}

/// A page number, at least 1.
pub fn effective_page(page: u32) -> (r: u32)
    ensures
        r == (if page < 1 {
            1
        } else {
            page
        }),
{
    if page < 1 {
        1
    } else {
        page
    }
}

/// A feed page has more after it when it is full.
pub fn feed_has_more(count: usize) -> (r: bool)
    ensures
        r == (count >= ABB_PAGE_SIZE),
{
    count >= ABB_PAGE_SIZE
}

/// A listing page has more after it when it links a later page and is not
/// empty.
pub fn listing_has_more(detected: bool, count: usize) -> (r: bool)
    ensures
        r == (detected && count > 0),
{
    detected && count > 0
}

/// The latest feed falls back to the home page when its first page comes
/// back empty.
pub fn latest_needs_fallback(count: usize, page: u32) -> (r: bool)
    ensures
        r == (count == 0 && page == 1),
{
    count == 0 && page == 1
}

/// A search needs a query; it is trimmed.
pub fn search_query(query: &str) -> (r: Result<String, crate::error::AppError>)
    ensures
        crate::text::trim(query@).len() == 0 ==> crate::error::fails_bad(r, "Search query required"@),
        crate::text::trim(query@).len() > 0 ==> (r matches Ok(q) && q@ == crate::text::trim(query@)),
{
    let t = crate::text::trim_str(query);
    if t.len() == 0 {
        return Err(crate::error::bad_request("Search query required"));
    }
    Ok(chars_to_string(t.as_slice()))
}

impl AbbSearchPage {
    /// A page of the latest uploads.
    pub fn latest_page(results: Vec<AbbSearchResult>, page: u32) -> (r: AbbSearchPage)
        ensures
            r.results@ == results@,
            r.page == page,
            r.has_more == (results@.len() >= ABB_PAGE_SIZE),
            r.mirror@ == crate::abb::abb_mirror(),
            r.mode@ == "latest"@,
            r.query is None,
            r.category is None,
            r.category_label is None,
    {
        let n = results.len();
        AbbSearchPage {
            results,
            page,
            has_more: feed_has_more(n),
            mirror: chars_to_string(crate::lits::mk_mirror().as_slice()),
            mode: "latest".to_owned(),
            query: None,
            category: None,
            category_label: None,
        }
    }

    /// A page of a category listing; `has_more` as found on the page.
    pub fn category_page(results: Vec<AbbSearchResult>, page: u32, has_more: bool, slug: String, label: String) -> (r: AbbSearchPage)
        ensures
            r.results@ == results@,
            r.page == page,
            r.has_more == has_more,
            r.mirror@ == crate::abb::abb_mirror(),
            r.mode@ == "category"@,
            r.query is None,
            r.category == Some(slug),
            r.category_label == Some(label),
    {
        AbbSearchPage {
            results,
            page,
            has_more,
            mirror: chars_to_string(crate::lits::mk_mirror().as_slice()),
            mode: "category".to_owned(),
            query: None,
            category: Some(slug),
            category_label: Some(label),
        }
    }

    /// A page of search results for `query`.
    pub fn search_page(results: Vec<AbbSearchResult>, page: u32, has_more: bool, query: String) -> (r: AbbSearchPage)
        ensures
            r.results@ == results@,
            r.page == page,
            r.has_more == has_more,
            r.mirror@ == crate::abb::abb_mirror(),
            r.mode@ == "search"@,
            r.query == Some(query),
            r.category is None,
            r.category_label is None,
    {
        AbbSearchPage {
            results,
            page,
            has_more,
            mirror: chars_to_string(crate::lits::mk_mirror().as_slice()),
            mode: "search".to_owned(),
            query: Some(query),
            category: None,
            category_label: None,
        }
    }
}

} // verus!

verus! {

// ---------------------------------------------------------------------------
// RSS feeds
// ---------------------------------------------------------------------------

/// A result as plain values.
pub struct ResultModel {
    pub title: Seq<char>,
    pub url: Seq<char>,
    pub cover_url: Option<Seq<char>>,
    pub info: Option<Seq<char>>,
    pub author: Option<Seq<char>>,
    pub language: Option<Seq<char>>,
    pub format: Option<Seq<char>>,
    pub bitrate: Option<Seq<char>>,
    pub size: Option<Seq<char>>,
    pub posted: Option<Seq<char>>,
    pub category: Option<Seq<char>>,
}

pub open spec fn result_model(r: AbbSearchResult) -> ResultModel {
    ResultModel {
        title: r.title@,
        url: r.url@,
        cover_url: opt_string_view(r.cover_url),
        info: opt_string_view(r.info),
        author: opt_string_view(r.author),
        language: opt_string_view(r.language),
        format: opt_string_view(r.format),
        bitrate: opt_string_view(r.bitrate),
        size: opt_string_view(r.size),
        posted: opt_string_view(r.posted),
        category: opt_string_view(r.category),
    }
}

pub open spec fn results_model(v: Seq<AbbSearchResult>) -> Seq<ResultModel> {
    v.map_values(|r: AbbSearchResult| result_model(r))
}

pub open spec fn or_blank(o: Option<Seq<char>>) -> Seq<char> {
    match o {
        Some(s) => s,
        None => Seq::empty(),
    }
}

pub open spec fn is_language(s: Seq<char>) -> bool {
    let l = lower_seq(s);
    l == "english"@ || l == "german"@ || l == "french"@ || l == "spanish"@ || l == "italian"@
        || l == "russian"@ || l == "chinese"@ || l == "japanese"@ || l == "portuguese"@ || l
        == "dutch"@
}

fn is_language_exec(s: &[char]) -> (r: bool)
    ensures
        r == is_language(s@),
{
    let l = to_ascii_lower(s);
    let ls = l.as_slice();
    crate::text::chars_eq(ls, str_chars("english").as_slice()) || crate::text::chars_eq(ls, str_chars("german").as_slice())
        || crate::text::chars_eq(ls, str_chars("french").as_slice()) || crate::text::chars_eq(ls, str_chars("spanish").as_slice())
        || crate::text::chars_eq(ls, str_chars("italian").as_slice()) || crate::text::chars_eq(ls, str_chars("russian").as_slice())
        || crate::text::chars_eq(ls, str_chars("chinese").as_slice()) || crate::text::chars_eq(ls, str_chars("japanese").as_slice())
        || crate::text::chars_eq(ls, str_chars("portuguese").as_slice()) || crate::text::chars_eq(ls, str_chars("dutch").as_slice())
}

/// The cleaned texts of an item's categories.
pub open spec fn category_texts(caps: Seq<Seq<Option<Seq<char>>>>) -> Seq<Seq<char>> {
    caps.map_values(|c: Seq<Option<Seq<char>>>| spec_clean_text(spec_strip_cdata(or_blank(group(Some(c), 1)))))
}

/// The first category that names a language.
pub open spec fn first_language(cats: Seq<Seq<char>>) -> Option<Seq<char>>
    decreases cats.len(),
{
    if cats.len() == 0 {
        None
    } else if is_language(cats[0]) {
        Some(cats[0])
    } else {
        first_language(cats.drop_first())
    }
}

/// The first category that is neither blank nor a language.
pub open spec fn first_genre(cats: Seq<Seq<char>>) -> Option<Seq<char>>
    decreases cats.len(),
{
    if cats.len() == 0 {
        None
    } else if !is_language(cats[0]) && lower_seq(cats[0]).len() > 0 {
        Some(cats[0])
    } else {
        first_genre(cats.drop_first())
    }
}

pub open spec fn push_some(v: Seq<Seq<char>>, o: Option<Seq<char>>) -> Seq<Seq<char>> {
    match o {
        Some(s) => v.push(s),
        None => v,
    }
}

/// Texts joined with ` · `.
pub open spec fn join_dot(v: Seq<Seq<char>>) -> Seq<char>
    decreases v.len(),
{
    if v.len() == 0 {
        Seq::empty()
    } else if v.len() == 1 {
        v[0]
    } else {
        join_dot(v.drop_last()) + " \u{b7} "@ + v.last()
    }
}

/// The short information line: format, bitrate, size and posting date, as
/// far as known.
pub open spec fn info_line(bits: Seq<Seq<char>>) -> Option<Seq<char>> {
    if bits.len() == 0 {
        None
    } else {
        Some(join_dot(bits))
    }
}

pub open spec fn rss_title_pattern() -> Seq<char> { "(?is)<title>(.*?)</title>"@ }
pub open spec fn rss_link_pattern() -> Seq<char> { "(?is)<link>(.*?)</link>"@ }
pub open spec fn rss_thumb_pattern() -> Seq<char> { "(?is)<media:thumbnail[^>]+url=[\"']([^\"']+)[\"']"@ }
pub open spec fn rss_img_pattern() -> Seq<char> { "(?is)<img[^>]+src=[\"']([^\"']+)[\"']"@ }
pub open spec fn rss_desc_pattern() -> Seq<char> { "(?is)<description>(.*?)</description>"@ }
pub open spec fn rss_pub_pattern() -> Seq<char> { "(?is)<pubDate>(.*?)</pubDate>"@ }
pub open spec fn rss_cat_pattern() -> Seq<char> { "(?is)<category[^>]*>(.*?)</category>"@ }
pub open spec fn rss_item_pattern() -> Seq<char> { "(?is)<item>(.*?)</item>"@ }
pub open spec fn rss_format_pattern() -> Seq<char> { "(?is)Format:\\s*([A-Za-z0-9]+)"@ }
pub open spec fn rss_bitrate_pattern() -> Seq<char> { "(?is)Bitrate:\\s*([^<\\n]+)"@ }
pub open spec fn written_by_pattern() -> Seq<char> { "(?is)Written by\\s+([^<\\n]+)"@ }

/// The cover of a feed item: the media thumbnail of the item (else of its
/// description), else the first image of the description; made absolute.
pub open spec fn rss_cover(item: Seq<char>, desc: Seq<char>, base: Seq<char>) -> Option<Seq<char>> {
    let thumb = match spec_regex_captures(rss_thumb_pattern(), item) {
        Some(c) => Some(c),
        None => spec_regex_captures(rss_thumb_pattern(), desc),
    };
    match group(thumb, 1) {
        Some(u) => Some(spec_absolutize(u, base)),
        None => match first_group(rss_img_pattern(), desc) {
            Some(u) => Some(spec_absolutize(u, base)),
            None => None,
        },
    }
}

/// One feed item as a result; none without a title or link, or for feed
/// and member links.
pub open spec fn spec_rss_item(item: Seq<char>, base: Seq<char>) -> Option<ResultModel> {
    let raw_title = match first_group(rss_title_pattern(), item) {
        Some(m) => spec_clean_text(spec_strip_cdata(m)),
        None => Seq::empty(),
    };
    let href = match first_group(rss_link_pattern(), item) {
        Some(m) => spec_clean_text(m),
        None => Seq::empty(),
    };
    if raw_title.len() == 0 || href.len() == 0 || contains(href, "/feed"@) || contains(
        href,
        "/member/"@,
    ) {
        None
    } else {
        let desc = match first_group(rss_desc_pattern(), item) {
            Some(m) => spec_html_entity_decode(spec_strip_cdata(m)),
            None => Seq::empty(),
        };
        let format = spec_capture_labeled(desc, rss_format_pattern());
        let bitrate = spec_capture_labeled(desc, rss_bitrate_pattern());
        let split = spec_split_title_author(raw_title);
        let author = match spec_capture_labeled(desc, written_by_pattern()) {
            Some(a) => Some(a),
            None => split.1,
        };
        let posted = match first_group(rss_pub_pattern(), item) {
            Some(m) => spec_short_rfc2822(spec_clean_text(m)),
            None => None,
        };
        let cats = category_texts(spec_regex_captures_all(rss_cat_pattern(), item));
        let bits = push_some(
            push_some(
                push_some(Seq::empty(), format),
                match bitrate {
                    Some(b) => Some(spec_clean_text(b)),
                    None => None,
                },
            ),
            match posted {
                Some(p) => Some("Posted "@ + p),
                None => None,
            },
        );
        Some(
            ResultModel {
                title: split.0,
                url: spec_absolutize(href, base),
                cover_url: rss_cover(item, desc, base),
                info: info_line(bits),
                author,
                language: first_language(cats),
                format: match format {
                    Some(f) => Some(spec_clean_text(f)),
                    None => None,
                },
                bitrate: match bitrate {
                    Some(b) => Some(spec_clean_text(b)),
                    None => None,
                },
                size: None,
                posted,
                category: first_genre(cats),
            },
        )
    }
}

/// The results of a feed, in order.
pub open spec fn spec_rss_results(caps: Seq<Seq<Option<Seq<char>>>>, base: Seq<char>) -> Seq<ResultModel>
    decreases caps.len(),
{
    if caps.len() == 0 {
        Seq::empty()
    } else {
        let rest = spec_rss_results(caps.drop_last(), base);
        match spec_rss_item(or_blank(group(Some(caps.last()), 1)), base) {
            Some(m) => rest.push(m),
            None => rest,
        }
    }
}

} // verus!

verus! {

fn opt_chars_string(o: Option<Vec<char>>) -> (r: Option<String>)
    ensures
        opt_string_view(r) == match o {
            Some(v) => Some(v@),
            None => None,
        },
{
    match o {
        Some(v) => Some(chars_to_string(v.as_slice())),
        None => None,
    }
}

fn first_language_exec(cats: &[Vec<char>]) -> (r: Option<Vec<char>>)
    ensures
        match first_language(crate::abb::vv_view(cats@)) {
            Some(s) => r is Some && r->0@ == s,
            None => r is None,
        },
{
    let ghost cv = crate::abb::vv_view(cats@);
    assert(cv.skip(0) =~= cv);
    let mut i: usize = 0;
    while i < cats.len()
        invariant
            i <= cats.len(),
            cv == crate::abb::vv_view(cats@),
            first_language(cv) == first_language(cv.skip(i as int)),
        decreases cats.len() - i,
    {
        assert(cv.skip(i as int)[0] == cats@[i as int]@);
        assert(cv.skip(i as int).drop_first() =~= cv.skip(i + 1));
        if is_language_exec(cats[i].as_slice()) {
            return Some(crate::text::copy_chars(cats[i].as_slice()));
        }
        i += 1;
    }
    None
}

fn first_genre_exec(cats: &[Vec<char>]) -> (r: Option<Vec<char>>)
    ensures
        match first_genre(crate::abb::vv_view(cats@)) {
            Some(s) => r is Some && r->0@ == s,
            None => r is None,
        },
{
    let ghost cv = crate::abb::vv_view(cats@);
    assert(cv.skip(0) =~= cv);
    let mut i: usize = 0;
    while i < cats.len()
        invariant
            i <= cats.len(),
            cv == crate::abb::vv_view(cats@),
            first_genre(cv) == first_genre(cv.skip(i as int)),
        decreases cats.len() - i,
    {
        assert(cv.skip(i as int)[0] == cats@[i as int]@);
        assert(cv.skip(i as int).drop_first() =~= cv.skip(i + 1));
        let l = to_ascii_lower(cats[i].as_slice());
        if !is_language_exec(cats[i].as_slice()) && l.len() > 0 {
            return Some(crate::text::copy_chars(cats[i].as_slice()));
        }
        i += 1;
    }
    None
}

fn info_line_exec(bits: &[Vec<char>]) -> (r: Option<String>)
    ensures
        opt_string_view(r) == info_line(crate::abb::vv_view(bits@)),
{
    if bits.len() == 0 {
        return None;
    }
    let ghost bv = crate::abb::vv_view(bits@);
    let mut out = crate::text::copy_chars(bits[0].as_slice());
    assert(bv.take(1).drop_last() =~= Seq::<Seq<char>>::empty());
    let mut i: usize = 1;
    while i < bits.len()
        invariant
            1 <= i <= bits.len(),
            bv == crate::abb::vv_view(bits@),
            out@ == join_dot(bv.take(i as int)),
        decreases bits.len() - i,
    {
        assert(bv.take(i + 1).drop_last() =~= bv.take(i as int));
        extend_chars(&mut out, str_chars(" \u{b7} ").as_slice());
        extend_chars(&mut out, bits[i].as_slice());
        i += 1;
    }
    assert(bv.take(bits.len() as int) =~= bv);
    Some(chars_to_string(out.as_slice()))
}

fn category_texts_exec(caps: &Vec<Vec<Option<String>>>) -> (r: Vec<Vec<char>>)
    ensures
        crate::abb::vv_view(r@) == category_texts(all_groups_view(caps@)),
{
    let ghost cv = all_groups_view(caps@);
    let mut r: Vec<Vec<char>> = Vec::new();
    let mut i: usize = 0;
    while i < caps.len()
        invariant
            i <= caps.len(),
            cv == all_groups_view(caps@),
            crate::abb::vv_view(r@) == category_texts(cv.take(i as int)),
        decreases caps.len() - i,
    {
        assert(cv[i as int] == groups_view(caps@[i as int]@));
        let g = group_exec(&Some(copy_groups(&caps[i])), 1);
        let raw: Vec<char> = match g {
            Some(t) => t,
            None => Vec::new(),
        };
        assert(raw@ == or_blank(group(Some(cv[i as int]), 1)));
        let t = clean_text(strip_cdata(raw.as_slice()).as_slice());
        let ghost before = crate::abb::vv_view(r@);
        r.push(t);
        assert(crate::abb::vv_view(r@) =~= before.push(t@));
        assert(category_texts(cv.take(i + 1)) =~= category_texts(cv.take(i as int)).push(t@));
        i += 1;
    }
    assert(cv.take(caps.len() as int) =~= cv);
    r
}

fn rss_cover_exec(item: &str, desc: &[char], base: &[char]) -> (r: Option<String>)
    ensures
        opt_string_view(r) == rss_cover(item@, desc@, base@),
{
    let thumb_pat = "(?is)<media:thumbnail[^>]+url=[\"']([^\"']+)[\"']";
    let img_pat = "(?is)<img[^>]+src=[\"']([^\"']+)[\"']";
    assert(thumb_pat@ == rss_thumb_pattern());
    assert(img_pat@ == rss_img_pattern());
    let desc_s = chars_to_string(desc);
    let thumb = match regex_captures(thumb_pat, item) {
        Some(c) => Some(c),
        None => regex_captures(thumb_pat, desc_s.as_str()),
    };
    match group_exec(&thumb, 1) {
        Some(u) => Some(chars_to_string(absolutize(u.as_slice(), base).as_slice())),
        None => match first_group_exec(img_pat, desc_s.as_str()) {
            Some(u) => Some(chars_to_string(absolutize(u.as_slice(), base).as_slice())),
            None => None,
        },
    }
}

fn clean_opt(o: &Option<String>) -> (r: Option<String>)
    ensures
        opt_string_view(r) == match opt_string_view(*o) {
            Some(s) => Some(spec_clean_text(s)),
            None => None,
        },
{
    match o {
        Some(s) => Some(chars_to_string(clean_text(str_chars(s.as_str()).as_slice()).as_slice())),
        None => None,
    }
}

/// One feed item as a result (see `spec_rss_item`).
pub fn rss_item(item: &str, base: &str) -> (r: Option<AbbSearchResult>)
    ensures
        match spec_rss_item(item@, base@) {
            Some(m) => r matches Some(x) && result_model(x) == m,
            None => r is None,
        },
{
    let title_pat = "(?is)<title>(.*?)</title>";
    let link_pat = "(?is)<link>(.*?)</link>";
    let desc_pat = "(?is)<description>(.*?)</description>";
    let pub_pat = "(?is)<pubDate>(.*?)</pubDate>";
    let cat_pat = "(?is)<category[^>]*>(.*?)</category>";
    let format_pat = "(?is)Format:\\s*([A-Za-z0-9]+)";
    let bitrate_pat = "(?is)Bitrate:\\s*([^<\\n]+)";
    let written_pat = "(?is)Written by\\s+([^<\\n]+)";
    assert(title_pat@ == rss_title_pattern() && link_pat@ == rss_link_pattern() && desc_pat@
        == rss_desc_pattern() && pub_pat@ == rss_pub_pattern() && cat_pat@ == rss_cat_pattern()
        && format_pat@ == rss_format_pattern() && bitrate_pat@ == rss_bitrate_pattern()
        && written_pat@ == written_by_pattern());
    let base_c = str_chars(base);
    let raw_title: Vec<char> = match first_group_exec(title_pat, item) {
        Some(m) => clean_text(strip_cdata(m.as_slice()).as_slice()),
        None => Vec::new(),
    };
    let href: Vec<char> = match first_group_exec(link_pat, item) {
        Some(m) => clean_text(m.as_slice()),
        None => Vec::new(),
    };
    if raw_title.len() == 0 || href.len() == 0 || contains_exec(href.as_slice(), str_chars("/feed").as_slice())
        || contains_exec(href.as_slice(), str_chars("/member/").as_slice()) {
        return None;
    }
    let desc: Vec<char> = match first_group_exec(desc_pat, item) {
        Some(m) => html_entity_decode(strip_cdata(m.as_slice()).as_slice()),
        None => Vec::new(),
    };
    let desc_s = chars_to_string(desc.as_slice());
    let format = capture_labeled(desc_s.as_str(), format_pat);
    let bitrate = capture_labeled(desc_s.as_str(), bitrate_pat);
    let (parsed_title, author_from_title) = split_title_author(raw_title.as_slice());
    let author: Option<String> = match capture_labeled(desc_s.as_str(), written_pat) {
        Some(a) => Some(a),
        None => opt_chars_string(author_from_title),
    };
    let posted: Option<Vec<char>> = match first_group_exec(pub_pat, item) {
        Some(m) => short_rfc2822(clean_text(m.as_slice()).as_slice()),
        None => None,
    };
    let cat_caps = regex_captures_all(cat_pat, item);
    let cats = category_texts_exec(&cat_caps);
    let mut bits: Vec<Vec<char>> = Vec::new();
    match &format {
        Some(f) => {
            bits.push(str_chars(f.as_str()));
        },
        None => {},
    }
    let bitrate_clean = clean_opt(&bitrate);
    match &bitrate_clean {
        Some(b) => {
            bits.push(str_chars(b.as_str()));
        },
        None => {},
    }
    match &posted {
        Some(p) => {
            let mut v = str_chars("Posted ");
            extend_chars(&mut v, p.as_slice());
            bits.push(v);
        },
        None => {},
    }
    assert(crate::abb::vv_view(bits@) =~= push_some(
        push_some(push_some(Seq::empty(), opt_string_view(format)), opt_string_view(bitrate_clean)),
        match posted {
            Some(p) => Some("Posted "@ + p@),
            None => None,
        },
    ));
    let info = info_line_exec(bits.as_slice());
    let cover_url = rss_cover_exec(item, desc.as_slice(), base_c.as_slice());
    let language = opt_chars_string(first_language_exec(cats.as_slice()));
    let category = opt_chars_string(first_genre_exec(cats.as_slice()));
    let format_clean = clean_opt(&format);
    Some(
        AbbSearchResult {
            title: chars_to_string(parsed_title.as_slice()),
            url: chars_to_string(absolutize(href.as_slice(), base_c.as_slice()).as_slice()),
            cover_url,
            info,
            author,
            language,
            format: format_clean,
            bitrate: bitrate_clean,
            size: None,
            posted: opt_chars_string(posted),
            category,
        },
    )
}

/// The results of an RSS feed: each `<item>` that has a title and a link,
/// in order (see `spec_rss_item`).
pub fn parse_rss_feed(xml: &str, base: &str) -> (r: Vec<AbbSearchResult>)
    ensures
        results_model(r@) == spec_rss_results(
            spec_regex_captures_all(rss_item_pattern(), xml@),
            base@,
        ),
{
    let item_pat = "(?is)<item>(.*?)</item>";
    assert(item_pat@ == rss_item_pattern());
    let caps = regex_captures_all(item_pat, xml);
    let ghost cv = all_groups_view(caps@);
    let mut r: Vec<AbbSearchResult> = Vec::new();
    let mut i: usize = 0;
    while i < caps.len()
        invariant
            i <= caps.len(),
            cv == all_groups_view(caps@),
            results_model(r@) == spec_rss_results(cv.take(i as int), base@),
        decreases caps.len() - i,
    {
        assert(cv.take(i + 1).drop_last() =~= cv.take(i as int));
        assert(cv.take(i + 1).last() == groups_view(caps@[i as int]@));
        let g = group_exec(&Some(copy_groups(&caps[i])), 1);
        let item: Vec<char> = match g {
            Some(t) => t,
            None => Vec::new(),
        };
        let item_s = chars_to_string(item.as_slice());
        match rss_item(item_s.as_str(), base) {
            Some(x) => {
                let ghost before = results_model(r@);
                let ghost m = result_model(x);
                r.push(x);
                assert(results_model(r@) =~= before.push(m));
            },
            None => {},
        }
        i += 1;
    }
    assert(cv.take(caps.len() as int) =~= cv);
    r
}

} // verus!

verus! {

/// A search of AudiobookBay: the query and the page (1 by default).
#[derive(Debug, Clone)]
pub struct SearchQuery {
    pub q: String,
    pub page: Option<u32>,
}

/// Browsing AudiobookBay: the latest uploads, or a category when one is
/// given.
#[derive(Debug, Clone)]
pub struct BrowseQuery {
    pub page: Option<u32>,
    pub category: Option<String>,
}

/// A detail page to read, by URL or path.
#[derive(Debug, Clone)]
pub struct DetailsQuery {
    pub url: String,
}

/// The page asked for, 1 when none is.
pub fn requested_page(page: Option<u32>) -> (r: u32)
    ensures
        r == match page {
            Some(p) => p,
            None => 1,
        },
{
    match page {
        Some(p) => p,
        None => 1,
    }
}

impl BrowseQuery {
    /// The category browsed: the given slug trimmed, none when blank or
    /// absent.
    pub fn category_slug(&self) -> (r: Option<String>)
        ensures
            opt_string_view(r) == crate::libraries::given(opt_string_view(self.category)),
    {
        match &self.category {
            Some(c) => {
                let t = crate::text::trim_str(c.as_str());
                if t.len() > 0 {
                    Some(chars_to_string(t.as_slice()))
                } else {
                    None
                }
            },
            None => None,
        }
    }
}

} // verus!

verus! {

// ---------------------------------------------------------------------------
// HTML listings and detail pages
// ---------------------------------------------------------------------------

/// An element found in a page: its text (its text nodes, concatenated),
/// its outer HTML, and its `href`, `src` and `data-src` attributes.
#[derive(Debug, Clone)]
pub struct HtmlElement {
    pub text: String,
    pub html: String,
    pub href: Option<String>,
    pub src: Option<String>,
    pub data_src: Option<String>,
}

/// An element as plain values: text, outer HTML, `href`, `src`, `data-src`.
pub type ElementView = (Seq<char>, Seq<char>, Option<Seq<char>>, Option<Seq<char>>, Option<Seq<char>>);

pub open spec fn element_view(e: HtmlElement) -> ElementView {
    (e.text@, e.html@, opt_string_view(e.href), opt_string_view(e.src), opt_string_view(e.data_src))
}

pub open spec fn elements_view(v: Seq<HtmlElement>) -> Seq<ElementView> {
    v.map_values(|e: HtmlElement| element_view(e))
}

/// The elements of the page `html` that the CSS selector `css` matches, in
/// document order, as scraper finds them (none when the selector does not
/// parse).
pub uninterp spec fn spec_select_doc(html: Seq<char>, css: Seq<char>) -> Seq<ElementView>;

/// The elements matching `css` inside the `k`-th element matching `scope`
/// (none when there is no such element or a selector does not parse).
pub uninterp spec fn spec_select_in(html: Seq<char>, scope: Seq<char>, k: int, css: Seq<char>) -> Seq<ElementView>;

/// The elements matching `css` inside the `k2`-th element matching `inner`
/// inside the `k1`-th element matching `outer`.
pub uninterp spec fn spec_select_in2(
    html: Seq<char>,
    outer: Seq<char>,
    k1: int,
    inner: Seq<char>,
    k2: int,
    css: Seq<char>,
) -> Seq<ElementView>;

/// All text of the page `html`, as scraper reads it.
pub uninterp spec fn spec_page_text(html: Seq<char>) -> Seq<char>;

/// `scraper::Html::parse_document(html)` and `Html::select` with the
/// selector `css`: the matching elements in document order, each read as
/// an `HtmlElement`; the result is named by `spec_select_doc`.
#[verifier::external_body]
fn select_doc(html: &str, css: &str) -> (r: Vec<HtmlElement>)
    ensures
        elements_view(r@) == spec_select_doc(html@, css@),
{
    let (doc, Ok(sel)) = (Html::parse_document(html), Selector::parse(css)) else {
        return Vec::new();
    };
    doc.select(&sel).map(|e| HtmlElement { text: e.text().collect(), html: e.html(), href: e.attr("href").map(String::from), src: e.attr("src").map(String::from), data_src: e.attr("data-src").map(String::from) }).collect()
}

/// `scraper::Html::select` with `scope`, its `k`-th match, and
/// `ElementRef::select` with `css` inside it; the result is named by
/// `spec_select_in`.
#[verifier::external_body]
fn select_in(html: &str, scope: &str, k: usize, css: &str) -> (r: Vec<HtmlElement>)
    ensures
        elements_view(r@) == spec_select_in(html@, scope@, k as int, css@),
{
    let (doc, Ok(a), Ok(b)) = (Html::parse_document(html), Selector::parse(scope), Selector::parse(css)) else {
        return Vec::new();
    };
    let Some(scope) = doc.select(&a).nth(k) else {
        return Vec::new();
    };
    scope.select(&b).map(|e| HtmlElement { text: e.text().collect(), html: e.html(), href: e.attr("href").map(String::from), src: e.attr("src").map(String::from), data_src: e.attr("data-src").map(String::from) }).collect()
}

/// `scraper::Html::select` with `outer` (its `k1`-th match),
/// `ElementRef::select` with `inner` inside it (its `k2`-th match), and
/// `ElementRef::select` with `css` inside that; the result is named by
/// `spec_select_in2`.
#[verifier::external_body]
fn select_in2(html: &str, outer: &str, k1: usize, inner: &str, k2: usize, css: &str) -> (r: Vec<HtmlElement>)
    ensures
        elements_view(r@) == spec_select_in2(html@, outer@, k1 as int, inner@, k2 as int, css@),
{
    let (doc, Ok(a), Ok(b), Ok(c)) = (Html::parse_document(html), Selector::parse(outer), Selector::parse(inner), Selector::parse(css)) else {
        return Vec::new();
    };
    let Some(scope) = doc.select(&a).nth(k1).and_then(|e| e.select(&b).nth(k2)) else {
        return Vec::new();
    };
    scope.select(&c).map(|e| HtmlElement { text: e.text().collect(), html: e.html(), href: e.attr("href").map(String::from), src: e.attr("src").map(String::from), data_src: e.attr("data-src").map(String::from) }).collect()
}

/// `scraper::Html::parse_document(html)`, its root element and that
/// element's `text`: all text of the page, named by `spec_page_text`.
#[verifier::external_body]
fn page_text(html: &str) -> (r: String)
    ensures
        r@ == spec_page_text(html@),
{
    Html::parse_document(html).root_element().text().collect()
}

/// What a listing shows of one post.
#[derive(Debug, Clone)]
pub struct ListingPost {
    /// Text of the post's title link; `None` without one.
    pub link_text: Option<String>,
    /// The title link's `href`.
    pub href: Option<String>,
    /// The post's HTML.
    pub html: String,
    /// `src` and `data-src` of the post's first content image.
    pub img_src: Option<String>,
    pub img_data_src: Option<String>,
    /// Text of the post's info box.
    pub info_text: Option<String>,
}

pub open spec fn listing_language_pattern() -> Seq<char> { "(?is)Language:\\s*([^<\\n]+)"@ }
pub open spec fn listing_category_pattern() -> Seq<char> { "(?is)Category:\\s*([^<\\n]+)"@ }
pub open spec fn listing_format_pattern() -> Seq<char> { "(?is)Format:\\s*(?:<[^>]+>)*\\s*([^<\\s/]+)"@ }
pub open spec fn listing_bitrate_pattern() -> Seq<char> { "(?is)Bitrate:\\s*(?:<[^>]+>)*\\s*([^<\\n]+)"@ }
pub open spec fn listing_posted_pattern() -> Seq<char> { "(?is)Posted:\\s*([^<\\n]+)"@ }

pub open spec fn clean_some(o: Option<Seq<char>>) -> Option<Seq<char>> {
    match o {
        Some(s) => Some(spec_clean_text(s)),
        None => None,
    }
}

/// One post of a listing as a result; none without a title or link, or for
/// feed, member and forum links.
pub open spec fn spec_listing_result(post: ListingPost, base: Seq<char>) -> Option<ResultModel> {
    match post.link_text {
        None => None,
        Some(link) => {
            let title = spec_clean_text(link@);
            let href = or_blank(opt_string_view(post.href));
            if title.len() == 0 || href.len() == 0 || contains(href, "/feed"@) || contains(
                href,
                "/member/"@,
            ) || contains(href, "/forum/"@) {
                None
            } else {
                let html = post.html@;
                let img = match opt_string_view(post.img_src) {
                    Some(s) => Some(s),
                    None => opt_string_view(post.img_data_src),
                };
                let info_blob = match opt_string_view(post.info_text) {
                    Some(t) => if spec_clean_text(t).len() > 0 {
                        Some(spec_clean_text(t))
                    } else {
                        None
                    },
                    None => None,
                };
                let format = spec_capture_labeled(html, listing_format_pattern());
                let bitrate = spec_capture_labeled(html, listing_bitrate_pattern());
                let size = spec_capture_file_size(html);
                let posted = spec_capture_labeled(html, listing_posted_pattern());
                let split = spec_split_title_author(title);
                let bits = push_some(
                    push_some(push_some(push_some(Seq::empty(), format), bitrate), size),
                    match posted {
                        Some(p) => Some("Posted "@ + p),
                        None => None,
                    },
                );
                Some(
                    ResultModel {
                        title: split.0,
                        url: spec_absolutize(href, base),
                        cover_url: match img {
                            Some(s) => Some(spec_absolutize(s, base)),
                            None => None,
                        },
                        info: if bits.len() == 0 {
                            info_blob
                        } else {
                            Some(join_dot(bits))
                        },
                        author: split.1,
                        language: clean_some(spec_capture_labeled(html, listing_language_pattern())),
                        format: clean_some(format),
                        bitrate: clean_some(bitrate),
                        size: clean_some(size),
                        posted: clean_some(posted),
                        category: clean_some(spec_capture_labeled(html, listing_category_pattern())),
                    },
                )
            }
        },
    }
}

fn push_opt(bits: &mut Vec<Vec<char>>, o: &Option<String>)
    ensures
        crate::abb::vv_view(final(bits)@) == push_some(crate::abb::vv_view(old(bits)@), opt_string_view(*o)),
{
    match o {
        Some(s) => {
            let ghost before = crate::abb::vv_view(bits@);
            let v = str_chars(s.as_str());
            bits.push(v);
            assert(crate::abb::vv_view(bits@) =~= before.push(s@));
        },
        None => {},
    }
}

/// One post of a listing as a result (see `spec_listing_result`).
#[verifier::rlimit(60)]
#[verifier::spinoff_prover]
pub fn listing_result(post: &ListingPost, base: &str) -> (r: Option<AbbSearchResult>)
    ensures
        match spec_listing_result(*post, base@) {
            Some(m) => r matches Some(x) && result_model(x) == m,
            None => r is None,
        },
{
    let link = match &post.link_text {
        Some(l) => l,
        None => {
            return None;
        },
    };
    let title = clean_text(str_chars(link.as_str()).as_slice());
    let href: Vec<char> = match &post.href {
        Some(h) => str_chars(h.as_str()),
        None => Vec::new(),
    };
    if title.len() == 0 || href.len() == 0 || contains_exec(href.as_slice(), str_chars("/feed").as_slice())
        || contains_exec(href.as_slice(), str_chars("/member/").as_slice()) || contains_exec(
        href.as_slice(),
        str_chars("/forum/").as_slice(),
    ) {
        return None;
    }
    let base_c = str_chars(base);
    let html = post.html.as_str();
    let language_pat = "(?is)Language:\\s*([^<\\n]+)";
    let category_pat = "(?is)Category:\\s*([^<\\n]+)";
    let format_pat = "(?is)Format:\\s*(?:<[^>]+>)*\\s*([^<\\s/]+)";
    let bitrate_pat = "(?is)Bitrate:\\s*(?:<[^>]+>)*\\s*([^<\\n]+)";
    let posted_pat = "(?is)Posted:\\s*([^<\\n]+)";
    assert(language_pat@ == listing_language_pattern() && category_pat@ == listing_category_pattern()
        && format_pat@ == listing_format_pattern() && bitrate_pat@ == listing_bitrate_pattern()
        && posted_pat@ == listing_posted_pattern());
    let cover_url: Option<String> = match &post.img_src {
        Some(s) => Some(chars_to_string(absolutize(str_chars(s.as_str()).as_slice(), base_c.as_slice()).as_slice())),
        None => match &post.img_data_src {
            Some(s) => Some(chars_to_string(absolutize(str_chars(s.as_str()).as_slice(), base_c.as_slice()).as_slice())),
            None => None,
        },
    };
    let info_blob: Option<String> = match &post.info_text {
        Some(t) => {
            let c = clean_text(str_chars(t.as_str()).as_slice());
            if c.len() > 0 {
                Some(chars_to_string(c.as_slice()))
            } else {
                None
            }
        },
        None => None,
    };
    let format = capture_labeled(html, format_pat);
    let bitrate = capture_labeled(html, bitrate_pat);
    let size = capture_file_size(html);
    let posted = capture_labeled(html, posted_pat);
    let (parsed_title, author) = split_title_author(title.as_slice());
    let mut bits: Vec<Vec<char>> = Vec::new();
    assert(crate::abb::vv_view(bits@) =~= Seq::<Seq<char>>::empty());
    push_opt(&mut bits, &format);
    push_opt(&mut bits, &bitrate);
    push_opt(&mut bits, &size);
    let ghost before = crate::abb::vv_view(bits@);
    assert(before == push_some(
        push_some(push_some(Seq::empty(), opt_string_view(format)), opt_string_view(bitrate)),
        opt_string_view(size),
    ));
    match &posted {
        Some(p) => {
            let mut v = str_chars("Posted ");
            extend_chars(&mut v, str_chars(p.as_str()).as_slice());
            bits.push(v);
            assert(crate::abb::vv_view(bits@) =~= before.push("Posted "@ + p@));
        },
        None => {},
    }
    let ghost spec_bits = push_some(
        before,
        match opt_string_view(posted) {
            Some(p) => Some("Posted "@ + p),
            None => None,
        },
    );
    assert(crate::abb::vv_view(bits@) == spec_bits);
    let info = if bits.len() == 0 {
        info_blob
    } else {
        info_line_exec(bits.as_slice())
    };
    assert(opt_string_view(info) == (if spec_bits.len() == 0 {
        opt_string_view(info_blob)
    } else {
        Some(join_dot(spec_bits))
    }));
    Some(
        AbbSearchResult {
            title: chars_to_string(parsed_title.as_slice()),
            url: chars_to_string(absolutize(href.as_slice(), base_c.as_slice()).as_slice()),
            cover_url,
            info,
            author: opt_chars_string(author),
            language: clean_opt(&capture_labeled(html, language_pat)),
            format: clean_opt(&format),
            bitrate: clean_opt(&bitrate),
            size: clean_opt(&size),
            posted: clean_opt(&posted),
            category: clean_opt(&capture_labeled(html, category_pat)),
        },
    )
}

pub open spec fn spec_listing_results(posts: Seq<ListingPost>, base: Seq<char>) -> Seq<ResultModel>
    decreases posts.len(),
{
    if posts.len() == 0 {
        Seq::empty()
    } else {
        let rest = spec_listing_results(posts.drop_last(), base);
        match spec_listing_result(posts.last(), base) {
            Some(m) => rest.push(m),
            None => rest,
        }
    }
}

/// Each labelled detail of a listing result is the text that follows its
/// own label in the post: the language after `Language:`, the category
/// after `Category:`, the format after `Format:`, the bitrate after
/// `Bitrate:` and the date after `Posted:`, each cleaned.
pub proof fn law_listing_labels_keep_their_fields(post: ListingPost, base: Seq<char>)
    ensures
        spec_listing_result(post, base) matches Some(r) ==> {
            &&& r.language == clean_some(spec_capture_labeled(post.html@, "(?is)Language:\\s*([^<\\n]+)"@))
            &&& r.category == clean_some(spec_capture_labeled(post.html@, "(?is)Category:\\s*([^<\\n]+)"@))
            &&& r.format == clean_some(
                spec_capture_labeled(post.html@, "(?is)Format:\\s*(?:<[^>]+>)*\\s*([^<\\s/]+)"@),
            )
            &&& r.bitrate == clean_some(
                spec_capture_labeled(post.html@, "(?is)Bitrate:\\s*(?:<[^>]+>)*\\s*([^<\\n]+)"@),
            )
            &&& r.posted == clean_some(spec_capture_labeled(post.html@, "(?is)Posted:\\s*([^<\\n]+)"@))
        },
{
}

/// The results of a listing's posts, in order.
pub fn listing_results(posts: &[ListingPost], base: &str) -> (r: Vec<AbbSearchResult>)
    ensures
        results_model(r@) == spec_listing_results(posts@, base@),
{
    let mut r: Vec<AbbSearchResult> = Vec::new();
    let mut i: usize = 0;
    while i < posts.len()
        invariant
            i <= posts.len(),
            results_model(r@) == spec_listing_results(posts@.take(i as int), base@),
        decreases posts.len() - i,
    {
        assert(posts@.take(i + 1).drop_last() =~= posts@.take(i as int));
        assert(posts@.take(i + 1).last() == posts@[i as int]);
        match listing_result(&posts[i], base) {
            Some(x) => {
                let ghost before = results_model(r@);
                let ghost m = result_model(x);
                r.push(x);
                assert(results_model(r@) =~= before.push(m));
            },
            None => {},
        }
        i += 1;
    }
    assert(posts@.take(posts.len() as int) =~= posts@);
    r
}

/// What a listing shows of one post, as plain values: link text, `href`,
/// HTML, image `src`, image `data-src`, info text.
pub type PostView = (
    Option<Seq<char>>,
    Option<Seq<char>>,
    Seq<char>,
    Option<Seq<char>>,
    Option<Seq<char>>,
    Option<Seq<char>>,
);

pub open spec fn post_view(p: ListingPost) -> PostView {
    (
        opt_string_view(p.link_text),
        opt_string_view(p.href),
        p.html@,
        opt_string_view(p.img_src),
        opt_string_view(p.img_data_src),
        opt_string_view(p.info_text),
    )
}

pub open spec fn posts_view(v: Seq<ListingPost>) -> Seq<PostView> {
    v.map_values(|p: ListingPost| post_view(p))
}

/// The text of the first element, if any.
pub open spec fn first_text(es: Seq<ElementView>) -> Option<Seq<char>> {
    if es.len() > 0 {
        Some(es[0].0)
    } else {
        None
    }
}

/// An attribute of the first element, if any (0: `href`, 1: `src`,
/// 2: `data-src`).
pub open spec fn first_attr(es: Seq<ElementView>, which: int) -> Option<Seq<char>> {
    if es.len() > 0 {
        if which == 0 {
            es[0].2
        } else if which == 1 {
            es[0].3
        } else {
            es[0].4
        }
    } else {
        None
    }
}

pub open spec fn post_links(html: Seq<char>, i: int) -> Seq<ElementView> {
    spec_select_in2(html, "#content"@, 0, "div.post"@, i, "div.postTitle h2 a, .postTitle h2 a"@)
}

pub open spec fn post_images(html: Seq<char>, i: int) -> Seq<ElementView> {
    spec_select_in2(html, "#content"@, 0, "div.post"@, i, "div.postContent img"@)
}

pub open spec fn post_infos(html: Seq<char>, i: int) -> Seq<ElementView> {
    spec_select_in2(html, "#content"@, 0, "div.post"@, i, "div.postInfo, .postInfo"@)
}

/// The `i`-th post of a listing: its first title link (text and `href`),
/// its HTML, its first content image (`src`, `data-src`) and its first
/// info box (text).
pub open spec fn spec_post(html: Seq<char>, posts: Seq<ElementView>, i: int) -> PostView {
    (
        first_text(post_links(html, i)),
        first_attr(post_links(html, i), 0),
        posts[i].1,
        first_attr(post_images(html, i), 1),
        first_attr(post_images(html, i), 2),
        first_text(post_infos(html, i)),
    )
}

/// The posts of a listing page: none without a `#content` column, else
/// one for each `div.post` inside the first one.
pub open spec fn spec_listing_posts(html: Seq<char>) -> Seq<PostView> {
    if spec_select_doc(html, "#content"@).len() == 0 {
        Seq::empty()
    } else {
        let posts = spec_select_in(html, "#content"@, 0, "div.post"@);
        Seq::new(posts.len(), |i: int| spec_post(html, posts, i))
    }
}

fn first_text_exec(es: &Vec<HtmlElement>) -> (r: Option<String>)
    ensures
        opt_string_view(r) == first_text(elements_view(es@)),
{
    if es.len() > 0 {
        Some(es[0].text.clone())
    } else {
        None
    }
}

fn first_attr_exec(es: &Vec<HtmlElement>, which: u8) -> (r: Option<String>)
    ensures
        opt_string_view(r) == first_attr(elements_view(es@), which as int),
{
    if es.len() > 0 {
        if which == 0 {
            es[0].href.clone()
        } else if which == 1 {
            es[0].src.clone()
        } else {
            es[0].data_src.clone()
        }
    } else {
        None
    }
}

/// The posts of a listing page: each `div.post` of the main column
/// (`#content`), never the sidebar, with its title link (`div.postTitle
/// h2 a`), its first content image and its info box.
pub fn listing_posts(html: &str) -> (r: Vec<ListingPost>)
    ensures
        posts_view(r@) == spec_listing_posts(html@),
{
    let contents = select_doc(html, "#content");
    let mut out: Vec<ListingPost> = Vec::new();
    if contents.len() == 0 {
        assert(posts_view(out@) =~= spec_listing_posts(html@));
        return out;
    }
    let posts = select_in(html, "#content", 0, "div.post");
    let ghost pv = elements_view(posts@);
    let mut i: usize = 0;
    while i < posts.len()
        invariant
            i <= posts.len(),
            pv == elements_view(posts@),
            pv == spec_select_in(html@, "#content"@, 0, "div.post"@),
            posts_view(out@) =~= Seq::new(i as nat, |j: int| spec_post(html@, pv, j)),
        decreases posts.len() - i,
    {
        let links = select_in2(html, "#content", 0, "div.post", i, "div.postTitle h2 a, .postTitle h2 a");
        let imgs = select_in2(html, "#content", 0, "div.post", i, "div.postContent img");
        let infos = select_in2(html, "#content", 0, "div.post", i, "div.postInfo, .postInfo");
        let post = ListingPost {
            link_text: first_text_exec(&links),
            href: first_attr_exec(&links, 0),
            html: posts[i].html.clone(),
            img_src: first_attr_exec(&imgs, 1),
            img_data_src: first_attr_exec(&imgs, 2),
            info_text: first_text_exec(&infos),
        };
        assert(post_view(post) == spec_post(html@, pv, i as int));
        let ghost before = posts_view(out@);
        out.push(post);
        assert(posts_view(out@) =~= before.push(post_view(post)));
        i += 1;
    }
    assert(posts_view(out@) =~= spec_listing_posts(html@));
    out
}

/// The results of a listing page: its posts (see `listing_posts`) read by
/// `listing_results`. Which posts the page's HTML holds is left to the HTML
/// parser; the results are those of the posts it found.
pub fn parse_listing(html: &str, base: &str) -> (r: Vec<AbbSearchResult>)
    ensures
        exists|posts: Seq<ListingPost>|
            posts_view(posts) == spec_listing_posts(html@) && results_model(r@) == spec_listing_results(posts, base@),
{
    let posts = listing_posts(html);
    let r = listing_results(posts.as_slice(), base);
    assert(posts_view(posts@) == spec_listing_posts(html@) && results_model(r@) == spec_listing_results(posts@, base@));
    r
}

} // verus!

verus! {

// ---------------------------------------------------------------------------
// Detail pages
// ---------------------------------------------------------------------------

/// The text's lines (`str::lines`): split at `\n`, a final `\n` ending the
/// last line rather than starting an empty one, and a `\r` before a `\n`
/// dropped.
pub open spec fn text_lines(t: Seq<char>) -> Seq<Seq<char>> {
    let ps = pieces_of(t, '\n');
    let ps2 = if t.len() == 0 || t.last() == '\n' {
        ps.drop_last()
    } else {
        ps
    };
    ps2.map_values(|l: Seq<char>| if l.len() > 0 && l.last() == '\r' { l.drop_last() } else { l })
}

pub open spec fn pieces_of(s: Seq<char>, c: char) -> Seq<Seq<char>> {
    crate::metadata::pieces(s, c)
}

/// The runs of hexadecimal digits between other characters, empty runs
/// included.
pub open spec fn hex_runs(s: Seq<char>) -> Seq<Seq<char>>
    decreases s.len(),
{
    if s.len() == 0 {
        seq![Seq::empty()]
    } else {
        let p = hex_runs(s.drop_last());
        if !crate::text::is_ascii_hex(s.last()) {
            p.push(Seq::empty())
        } else {
            p.update(p.len() - 1, p.last().push(s.last()))
        }
    }
}

pub proof fn lemma_hex_runs_len(s: Seq<char>)
    ensures
        hex_runs(s).len() >= 1,
    decreases s.len(),
{
    if s.len() > 0 {
        lemma_hex_runs_len(s.drop_last());
    }
}

/// The first run that reads as an info hash.
pub open spec fn first_hash(runs: Seq<Seq<char>>) -> Option<Seq<char>>
    decreases runs.len(),
{
    if runs.len() == 0 {
        None
    } else {
        match crate::magnet::spec_normalize_info_hash(runs[0]) {
            Some(h) => Some(h),
            None => first_hash(runs.drop_first()),
        }
    }
}

pub open spec fn mentions_info_hash(line: Seq<char>) -> bool {
    contains(lower_seq(line), "info hash"@) || contains(lower_seq(line), "infohash"@)
}

/// The first hash found on a line that mentions an info hash.
pub open spec fn hash_in_lines(lines: Seq<Seq<char>>) -> Option<Seq<char>>
    decreases lines.len(),
{
    if lines.len() == 0 {
        None
    } else {
        let here = if mentions_info_hash(lines[0]) {
            first_hash(hex_runs(lines[0]))
        } else {
            None
        };
        match here {
            Some(h) => Some(h),
            None => hash_in_lines(lines.drop_first()),
        }
    }
}

pub open spec fn table_hash_pattern() -> Seq<char> {
    "(?is)info\\s*hash\\s*:?\\s*</t[dh]>\\s*<t[dh][^>]*>\\s*([a-f0-9]{40})\\s*</t[dh]>"@
}

pub open spec fn bare_hash_pattern() -> Seq<char> {
    "(?i)\\b([a-f0-9]{40})\\b"@
}

/// The info hash of a page: from an "Info Hash" table row, else from a
/// line mentioning an info hash, else any 40-digit hexadecimal word;
/// lower-cased.
pub open spec fn spec_extract_info_hash(text: Seq<char>) -> Option<Seq<char>> {
    match first_group(table_hash_pattern(), text) {
        Some(h) => Some(lower_seq(h)),
        None => match hash_in_lines(text_lines(text)) {
            Some(h) => Some(h),
            None => match first_group(bare_hash_pattern(), text) {
                Some(h) => Some(lower_seq(h)),
                None => None,
            },
        },
    }
}

fn hex_runs_exec(s: &[char]) -> (r: Vec<Vec<char>>)
    ensures
        crate::abb::vv_view(r@) == hex_runs(s@),
{
    let mut done: Vec<Vec<char>> = Vec::new();
    let mut cur: Vec<char> = Vec::new();
    let mut i: usize = 0;
    while i < s.len()
        invariant
            i <= s.len(),
            crate::abb::vv_view(done@).push(cur@) == hex_runs(s@.take(i as int)),
        decreases s.len() - i,
    {
        let ghost before = hex_runs(s@.take(i as int));
        assert(s@.take(i + 1).drop_last() =~= s@.take(i as int));
        proof {
            lemma_hex_runs_len(s@.take(i as int));
        }
        if !crate::text::char_is_ascii_hex(s[i]) {
            let mut old_cur: Vec<char> = Vec::new();
            std::mem::swap(&mut old_cur, &mut cur);
            done.push(old_cur);
            assert(crate::abb::vv_view(done@).push(cur@) =~= before.push(Seq::empty()));
        } else {
            cur.push(s[i]);
            assert(crate::abb::vv_view(done@).push(cur@) =~= before.update(
                before.len() - 1,
                before.last().push(s@[i as int]),
            ));
        }
        i += 1;
    }
    assert(s@.take(s.len() as int) =~= s@);
    done.push(cur);
    done
}

fn first_hash_exec(runs: &[Vec<char>]) -> (r: Option<Vec<char>>)
    ensures
        match first_hash(crate::abb::vv_view(runs@)) {
            Some(h) => r is Some && r->0@ == h,
            None => r is None,
        },
{
    let ghost rv = crate::abb::vv_view(runs@);
    assert(rv.skip(0) =~= rv);
    let mut i: usize = 0;
    while i < runs.len()
        invariant
            i <= runs.len(),
            rv == crate::abb::vv_view(runs@),
            first_hash(rv) == first_hash(rv.skip(i as int)),
        decreases runs.len() - i,
    {
        assert(rv.skip(i as int)[0] == runs@[i as int]@);
        assert(rv.skip(i as int).drop_first() =~= rv.skip(i + 1));
        match crate::magnet::normalize_info_hash_chars(runs[i].as_slice()) {
            Some(h) => {
                return Some(h);
            },
            None => {},
        }
        i += 1;
    }
    None
}

fn text_lines_exec(t: &[char]) -> (r: Vec<Vec<char>>)
    ensures
        crate::abb::vv_view(r@) == text_lines(t@),
{
    let ps = crate::content::split_on_char(t, '\n');
    let ghost pv = crate::abb::vv_view(ps@);
    proof {
        crate::metadata::lemma_pieces_len(t@, '\n');
    }
    let n: usize = if t.len() == 0 || t[t.len() - 1] == '\n' {
        ps.len() - 1
    } else {
        ps.len()
    };
    let ghost ps2 = if t@.len() == 0 || t@.last() == '\n' {
        pv.drop_last()
    } else {
        pv
    };
    assert(ps2 =~= pv.take(n as int));
    let mut r: Vec<Vec<char>> = Vec::new();
    let mut i: usize = 0;
    while i < n
        invariant
            i <= n <= ps.len(),
            pv == crate::abb::vv_view(ps@),
            ps2 == pv.take(n as int),
            crate::abb::vv_view(r@) == ps2.take(i as int).map_values(
                |l: Seq<char>| if l.len() > 0 && l.last() == '\r' { l.drop_last() } else { l },
            ),
        decreases n - i,
    {
        let l = &ps[i];
        let line: Vec<char> = if l.len() > 0 && l[l.len() - 1] == '\r' {
            crate::text::slice_chars(l.as_slice(), 0, l.len() - 1)
        } else {
            crate::text::copy_chars(l.as_slice())
        };
        let ghost before = crate::abb::vv_view(r@);
        assert(ps2[i as int] == l@);
        r.push(line);
        assert(crate::abb::vv_view(r@) =~= before.push(line@));
        assert(ps2.take(i + 1).map_values(
            |l: Seq<char>| if l.len() > 0 && l.last() == '\r' { l.drop_last() } else { l },
        ) =~= ps2.take(i as int).map_values(
            |l: Seq<char>| if l.len() > 0 && l.last() == '\r' { l.drop_last() } else { l },
        ).push(line@));
        i += 1;
    }
    assert(ps2.take(n as int) =~= ps2);
    r
}

/// The info hash of a page (see `spec_extract_info_hash`).
pub fn extract_info_hash(text: &str) -> (r: Option<String>)
    ensures
        opt_string_view(r) == spec_extract_info_hash(text@),
{
    let table_pat = "(?is)info\\s*hash\\s*:?\\s*</t[dh]>\\s*<t[dh][^>]*>\\s*([a-f0-9]{40})\\s*</t[dh]>";
    let bare_pat = "(?i)\\b([a-f0-9]{40})\\b";
    assert(table_pat@ == table_hash_pattern() && bare_pat@ == bare_hash_pattern());
    match first_group_exec(table_pat, text) {
        Some(h) => {
            return Some(chars_to_string(to_ascii_lower(h.as_slice()).as_slice()));
        },
        None => {},
    }
    let lines = text_lines_exec(str_chars(text).as_slice());
    let ghost lv = crate::abb::vv_view(lines@);
    assert(lv.skip(0) =~= lv);
    let mut i: usize = 0;
    while i < lines.len()
        invariant
            i <= lines.len(),
            lv == crate::abb::vv_view(lines@),
            lv == text_lines(text@),
            first_group(table_hash_pattern(), text@) is None,
            hash_in_lines(lv) == hash_in_lines(lv.skip(i as int)),
        decreases lines.len() - i,
    {
        assert(lv.skip(i as int)[0] == lines@[i as int]@);
        assert(lv.skip(i as int).drop_first() =~= lv.skip(i + 1));
        let lower = to_ascii_lower(lines[i].as_slice());
        if contains_exec(lower.as_slice(), str_chars("info hash").as_slice()) || contains_exec(
            lower.as_slice(),
            str_chars("infohash").as_slice(),
        ) {
            let runs = hex_runs_exec(lines[i].as_slice());
            match first_hash_exec(runs.as_slice()) {
                Some(h) => {
                    return Some(chars_to_string(h.as_slice()));
                },
                None => {},
            }
        }
        i += 1;
    }
    match first_group_exec(bare_pat, text) {
        Some(h) => Some(chars_to_string(to_ascii_lower(h.as_slice()).as_slice())),
        None => None,
    }
}

} // verus!

verus! {

/// `encode_utf8` of a concatenation is the concatenation of the encodings.
pub proof fn lemma_encode_utf8_concat(a: Seq<char>, b: Seq<char>)
    ensures
        vstd::utf8::encode_utf8(a + b) == vstd::utf8::encode_utf8(a) + vstd::utf8::encode_utf8(b),
    decreases a.len(),
{
    if a.len() > 0 {
        assert((a + b).drop_first() =~= a.drop_first() + b);
        assert((a + b)[0] == a[0]);
        lemma_encode_utf8_concat(a.drop_first(), b);
        assert(vstd::utf8::encode_utf8(a + b) =~= vstd::utf8::encode_utf8(a) + vstd::utf8::encode_utf8(b));
    } else {
        assert(a + b =~= b);
        assert(vstd::utf8::encode_utf8(a) =~= Seq::<u8>::empty());
        assert(vstd::utf8::encode_utf8(a) + vstd::utf8::encode_utf8(b) =~= vstd::utf8::encode_utf8(b));
    }
}

/// The longest prefix of `s` whose UTF-8 form has at most `n` bytes.
pub open spec fn fit_prefix(s: Seq<char>, n: nat) -> Seq<char>
    decreases s.len(),
{
    if vstd::utf8::encode_utf8(s).len() <= n || s.len() == 0 {
        s
    } else {
        fit_prefix(s.drop_last(), n)
    }
}

pub open spec fn byte_len_at(s: Seq<char>, k: int) -> nat {
    vstd::utf8::encode_utf8(s.take(k)).len()
}

pub proof fn lemma_byte_len_monotone(s: Seq<char>, j: int, k: int)
    requires
        0 <= j <= k <= s.len(),
    ensures
        byte_len_at(s, j) <= byte_len_at(s, k),
{
    assert(s.take(k) =~= s.take(j) + s.subrange(j, k));
    lemma_encode_utf8_concat(s.take(j), s.subrange(j, k));
}

pub proof fn lemma_fit_prefix(s: Seq<char>, n: nat, k: int, j: int)
    requires
        0 <= k <= j <= s.len(),
        byte_len_at(s, k) <= n,
        k == s.len() || byte_len_at(s, k + 1) > n,
    ensures
        fit_prefix(s.take(j), n) == s.take(k),
    decreases j - k,
{
    if j > k {
        lemma_byte_len_monotone(s, k + 1, j);
        assert(s.take(j).drop_last() =~= s.take(j - 1));
        lemma_fit_prefix(s, n, k, j - 1);
    }
}

/// A description is cut to its first 1197 bytes (at a character boundary)
/// and an ellipsis when it is longer than 1200 bytes.
pub open spec fn spec_cut_description(s: Seq<char>) -> Seq<char> {
    if vstd::utf8::encode_utf8(s).len() > 1200 {
        fit_prefix(s, 1197) + seq!['\u{2026}']
    } else {
        s
    }
}

pub fn cut_description(s: &[char]) -> (r: Vec<char>)
    ensures
        r@ == spec_cut_description(s@),
{
    let whole = chars_to_string(s);
    if whole.as_str().as_bytes().len() <= 1200 {
        return crate::text::copy_chars(s);
    }
    let mut acc = String::new();
    let mut k: usize = 0;
    assert(s@.take(0) =~= Seq::<char>::empty());
    assert(acc@ =~= s@.take(0));
    while k < s.len()
        invariant
            k <= s.len(),
            acc@ == s@.take(k as int),
            byte_len_at(s@, k as int) <= 1197,
        ensures
            k <= s.len(),
            acc@ == s@.take(k as int),
            byte_len_at(s@, k as int) <= 1197,
            k == s.len() || byte_len_at(s@, k + 1) > 1197,
        decreases s.len() - k,
    {
        let mut next = acc.clone();
        assert(next@ == acc@);
        crate::text::push_char(&mut next, s[k]);
        assert(next@ =~= s@.take(k + 1));
        if next.as_str().as_bytes().len() > 1197 {
            break;
        }
        acc = next;
        k += 1;
    }
    proof {
        assert(s@.take(s.len() as int) =~= s@);
        lemma_fit_prefix(s@, 1197, k as int, s.len() as int);
    }
    let mut out = str_chars(acc.as_str());
    out.push('\u{2026}');
    out
}

} // verus!

verus! {

/// What a detail page shows.
#[derive(Debug, Clone)]
pub struct DetailsPage {
    /// Text of the page's title heading.
    pub title_text: Option<String>,
    /// All text of the page.
    pub body_text: String,
    /// The first magnet link.
    pub magnet_href: Option<String>,
    /// `src` and `data-src` of the first content image.
    pub img_src: Option<String>,
    pub img_data_src: Option<String>,
    /// Text of the post's content.
    pub content_text: Option<String>,
}

pub open spec fn author_item_pattern() -> Seq<char> { "(?is)itemprop=\"author\"[^>]*>\\s*([^<]+)"@ }
pub open spec fn read_by_pattern() -> Seq<char> { "(?is)Read by\\s+([^<\\n]+)"@ }
pub open spec fn format_class_pattern() -> Seq<char> { "(?is)class=['\"]format['\"][^>]*>\\s*([^<]+)"@ }
pub open spec fn format_line_pattern() -> Seq<char> { "(?is)Format:\\s*([^<\\n]+)"@ }
pub open spec fn bitrate_class_pattern() -> Seq<char> { "(?is)class=['\"]bitrate['\"][^>]*>\\s*([^<]+)"@ }
pub open spec fn size_table_pattern() -> Seq<char> { "(?is)(?:Combined )?File Size:</t[dh]>\\s*<t[dh][^>]*>\\s*([^<]+)"@ }
pub open spec fn size_line_pattern() -> Seq<char> { "(?is)File Size:\\s*([^<\\n]+)"@ }

pub open spec fn or_else(a: Option<Seq<char>>, b: Option<Seq<char>>) -> Option<Seq<char>> {
    match a {
        Some(x) => Some(x),
        None => b,
    }
}

/// The model of a detail page.
pub struct DetailsModel {
    pub title: Seq<char>,
    pub url: Seq<char>,
    pub info_hash: Option<Seq<char>>,
    pub magnet_uri: Option<Seq<char>>,
    pub cover_url: Option<Seq<char>>,
    pub description: Option<Seq<char>>,
    pub author: Option<Seq<char>>,
    pub narrator: Option<Seq<char>>,
    pub format: Option<Seq<char>>,
    pub bitrate: Option<Seq<char>>,
    pub size: Option<Seq<char>>,
}

pub open spec fn details_model(d: AbbDetails) -> DetailsModel {
    DetailsModel {
        title: d.title@,
        url: d.url@,
        info_hash: opt_string_view(d.info_hash),
        magnet_uri: opt_string_view(d.magnet_uri),
        cover_url: opt_string_view(d.cover_url),
        description: opt_string_view(d.description),
        author: opt_string_view(d.author),
        narrator: opt_string_view(d.narrator),
        format: opt_string_view(d.format),
        bitrate: opt_string_view(d.bitrate),
        size: opt_string_view(d.size),
    }
}

/// A detail page read: title (and perhaps author) from its heading, the
/// info hash from the HTML or its text, the magnet link or one built from
/// the hash, the cover, the description (cut when long), and the labeled
/// fields, each with its fallback pattern.
pub open spec fn spec_details(page: DetailsPage, html: Seq<char>, page_url: Seq<char>, base: Seq<char>) -> DetailsModel {
    let raw_title = match opt_string_view(page.title_text) {
        Some(t) => if spec_clean_text(t).len() > 0 {
            spec_clean_text(t)
        } else {
            "AudiobookBay title"@
        },
        None => "AudiobookBay title"@,
    };
    let split = spec_split_title_author(raw_title);
    let info_hash = or_else(spec_extract_info_hash(html), spec_extract_info_hash(page.body_text@));
    let magnet = match opt_string_view(page.magnet_href) {
        Some(m) => Some(m),
        None => match info_hash {
            Some(h) => Some("magnet:?xt=urn:btih:"@ + h),
            None => None,
        },
    };
    let img = or_else(opt_string_view(page.img_src), opt_string_view(page.img_data_src));
    let description = match opt_string_view(page.content_text) {
        Some(t) => if spec_clean_text(t).len() > 0 {
            Some(spec_cut_description(spec_clean_text(t)))
        } else {
            None
        },
        None => None,
    };
    DetailsModel {
        title: split.0,
        url: page_url,
        info_hash,
        magnet_uri: magnet,
        cover_url: match img {
            Some(s) => Some(spec_absolutize(s, base)),
            None => None,
        },
        description,
        author: clean_some(
            or_else(
                or_else(spec_capture_labeled(html, author_item_pattern()), split.1),
                spec_capture_labeled(html, written_by_pattern()),
            ),
        ),
        narrator: clean_some(spec_capture_labeled(html, read_by_pattern())),
        format: clean_some(
            or_else(
                spec_capture_labeled(html, format_class_pattern()),
                spec_capture_labeled(html, format_line_pattern()),
            ),
        ),
        bitrate: clean_some(
            or_else(
                spec_capture_labeled(html, bitrate_class_pattern()),
                spec_capture_labeled(html, rss_bitrate_pattern()),
            ),
        ),
        size: clean_some(
            or_else(
                spec_capture_labeled(html, size_table_pattern()),
                spec_capture_labeled(html, size_line_pattern()),
            ),
        ),
    }
}

fn labeled_or(html: &str, first: &str, second: &str) -> (r: Option<String>)
    ensures
        opt_string_view(r) == or_else(spec_capture_labeled(html@, first@), spec_capture_labeled(html@, second@)),
{
    match capture_labeled(html, first) {
        Some(v) => Some(v),
        None => capture_labeled(html, second),
    }
}

/// A detail page read (see `spec_details`).
#[verifier::rlimit(60)]
#[verifier::spinoff_prover]
pub fn details_from_page(page: &DetailsPage, html: &str, page_url: &str, base: &str) -> (r: AbbDetails)
    ensures
        details_model(r) == spec_details(*page, html@, page_url@, base@),
{
    let author_pat = "(?is)itemprop=\"author\"[^>]*>\\s*([^<]+)";
    let written_pat = "(?is)Written by\\s+([^<\\n]+)";
    let read_pat = "(?is)Read by\\s+([^<\\n]+)";
    let fmt_class = "(?is)class=['\"]format['\"][^>]*>\\s*([^<]+)";
    let fmt_line = "(?is)Format:\\s*([^<\\n]+)";
    let br_class = "(?is)class=['\"]bitrate['\"][^>]*>\\s*([^<]+)";
    let br_line = "(?is)Bitrate:\\s*([^<\\n]+)";
    let size_table = "(?is)(?:Combined )?File Size:</t[dh]>\\s*<t[dh][^>]*>\\s*([^<]+)";
    let size_line = "(?is)File Size:\\s*([^<\\n]+)";
    assert(author_pat@ == author_item_pattern() && written_pat@ == written_by_pattern() && read_pat@
        == read_by_pattern() && fmt_class@ == format_class_pattern() && fmt_line@
        == format_line_pattern() && br_class@ == bitrate_class_pattern() && br_line@
        == rss_bitrate_pattern() && size_table@ == size_table_pattern() && size_line@
        == size_line_pattern());
    let raw_title: Vec<char> = match &page.title_text {
        Some(t) => {
            let c = clean_text(str_chars(t.as_str()).as_slice());
            if c.len() > 0 {
                c
            } else {
                str_chars("AudiobookBay title")
            }
        },
        None => str_chars("AudiobookBay title"),
    };
    let (title, author_from_title) = split_title_author(raw_title.as_slice());
    let info_hash: Option<String> = match extract_info_hash(html) {
        Some(h) => Some(h),
        None => extract_info_hash(page.body_text.as_str()),
    };
    let magnet_uri: Option<String> = match &page.magnet_href {
        Some(m) => Some(m.as_str().to_owned()),
        None => match &info_hash {
            Some(h) => {
                let mut v = str_chars("magnet:?xt=urn:btih:");
                extend_chars(&mut v, str_chars(h.as_str()).as_slice());
                Some(chars_to_string(v.as_slice()))
            },
            None => None,
        },
    };
    let base_c = str_chars(base);
    let img: Option<&String> = match &page.img_src {
        Some(s) => Some(s),
        None => match &page.img_data_src {
            Some(s) => Some(s),
            None => None,
        },
    };
    let cover_url: Option<String> = match img {
        Some(s) => Some(chars_to_string(absolutize(str_chars(s.as_str()).as_slice(), base_c.as_slice()).as_slice())),
        None => None,
    };
    let description: Option<String> = match &page.content_text {
        Some(t) => {
            let c = clean_text(str_chars(t.as_str()).as_slice());
            if c.len() > 0 {
                Some(chars_to_string(cut_description(c.as_slice()).as_slice()))
            } else {
                None
            }
        },
        None => None,
    };
    let author_first: Option<String> = match capture_labeled(html, author_pat) {
        Some(a) => Some(a),
        None => match author_from_title {
            Some(a) => Some(chars_to_string(a.as_slice())),
            None => capture_labeled(html, written_pat),
        },
    };
    AbbDetails {
        title: chars_to_string(title.as_slice()),
        url: page_url.to_owned(),
        info_hash,
        magnet_uri,
        cover_url,
        description,
        author: clean_opt(&author_first),
        narrator: clean_opt(&capture_labeled(html, read_pat)),
        format: clean_opt(&labeled_or(html, fmt_class, fmt_line)),
        bitrate: clean_opt(&labeled_or(html, br_class, br_line)),
        size: clean_opt(&labeled_or(html, size_table, size_line)),
    }
}

/// A detail page as plain values: title text, all text, magnet link, image
/// `src`, image `data-src`, content text.
pub type DetailsPageView = (
    Option<Seq<char>>,
    Seq<char>,
    Option<Seq<char>>,
    Option<Seq<char>>,
    Option<Seq<char>>,
    Option<Seq<char>>,
);

pub open spec fn details_page_view(p: DetailsPage) -> DetailsPageView {
    (
        opt_string_view(p.title_text),
        p.body_text@,
        opt_string_view(p.magnet_href),
        opt_string_view(p.img_src),
        opt_string_view(p.img_data_src),
        opt_string_view(p.content_text),
    )
}

pub open spec fn details_titles(html: Seq<char>) -> Seq<ElementView> {
    spec_select_doc(html, "div.postTitle h1, .postTitle h1, h1"@)
}

pub open spec fn details_magnets(html: Seq<char>) -> Seq<ElementView> {
    spec_select_doc(html, "a[href^=\"magnet:\"]"@)
}

pub open spec fn details_images(html: Seq<char>) -> Seq<ElementView> {
    spec_select_doc(html, "div.postContent img, .postContent img, .post img"@)
}

pub open spec fn details_contents(html: Seq<char>) -> Seq<ElementView> {
    spec_select_doc(html, "div.postContent"@)
}

/// What a detail page shows: the text of its first title heading, all its
/// text, the `href` of its first magnet link, `src` and `data-src` of its
/// first content image, and the text of its first post content.
pub open spec fn spec_details_page(html: Seq<char>) -> DetailsPageView {
    (
        first_text(details_titles(html)),
        spec_page_text(html),
        first_attr(details_magnets(html), 0),
        first_attr(details_images(html), 1),
        first_attr(details_images(html), 2),
        first_text(details_contents(html)),
    )
}

/// What a detail page shows (see `DetailsPage`), read from its HTML: the
/// title heading, all text, the first magnet link, the first content image
/// and the post content.
pub fn details_page_parts(html: &str) -> (r: DetailsPage)
    ensures
        details_page_view(r) == spec_details_page(html@),
{
    let titles = select_doc(html, "div.postTitle h1, .postTitle h1, h1");
    let magnets = select_doc(html, "a[href^=\"magnet:\"]");
    let imgs = select_doc(html, "div.postContent img, .postContent img, .post img");
    let contents = select_doc(html, "div.postContent");
    DetailsPage {
        title_text: first_text_exec(&titles),
        body_text: page_text(html),
        magnet_href: first_attr_exec(&magnets, 0),
        img_src: first_attr_exec(&imgs, 1),
        img_data_src: first_attr_exec(&imgs, 2),
        content_text: first_text_exec(&contents),
    }
}

/// A detail page read from its HTML (see `details_page_parts` and
/// `details_from_page`). What the page's elements hold is left to the HTML
/// parser; the details are read from them and from the HTML itself.
pub fn parse_details(html: &str, page_url: &str, base: &str) -> (r: Option<AbbDetails>)
    ensures
        r is Some,
        exists|page: DetailsPage|
            details_page_view(page) == spec_details_page(html@) && details_model(r->0) == spec_details(page, html@, page_url@, base@),
{
    let page = details_page_parts(html);
    let d = details_from_page(&page, html, page_url, base);
    assert(details_page_view(page) == spec_details_page(html@) && details_model(d) == spec_details(page, html@, page_url@, base@));
    Some(d)
}

} // verus!
