//! Audible metadata: what a match holds and the small rules the lookup
//! follows.
use vstd::prelude::*;

verus! {

/// One Audible book as offered for matching.
#[derive(Debug, Clone)]
pub struct MetadataMatch {
    pub asin: String,
    pub title: String,
    pub subtitle: Option<String>,
    pub authors: Vec<String>,
    pub narrators: Vec<String>,
    pub series: Option<String>,
    pub series_index: Option<String>,
    pub cover_url: Option<String>,
    pub description: Option<String>,
    pub region: String,
}

} // verus!

verus! {

pub open spec fn region_table() -> Seq<(Seq<char>, Seq<char>)> {
    seq![
        ("us"@, ".com"@),
        ("ca"@, ".ca"@),
        ("uk"@, ".co.uk"@),
        ("au"@, ".com.au"@),
        ("fr"@, ".fr"@),
        ("de"@, ".de"@),
        ("jp"@, ".co.jp"@),
        ("it"@, ".it"@),
        ("in"@, ".in"@),
        ("es"@, ".es"@),
    ]
}

/// `eq_ignore_ascii_case`.
pub open spec fn eq_ascii_ci(a: Seq<char>, b: Seq<char>) -> bool {
    crate::text::lower_seq(a) == crate::text::lower_seq(b)
}

pub open spec fn tld_from(region: Seq<char>, k: int) -> Seq<char>
    decreases region_table().len() - k,
{
    if k >= region_table().len() || k < 0 {
        ".com"@
    } else if eq_ascii_ci(region_table()[k].0, region) {
        region_table()[k].1
    } else {
        tld_from(region, k + 1)
    }
}

fn region_entry(k: usize) -> (r: (&'static str, &'static str))
    requires
        k < 10,
    ensures
        r.0@ == region_table()[k as int].0,
        r.1@ == region_table()[k as int].1,
{
    if k == 0 {
        ("us", ".com")
    } else if k == 1 {
        ("ca", ".ca")
    } else if k == 2 {
        ("uk", ".co.uk")
    } else if k == 3 {
        ("au", ".com.au")
    } else if k == 4 {
        ("fr", ".fr")
    } else if k == 5 {
        ("de", ".de")
    } else if k == 6 {
        ("jp", ".co.jp")
    } else if k == 7 {
        ("it", ".it")
    } else if k == 8 {
        ("in", ".in")
    } else {
        ("es", ".es")
    }
}

/// The Audible domain ending of a region code, ignoring ASCII case;
/// `.com` for an unknown region.
pub fn tld_for_region(region: &str) -> (r: String)
    ensures
        r@ == tld_from(region@, 0),
{
    let rv = crate::text::to_ascii_lower(crate::text::str_chars(region).as_slice());
    let mut k: usize = 0;
    while k < 10
        invariant
            k <= 10,
            rv@ == crate::text::lower_seq(region@),
            tld_from(region@, 0) == tld_from(region@, k as int),
        decreases 10 - k,
    {
        let (code, tld) = region_entry(k);
        let cv = crate::text::to_ascii_lower(crate::text::str_chars(code).as_slice());
        assert(region_table().len() == 10);
        if crate::text::chars_eq(cv.as_slice(), rv.as_slice()) {
            assert(eq_ascii_ci(region_table()[k as int].0, region@));
            assert(tld_from(region@, k as int) == region_table()[k as int].1);
            return tld.to_owned();
        }
        assert(!eq_ascii_ci(region_table()[k as int].0, region@));
        assert(tld_from(region@, k as int) == tld_from(region@, k as int + 1));
        k += 1;
    }
    assert(tld_from(region@, 10) == ".com"@);
    ".com".to_owned()
}

/// A trimmed value is an ASIN when it is 10 bytes of ASCII letters and
/// digits.
pub open spec fn spec_is_asin(value: Seq<char>) -> bool {
    let v = crate::text::trim(value);
    vstd::utf8::encode_utf8(v).len() == 10 && forall|i: int| 0 <= i < v.len() ==> crate::text::is_ascii_alnum(#[trigger] v[i])
}

pub fn is_asin(value: &str) -> (r: bool)
    ensures
        r == spec_is_asin(value@),
{
    let v = crate::text::trim_str(value);
    let s = crate::text::chars_to_string(v.as_slice());
    if s.as_str().as_bytes().len() != 10 {
        return false;
    }
    let mut i: usize = 0;
    while i < v.len()
        invariant
            i <= v.len(),
            v@ == crate::text::trim(value@),
            forall|k: int| 0 <= k < i ==> crate::text::is_ascii_alnum(#[trigger] v@[k]),
        decreases v.len() - i,
    {
        if !crate::text::char_is_ascii_alnum(v[i]) {
            return false;
        }
        i += 1;
    }
    true
}

/// `str::to_uppercase` (full Unicode case mapping).
pub uninterp spec fn spec_to_uppercase(s: Seq<char>) -> Seq<char>;

/// `str::to_uppercase`: the Unicode upper case of a text.
#[verifier::external_body]
fn to_uppercase(s: &str) -> (r: String)
    ensures
        r@ == spec_to_uppercase(s@),
{
    s.to_uppercase()
}

/// The ASIN looked up: trimmed and upper-cased; refused unless it is then
/// an ASIN.
pub fn lookup_asin(asin: &str) -> (r: Result<String, crate::error::AppError>)
    ensures
        ({
            let a = spec_to_uppercase(crate::text::trim(asin@));
            if spec_is_asin(a) {
                r matches Ok(s) && s@ == a
            } else {
                crate::error::fails_bad(r, "ASIN must be 10 alphanumeric characters"@)
            }
        }),
{
    let t = crate::text::chars_to_string(crate::text::trim_str(asin).as_slice());
    let a = to_uppercase(t.as_str());
    if !is_asin(a.as_str()) {
        return Err(crate::error::bad_request("ASIN must be 10 alphanumeric characters"));
    }
    Ok(a)
}

/// The region searched: the given one trimmed, `us` when blank.
pub fn search_region(region: &str) -> (r: String)
    ensures
        r@ == (if crate::text::trim(region@).len() == 0 {
            "us"@
        } else {
            crate::text::trim(region@)
        }),
{
    let t = crate::text::trim_str(region);
    if t.len() == 0 {
        "us".to_owned()
    } else {
        crate::text::chars_to_string(t.as_slice())
    }
}

} // verus!

verus! {

// ---------------------------------------------------------------------------
// Reading a book from the metadata provider's reply
// ---------------------------------------------------------------------------

/// `str::split(c)`: the pieces between the separators, empty ones included.
pub open spec fn pieces(s: Seq<char>, c: char) -> Seq<Seq<char>>
    decreases s.len(),
{
    if s.len() == 0 {
        seq![Seq::empty()]
    } else {
        let p = pieces(s.drop_last(), c);
        if s.last() == c {
            p.push(Seq::empty())
        } else {
            p.update(p.len() - 1, p.last().push(s.last()))
        }
    }
}

pub proof fn lemma_pieces_len(s: Seq<char>, c: char)
    ensures
        pieces(s, c).len() >= 1,
    decreases s.len(),
{
    if s.len() > 0 {
        lemma_pieces_len(s.drop_last(), c);
    }
}

/// The trimmed pieces that are not empty.
pub open spec fn keep_trimmed(ps: Seq<Seq<char>>) -> Seq<Seq<char>>
    decreases ps.len(),
{
    if ps.len() == 0 {
        Seq::empty()
    } else {
        let rest = keep_trimmed(ps.drop_last());
        if crate::text::trim(ps.last()).len() > 0 {
            rest.push(crate::text::trim(ps.last()))
        } else {
            rest
        }
    }
}

/// Names given as one text: split at commas, trimmed, blanks dropped.
pub open spec fn names_from_text(s: Seq<char>) -> Seq<Seq<char>> {
    keep_trimmed(pieces(s, ','))
}

/// Names given as a list: each text item, or the `name` of each item.
pub open spec fn names_from_items(items: Seq<crate::json::Json>) -> Seq<Seq<char>>
    decreases items.len(),
{
    if items.len() == 0 {
        Seq::empty()
    } else {
        let rest = names_from_items(items.drop_last());
        match items.last().spec_as_str() {
            Some(s) => rest.push(s),
            None => match crate::json::str_member(items.last(), "name"@) {
                Some(n) => rest.push(n),
                None => rest,
            },
        }
    }
}

pub open spec fn names_for(value: crate::json::Json, key: Seq<char>) -> Option<Seq<Seq<char>>> {
    match value.spec_get(key) {
        Some(v) => match v.spec_as_str() {
            Some(s) => Some(names_from_text(s)),
            None => match v.spec_items() {
                Some(items) => Some(names_from_items(items)),
                None => None,
            },
        },
        None => None,
    }
}

/// The names under the first of `keys` that holds a text or a list.
pub open spec fn names_under(value: crate::json::Json, keys: Seq<Seq<char>>) -> Seq<Seq<char>>
    decreases keys.len(),
{
    if keys.len() == 0 {
        Seq::empty()
    } else {
        match names_for(value, keys[0]) {
            Some(ns) => ns,
            None => names_under(value, keys.drop_first()),
        }
    }
}

fn split_commas(s: &str) -> (r: Vec<Vec<char>>)
    ensures
        crate::abb::vv_view(r@) == pieces(s@, ','),
{
    let v = crate::text::str_chars(s);
    let mut done: Vec<Vec<char>> = Vec::new();
    let mut cur: Vec<char> = Vec::new();
    let mut i: usize = 0;
    while i < v.len()
        invariant
            i <= v.len(),
            v@ == s@,
            crate::abb::vv_view(done@).push(cur@) == pieces(v@.take(i as int), ','),
        decreases v.len() - i,
    {
        let ghost before = pieces(v@.take(i as int), ',');
        assert(v@.take(i + 1).drop_last() =~= v@.take(i as int));
        proof {
            lemma_pieces_len(v@.take(i as int), ',');
        }
        if v[i] == ',' {
            let mut old_cur: Vec<char> = Vec::new();
            std::mem::swap(&mut old_cur, &mut cur);
            done.push(old_cur);
            assert(crate::abb::vv_view(done@).push(cur@) =~= before.push(Seq::empty()));
        } else {
            cur.push(v[i]);
            assert(crate::abb::vv_view(done@).push(cur@) =~= before.update(
                before.len() - 1,
                before.last().push(v@[i as int]),
            ));
        }
        i += 1;
    }
    assert(v@.take(v.len() as int) =~= v@);
    done.push(cur);
    done
}

fn names_from_text_exec(s: &str) -> (r: Vec<String>)
    ensures
        crate::text::seqs_view(r@) == names_from_text(s@),
{
    let ps = split_commas(s);
    let ghost pv = crate::abb::vv_view(ps@);
    let mut r: Vec<String> = Vec::new();
    let mut i: usize = 0;
    while i < ps.len()
        invariant
            i <= ps.len(),
            pv == crate::abb::vv_view(ps@),
            crate::text::seqs_view(r@) == keep_trimmed(pv.take(i as int)),
        decreases ps.len() - i,
    {
        assert(pv.take(i + 1).drop_last() =~= pv.take(i as int));
        assert(pv.take(i + 1).last() == ps@[i as int]@);
        let t = crate::text::trim_chars(ps[i].as_slice());
        if t.len() > 0 {
            let ghost before = crate::text::seqs_view(r@);
            r.push(crate::text::chars_to_string(t.as_slice()));
            assert(crate::text::seqs_view(r@) =~= before.push(t@));
        }
        i += 1;
    }
    assert(pv.take(ps.len() as int) =~= pv);
    r
}

fn names_from_items_exec(items: &[crate::json::Json]) -> (r: Vec<String>)
    ensures
        crate::text::seqs_view(r@) == names_from_items(items@),
{
    let mut r: Vec<String> = Vec::new();
    let mut i: usize = 0;
    while i < items.len()
        invariant
            i <= items.len(),
            crate::text::seqs_view(r@) == names_from_items(items@.take(i as int)),
        decreases items.len() - i,
    {
        assert(items@.take(i + 1).drop_last() =~= items@.take(i as int));
        assert(items@.take(i + 1).last() == items@[i as int]);
        let ghost before = crate::text::seqs_view(r@);
        match items[i].as_str() {
            Some(s) => {
                r.push(s.to_owned());
                assert(crate::text::seqs_view(r@) =~= before.push(s@));
            },
            None => match crate::json::get_str(&items[i], "name") {
                Some(n) => {
                    r.push(n.to_owned());
                    assert(crate::text::seqs_view(r@) =~= before.push(n@));
                },
                None => {},
            },
        }
        i += 1;
    }
    assert(items@.take(items.len() as int) =~= items@);
    r
}

fn names_for_exec(value: &crate::json::Json, key: &str) -> (r: Option<Vec<String>>)
    ensures
        match names_for(*value, key@) {
            Some(ns) => r is Some && crate::text::seqs_view(r->0@) == ns,
            None => r is None,
        },
{
    match value.get(key) {
        Some(v) => match v.as_str() {
            Some(s) => Some(names_from_text_exec(s)),
            None => match v.items() {
                Some(items) => Some(names_from_items_exec(items.as_slice())),
                None => None,
            },
        },
        None => None,
    }
}

pub open spec fn strs_view(keys: Seq<&str>) -> Seq<Seq<char>> {
    keys.map_values(|k: &str| k@)
}

/// The names under the first of `keys` that holds a text (split at
/// commas, trimmed, blanks dropped) or a list (texts, or the `name` of each
/// item); none otherwise.
pub fn extract_names(value: &crate::json::Json, keys: &[&str]) -> (r: Vec<String>)
    ensures
        crate::text::seqs_view(r@) == names_under(*value, strs_view(keys@)),
{
    let ghost kv = strs_view(keys@);
    let mut i: usize = 0;
    assert(kv.skip(0) =~= kv);
    while i < keys.len()
        invariant
            i <= keys.len(),
            kv == strs_view(keys@),
            names_under(*value, kv) == names_under(*value, kv.skip(i as int)),
        decreases keys.len() - i,
    {
        let ghost rest = kv.skip(i as int);
        assert(rest[0] == keys@[i as int]@);
        assert(rest.drop_first() =~= kv.skip(i + 1));
        match names_for_exec(value, keys[i]) {
            Some(ns) => {
                return ns;
            },
            None => {},
        }
        i += 1;
    }
    Vec::new()
}

} // verus!

verus! {

/// What a series position's number looks like: digits with an optional
/// decimal part, or a decimal part alone (`\d` being any Unicode decimal
/// digit).
pub open spec fn sequence_number_pattern() -> Seq<char> {
    "(?:\\.\\d+|\\d+(?:\\.\\d+)?)"@
}

/// The first match of `sequence_number_pattern` in `s`, else `s` itself.
pub open spec fn spec_clean_sequence(s: Seq<char>) -> Seq<char> {
    match crate::abb_parse::group(crate::abb_parse::spec_regex_captures(sequence_number_pattern(), s), 0) {
        Some(m) => m,
        None => s,
    }
}

/// A series position reduced to its number (`Book 3` gives `3`, `2.5`
/// stays), or kept as it is when it holds none.
pub fn clean_sequence(sequence: &str) -> (r: String)
    ensures
        r@ == spec_clean_sequence(sequence@),
{
    let caps = crate::abb_parse::regex_captures("(?:\\.\\d+|\\d+(?:\\.\\d+)?)", sequence);
    match crate::abb_parse::group_exec(&caps, 0) {
        Some(m) => crate::text::chars_to_string(m.as_slice()),
        None => sequence.to_owned(),
    }
}

/// A position given as a text or as a number.
pub open spec fn position_text(p: crate::json::Json) -> Option<Seq<char>> {
    match p {
        crate::json::Json::Str(s) => Some(s@),
        crate::json::Json::Number(t) => Some(t@),
        _ => None,
    }
}

pub open spec fn clean_position(p: Option<crate::json::Json>) -> Option<Seq<char>> {
    match p {
        Some(v) => match position_text(v) {
            Some(t) => Some(spec_clean_sequence(t)),
            None => None,
        },
        None => None,
    }
}

/// The first member present among `keys` (each absent key falls through).
pub open spec fn first_member(v: crate::json::Json, keys: Seq<Seq<char>>) -> Option<crate::json::Json>
    decreases keys.len(),
{
    if keys.len() == 0 {
        None
    } else {
        match v.spec_get(keys[0]) {
            Some(x) => Some(x),
            None => first_member(v, keys.drop_first()),
        }
    }
}

pub open spec fn as_str_opt(v: Option<crate::json::Json>) -> Option<Seq<char>> {
    match v {
        Some(x) => x.spec_as_str(),
        None => None,
    }
}

/// The series of a book and its position in it: from `seriesPrimary`, else
/// from `series` given as a text, an object or a list (its first entry).
pub open spec fn spec_extract_series(value: crate::json::Json) -> (Option<Seq<char>>, Option<Seq<char>>) {
    match value.spec_get("seriesPrimary"@) {
        Some(primary) => (
            crate::json::str_member(primary, "name"@),
            clean_position(primary.spec_get("position"@)),
        ),
        None => match value.spec_get("series"@) {
            Some(crate::json::Json::Str(s)) => (Some(s@), None),
            Some(crate::json::Json::Object(m)) => {
                let s = crate::json::Json::Object(m);
                (
                    crate::json::str_member(s, "name"@),
                    clean_position(first_member(s, seq!["position"@, "index"@])),
                )
            },
            Some(crate::json::Json::Array(a)) => if a@.len() > 0 {
                let f = a@[0];
                (
                    as_str_opt(first_member(f, seq!["name"@, "series"@])),
                    clean_position(first_member(f, seq!["sequence"@, "position"@, "index"@])),
                )
            } else {
                (None, None)
            },
            _ => (None, None),
        },
    }
}

fn position_exec(p: Option<&crate::json::Json>) -> (r: Option<String>)
    ensures
        crate::text::opt_string_view(r) == clean_position(
            match p {
                Some(v) => Some(*v),
                None => None,
            },
        ),
{
    match p {
        Some(crate::json::Json::Str(s)) => Some(clean_sequence(s.as_str())),
        Some(crate::json::Json::Number(t)) => Some(clean_sequence(t.as_str())),
        _ => None,
    }
}

fn opt_owned(o: Option<&str>) -> (r: Option<String>)
    ensures
        crate::text::opt_string_view(r) == crate::text::opt_str_view(o),
{
    match o {
        Some(s) => Some(s.to_owned()),
        None => None,
    }
}

fn get_either<'a>(v: &'a crate::json::Json, a: &str, b: &str) -> (r: Option<&'a crate::json::Json>)
    ensures
        match first_member(*v, seq![a@, b@]) {
            Some(x) => r == Some(&x),
            None => r is None,
        },
{
    assert(seq![a@, b@].drop_first() =~= seq![b@]);
    assert(seq![b@].drop_first() =~= Seq::<Seq<char>>::empty());
    proof {
        reveal_with_fuel(first_member, 3);
    }
    match v.get(a) {
        Some(x) => Some(x),
        None => v.get(b),
    }
}

fn get_any3<'a>(v: &'a crate::json::Json, a: &str, b: &str, c: &str) -> (r: Option<&'a crate::json::Json>)
    ensures
        match first_member(*v, seq![a@, b@, c@]) {
            Some(x) => r == Some(&x),
            None => r is None,
        },
{
    assert(seq![a@, b@, c@].drop_first() =~= seq![b@, c@]);
    assert(seq![b@, c@].drop_first() =~= seq![c@]);
    assert(seq![c@].drop_first() =~= Seq::<Seq<char>>::empty());
    proof {
        reveal_with_fuel(first_member, 4);
    }
    match v.get(a) {
        Some(x) => Some(x),
        None => match v.get(b) {
            Some(x) => Some(x),
            None => v.get(c),
        },
    }
}

/// The series of a book and its position in it (see `spec_extract_series`).
pub fn extract_series(value: &crate::json::Json) -> (r: (Option<String>, Option<String>))
    ensures
        crate::text::opt_string_view(r.0) == spec_extract_series(*value).0,
        crate::text::opt_string_view(r.1) == spec_extract_series(*value).1,
{
    match value.get("seriesPrimary") {
        Some(primary) => {
            let name = opt_owned(crate::json::get_str(primary, "name"));
            let index = position_exec(primary.get("position"));
            (name, index)
        },
        None => match value.get("series") {
            Some(crate::json::Json::Str(s)) => (Some(s.as_str().to_owned()), None),
            Some(s) if matches!(s, crate::json::Json::Object(_)) => {
                let name = opt_owned(crate::json::get_str(s, "name"));
                let index = position_exec(get_either(s, "position", "index"));
                (name, index)
            },
            Some(crate::json::Json::Array(a)) => {
                if a.len() > 0 {
                    let f = &a[0];
                    let name = match get_either(f, "name", "series") {
                        Some(n) => opt_owned(n.as_str()),
                        None => None,
                    };
                    let index = position_exec(get_any3(f, "sequence", "position", "index"));
                    (name, index)
                } else {
                    (None, None)
                }
            },
            _ => (None, None),
        },
    }
}

} // verus!

verus! {

/// A book read from the provider's reply: it needs an ASIN (`asin`, else
/// `ASIN`); the title defaults to `Unknown`; authors and narrators come
/// from `authors`/`author` and `narrators`/`narrator`; the cover from
/// `image`, `cover` or `coverUrl`; the description from `description` or
/// `summary`.
pub fn parse_book(value: &crate::json::Json, region: &str) -> (r: Option<MetadataMatch>)
    ensures
        match as_str_opt(first_member(*value, seq!["asin"@, "ASIN"@])) {
            None => r is None,
            Some(asin) => r matches Some(m) && {
                &&& m.asin@ == asin
                &&& m.title@ == crate::abs_sync::str_or(
                    crate::json::str_member(*value, "title"@),
                    "Unknown"@,
                )
                &&& crate::text::seqs_view(m.authors@) == names_under(
                    *value,
                    seq!["authors"@, "author"@],
                )
                &&& crate::text::seqs_view(m.narrators@) == names_under(
                    *value,
                    seq!["narrators"@, "narrator"@],
                )
                &&& crate::text::opt_string_view(m.series) == spec_extract_series(*value).0
                &&& crate::text::opt_string_view(m.series_index) == spec_extract_series(*value).1
                &&& crate::text::opt_string_view(m.cover_url) == as_str_opt(
                    first_member(*value, seq!["image"@, "cover"@, "coverUrl"@]),
                )
                &&& crate::text::opt_string_view(m.description) == as_str_opt(
                    first_member(*value, seq!["description"@, "summary"@]),
                )
                &&& crate::text::opt_string_view(m.subtitle) == crate::json::str_member(
                    *value,
                    "subtitle"@,
                )
                &&& m.region@ == region@
            },
        },
{
    let asin: &str = match get_either(value, "asin", "ASIN") {
        Some(v) => match v.as_str() {
            Some(s) => s,
            None => {
                return None;
            },
        },
        None => {
            return None;
        },
    };
    let title = match crate::json::get_str(value, "title") {
        Some(t) => t.to_owned(),
        None => "Unknown".to_owned(),
    };
    let author_keys: [&str; 2] = ["authors", "author"];
    assert(strs_view(author_keys@) =~= seq!["authors"@, "author"@]);
    let authors = extract_names(value, &author_keys);
    let narrator_keys: [&str; 2] = ["narrators", "narrator"];
    assert(strs_view(narrator_keys@) =~= seq!["narrators"@, "narrator"@]);
    let narrators = extract_names(value, &narrator_keys);
    let (series, series_index) = extract_series(value);
    let cover_url = match get_any3(value, "image", "cover", "coverUrl") {
        Some(v) => opt_owned(v.as_str()),
        None => None,
    };
    let description = match get_either(value, "description", "summary") {
        Some(v) => opt_owned(v.as_str()),
        None => None,
    };
    let subtitle = opt_owned(crate::json::get_str(value, "subtitle"));
    Some(
        MetadataMatch {
            asin: asin.to_owned(),
            title,
            subtitle,
            authors,
            narrators,
            series,
            series_index,
            cover_url,
            description,
            region: region.to_owned(),
        },
    )
}

} // verus!

verus! {

/// A title search needs a title; it is trimmed.
pub fn search_title(title: &str) -> (r: Result<String, crate::error::AppError>)
    ensures
        crate::text::trim(title@).len() == 0 ==> crate::error::fails_bad(r, "title is required"@),
        crate::text::trim(title@).len() > 0 ==> (r matches Ok(t) && t@ == crate::text::trim(title@)),
{
    let t = crate::text::trim_str(title);
    if t.len() == 0 {
        return Err(crate::error::bad_request("title is required"));
    }
    Ok(crate::text::chars_to_string(t.as_slice()))
}

/// The ASINs of catalog products, in order, each product that has one.
pub open spec fn product_asins(products: Seq<crate::json::Json>) -> Seq<Seq<char>>
    decreases products.len(),
{
    if products.len() == 0 {
        Seq::empty()
    } else {
        let rest = product_asins(products.drop_last());
        match crate::json::str_member(products.last(), "asin"@) {
            Some(a) => rest.push(a),
            None => rest,
        }
    }
}

/// The ASINs of an Audible catalog reply (its `products`); a reply without
/// any is an error.
pub fn catalog_asins(value: &crate::json::Json) -> (r: Result<Vec<String>, crate::error::AppError>)
    ensures
        ({
            let asins = product_asins(crate::json::items_member(*value, "products"@));
            if asins.len() == 0 {
                r matches Err(crate::error::AppError::Internal(m)) && m@
                    == "Audible catalog returned no products"@
            } else {
                r matches Ok(v) && crate::text::seqs_view(v@) == asins
            }
        }),
{
    let products = crate::json::get_items(value, "products");
    let mut r: Vec<String> = Vec::new();
    let mut i: usize = 0;
    while i < products.len()
        invariant
            i <= products.len(),
            crate::text::seqs_view(r@) == product_asins(products@.take(i as int)),
        decreases products.len() - i,
    {
        assert(products@.take(i + 1).drop_last() =~= products@.take(i as int));
        assert(products@.take(i + 1).last() == products@[i as int]);
        match crate::json::get_str(&products[i], "asin") {
            Some(a) => {
                let ghost before = crate::text::seqs_view(r@);
                r.push(a.to_owned());
                assert(crate::text::seqs_view(r@) =~= before.push(a@));
            },
            None => {},
        }
        i += 1;
    }
    assert(products@.take(products.len() as int) =~= products@);
    if r.len() == 0 {
        return Err(crate::error::AppError::Internal("Audible catalog returned no products".to_owned()));
    }
    Ok(r)
}

} // verus!

verus! {

/// A metadata search: a title and maybe an author.
#[derive(Debug, Clone)]
pub struct SearchQuery {
    pub title: String,
    pub author: Option<String>,
}

} // verus!

verus! {

// ---------------------------------------------------------------------------
// The Audible catalog search URL
// ---------------------------------------------------------------------------

/// Bytes that `form_urlencoded::byte_serialize` leaves as they are: ASCII
/// alphanumerics and `*`, `-`, `.`, `_`.
pub open spec fn form_safe_byte(b: u8) -> bool {
    (48 <= b <= 57) || (65 <= b <= 90) || (97 <= b <= 122) || b == 42 || b == 45 || b == 46 || b == 95
}

/// `application/x-www-form-urlencoded` bytes: safe bytes as they are, a
/// space as `+`, any other byte as `%XX` (upper-case hex).
pub open spec fn form_encode(b: Seq<u8>) -> Seq<char>
    decreases b.len(),
{
    if b.len() == 0 {
        Seq::empty()
    } else {
        let head = b[0];
        let enc = if form_safe_byte(head) {
            seq![head as char]
        } else if head == 32 {
            seq!['+']
        } else {
            seq!['%', crate::magnet::hex_upper(head / 16), crate::magnet::hex_upper(head % 16)]
        };
        enc + form_encode(b.drop_first())
    }
}

/// `url::form_urlencoded::byte_serialize` on the UTF-8 bytes of `s`: each
/// byte encoded as `form_encode` says.
#[verifier::external_body]
fn form_byte_serialize(s: &str) -> (r: String)
    ensures
        r@ == form_encode(vstd::utf8::encode_utf8(s@)),
{
    url::form_urlencoded::byte_serialize(s.as_bytes()).collect()
}

/// The Audible catalog search for a title (and an author, when one is given
/// and not blank, trimmed): ten results by relevance, on the region's
/// Audible domain.
pub open spec fn spec_catalog_url(region: Seq<char>, title: Seq<char>, author: Option<Seq<char>>) -> Seq<char> {
    let base = "https://api.audible"@ + tld_from(region, 0)
        + "/1.0/catalog/products?num_results=10&products_sort_by=Relevance&title="@
        + form_encode(vstd::utf8::encode_utf8(title));
    match crate::libraries::given(author) {
        Some(a) => base + "&author="@ + form_encode(vstd::utf8::encode_utf8(a)),
        None => base,
    }
}

pub fn catalog_search_url(region: &str, title: &str, author: Option<&str>) -> (r: String)
    ensures
        r@ == spec_catalog_url(region@, title@, crate::text::opt_str_view(author)),
{
    let mut v = crate::text::str_chars("https://api.audible");
    let tld = tld_for_region(region);
    crate::text::extend_chars(&mut v, crate::text::str_chars(tld.as_str()).as_slice());
    crate::text::extend_chars(
        &mut v,
        crate::text::str_chars("/1.0/catalog/products?num_results=10&products_sort_by=Relevance&title=").as_slice(),
    );
    let t = form_byte_serialize(title);
    crate::text::extend_chars(&mut v, crate::text::str_chars(t.as_str()).as_slice());
    let ghost base = v@;
    let given: Option<Vec<char>> = match author {
        Some(a) => {
            let tr = crate::text::trim_str(a);
            if tr.len() > 0 {
                Some(tr)
            } else {
                None
            }
        },
        None => None,
    };
    match given {
        Some(a) => {
            crate::text::extend_chars(&mut v, crate::text::str_chars("&author=").as_slice());
            let a_s = crate::text::chars_to_string(a.as_slice());
            let e = form_byte_serialize(a_s.as_str());
            crate::text::extend_chars(&mut v, crate::text::str_chars(e.as_str()).as_slice());
        },
        None => {},
    }
    crate::text::chars_to_string(v.as_slice())
}

} // verus!
