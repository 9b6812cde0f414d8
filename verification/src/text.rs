//! Character-level string helpers shared by the parsers and path logic.
//!
//! Every helper works on the `char` sequence of a string (`s@`) and states
//! its result through a spec function defined in this module.
use vstd::prelude::*;

verus! {

broadcast use vstd::string::group_string_axioms;

// ---------------------------------------------------------------------------
// Character classes
// ---------------------------------------------------------------------------

/// Unicode `White_Space`, the property behind `char::is_whitespace`,
/// `str::trim` and `str::split_whitespace`.
pub open spec fn is_ws(c: char) -> bool {
    ||| ('\u{9}' <= c && c <= '\u{d}')
    ||| c == ' '
    ||| c == '\u{85}'
    ||| c == '\u{a0}'
    ||| c == '\u{1680}'
    ||| ('\u{2000}' <= c && c <= '\u{200a}')
    ||| c == '\u{2028}'
    ||| c == '\u{2029}'
    ||| c == '\u{202f}'
    ||| c == '\u{205f}'
    ||| c == '\u{3000}'
}

pub fn char_is_ws(c: char) -> (b: bool)
    ensures
        b == is_ws(c),
{
    ('\u{9}' <= c && c <= '\u{d}') || c == ' ' || c == '\u{85}' || c == '\u{a0}' || c == '\u{1680}'
        || ('\u{2000}' <= c && c <= '\u{200a}') || c == '\u{2028}' || c == '\u{2029}' || c
        == '\u{202f}' || c == '\u{205f}' || c == '\u{3000}'
}

/// General category `Cc`, the property behind `char::is_control`.
pub open spec fn is_control(c: char) -> bool {
    c <= '\u{1f}' || ('\u{7f}' <= c && c <= '\u{9f}')
}

pub fn char_is_control(c: char) -> (b: bool)
    ensures
        b == is_control(c),
{
    c <= '\u{1f}' || ('\u{7f}' <= c && c <= '\u{9f}')
}

pub open spec fn is_ascii_digit(c: char) -> bool {
    '0' <= c && c <= '9'
}

pub open spec fn is_ascii_upper(c: char) -> bool {
    'A' <= c && c <= 'Z'
}

pub open spec fn is_ascii_lower(c: char) -> bool {
    'a' <= c && c <= 'z'
}

pub open spec fn is_ascii_alnum(c: char) -> bool {
    is_ascii_digit(c) || is_ascii_upper(c) || is_ascii_lower(c)
}

pub open spec fn is_ascii_hex(c: char) -> bool {
    is_ascii_digit(c) || ('a' <= c && c <= 'f') || ('A' <= c && c <= 'F')
}

pub fn char_is_ascii_alnum(c: char) -> (b: bool)
    ensures
        b == is_ascii_alnum(c),
{
    ('0' <= c && c <= '9') || ('A' <= c && c <= 'Z') || ('a' <= c && c <= 'z')
}

pub fn char_is_ascii_hex(c: char) -> (b: bool)
    ensures
        b == is_ascii_hex(c),
{
    ('0' <= c && c <= '9') || ('a' <= c && c <= 'f') || ('A' <= c && c <= 'F')
}

/// `char::to_ascii_lowercase`.
pub open spec fn lower(c: char) -> char {
    if is_ascii_upper(c) {
        ((c as u32) + 32) as char
    } else {
        c
    }
}

pub fn char_lower(c: char) -> (r: char)
    ensures
        r == lower(c),
{
    if 'A' <= c && c <= 'Z' {
        ((c as u8) + 32) as char
    } else {
        c
    }
}

/// One character of a case-insensitive pattern (`(?i)` in a regular
/// expression): `p` is a lower-case ASCII pattern character, and `c` matches
/// when it lies in the simple case-folding orbit of `p`.  Besides the ASCII
/// upper-case letter, that orbit holds the Kelvin sign for `k` and the long
/// s for `s`.
pub open spec fn ci_eq(c: char, p: char) -> bool {
    ||| c == p
    ||| (is_ascii_lower(p) && c == ((p as u32) - 32) as char)
    ||| (p == 'k' && c == '\u{212a}')
    ||| (p == 's' && c == '\u{17f}')
}

pub fn char_ci_eq(c: char, p: char) -> (b: bool)
    ensures
        b == ci_eq(c, p),
{
    c == p || ('a' <= p && p <= 'z' && (c as u32) == (p as u32) - 32) || (p == 'k' && c
        == '\u{212a}') || (p == 's' && c == '\u{17f}')
}

// ---------------------------------------------------------------------------
// Conversions between `str`/`String` and character vectors
// ---------------------------------------------------------------------------

pub open spec fn opt_string_view(o: Option<String>) -> Option<Seq<char>> {
    match o {
        Some(s) => Some(s@),
        None => None,
    }
}

pub open spec fn opt_str_view(o: Option<&str>) -> Option<Seq<char>> {
    match o {
        Some(s) => Some(s@),
        None => None,
    }
}

pub open spec fn seqs_view(v: Seq<String>) -> Seq<Seq<char>> {
    v.map_values(|s: String| s@)
}

/// The characters of a string slice, in order.
pub fn str_chars(s: &str) -> (v: Vec<char>)
    ensures
        v@ == s@,
{
    let mut v: Vec<char> = Vec::new();
    for c in it: s.chars()
        invariant
            v@ == it.history(),
    {
        v.push(c);
    }
    v
}

/// Appends one character to a string (`String::push`).
#[verifier::external_body]
pub fn push_char(s: &mut String, c: char)
    ensures
        final(s)@ == old(s)@.push(c),
{
    s.push(c);
}

/// Builds a string from a character sequence.
pub fn chars_to_string(v: &[char]) -> (s: String)
    ensures
        s@ == v@,
{
    let mut s = String::new();
    let mut i: usize = 0;
    while i < v.len()
        invariant
            i <= v.len(),
            s@ == v@.take(i as int),
        decreases v.len() - i,
    {
        push_char(&mut s, v[i]);
        assert(v@.take(i as int).push(v@[i as int]) =~= v@.take(i + 1));
        i += 1;
    }
    assert(v@.take(v.len() as int) =~= v@);
    s
}

/// Appends a character sequence to a vector.
pub fn extend_chars(out: &mut Vec<char>, more: &[char])
    ensures
        final(out)@ == old(out)@ + more@,
{
    let mut i: usize = 0;
    while i < more.len()
        invariant
            i <= more.len(),
            out@ == old(out)@ + more@.take(i as int),
        decreases more.len() - i,
    {
        out.push(more[i]);
        assert(more@.take(i as int).push(more@[i as int]) =~= more@.take(i + 1));
        i += 1;
    }
    assert(more@.take(more.len() as int) =~= more@);
}

/// A copy of a character slice.
pub fn copy_chars(v: &[char]) -> (r: Vec<char>)
    ensures
        r@ == v@,
{
    let mut r: Vec<char> = Vec::new();
    extend_chars(&mut r, v);
    assert(r@ =~= v@);
    r
}

/// A copy of `v[from..to]`.
pub fn slice_chars(v: &[char], from: usize, to: usize) -> (r: Vec<char>)
    requires
        from <= to <= v.len(),
    ensures
        r@ == v@.subrange(from as int, to as int),
{
    let mut r: Vec<char> = Vec::new();
    let mut i = from;
    while i < to
        invariant
            from <= i <= to <= v.len(),
            r@ == v@.subrange(from as int, i as int),
        decreases to - i,
    {
        r.push(v[i]);
        assert(v@.subrange(from as int, i as int).push(v@[i as int]) =~= v@.subrange(
            from as int,
            i + 1,
        ));
        i += 1;
    }
    r
}

pub fn chars_eq(a: &[char], b: &[char]) -> (r: bool)
    ensures
        r == (a@ == b@),
{
    if a.len() != b.len() {
        return false;
    }
    let mut i: usize = 0;
    while i < a.len()
        invariant
            a.len() == b.len(),
            i <= a.len(),
            forall|j: int| 0 <= j < i ==> a@[j] == b@[j],
        decreases a.len() - i,
    {
        if a[i] != b[i] {
            return false;
        }
        i += 1;
    }
    assert(a@ =~= b@);
    true
}

// ---------------------------------------------------------------------------
// Case mapping
// ---------------------------------------------------------------------------

/// `str::to_ascii_lowercase`.
pub open spec fn lower_seq(s: Seq<char>) -> Seq<char> {
    s.map_values(|c: char| lower(c))
}

pub fn to_ascii_lower(s: &[char]) -> (r: Vec<char>)
    ensures
        r@ == lower_seq(s@),
{
    let mut r: Vec<char> = Vec::new();
    let mut i: usize = 0;
    while i < s.len()
        invariant
            i <= s.len(),
            r@ == lower_seq(s@.take(i as int)),
        decreases s.len() - i,
    {
        r.push(char_lower(s[i]));
        assert(lower_seq(s@.take(i as int)).push(lower(s@[i as int])) =~= lower_seq(
            s@.take(i + 1),
        ));
        i += 1;
    }
    assert(s@.take(s.len() as int) =~= s@);
    r
}

// ---------------------------------------------------------------------------
// Trimming
// ---------------------------------------------------------------------------

/// Index of the first non-whitespace character at or after `i`.
pub open spec fn skip_ws(s: Seq<char>, i: int) -> int
    decreases s.len() - i,
{
    if 0 <= i < s.len() && is_ws(s[i]) {
        skip_ws(s, i + 1)
    } else {
        i
    }
}

/// End index once trailing whitespace before `j` is dropped.
pub open spec fn back_ws(s: Seq<char>, j: int) -> int
    decreases j,
{
    if 0 < j <= s.len() && is_ws(s[j - 1]) {
        back_ws(s, j - 1)
    } else {
        j
    }
}

pub proof fn lemma_skip_ws_bounds(s: Seq<char>, i: int)
    requires
        0 <= i <= s.len(),
    ensures
        i <= skip_ws(s, i) <= s.len(),
        forall|k: int| i <= k < skip_ws(s, i) ==> is_ws(#[trigger] s[k]),
        skip_ws(s, i) < s.len() ==> !is_ws(s[skip_ws(s, i)]),
    decreases s.len() - i,
{
    if i < s.len() && is_ws(s[i]) {
        lemma_skip_ws_bounds(s, i + 1);
    }
}

pub proof fn lemma_back_ws_bounds(s: Seq<char>, j: int)
    requires
        0 <= j <= s.len(),
    ensures
        0 <= back_ws(s, j) <= j,
        forall|k: int| back_ws(s, j) <= k < j ==> is_ws(#[trigger] s[k]),
        back_ws(s, j) > 0 ==> !is_ws(s[back_ws(s, j) - 1]),
    decreases j,
{
    if j > 0 && is_ws(s[j - 1]) {
        lemma_back_ws_bounds(s, j - 1);
    }
}

/// `str::trim_start`.
pub open spec fn trim_start(s: Seq<char>) -> Seq<char> {
    s.subrange(skip_ws(s, 0), s.len() as int)
}

/// `str::trim_end`.
pub open spec fn trim_end(s: Seq<char>) -> Seq<char> {
    s.subrange(0, back_ws(s, s.len() as int))
}

/// `str::trim`.
pub open spec fn trim(s: Seq<char>) -> Seq<char> {
    trim_end(trim_start(s))
}

pub fn trim_chars(s: &[char]) -> (r: Vec<char>)
    ensures
        r@ == trim(s@),
{
    let mut i: usize = 0;
    while i < s.len() && char_is_ws(s[i])
        invariant
            i <= s.len(),
            skip_ws(s@, i as int) == skip_ws(s@, 0),
        decreases s.len() - i,
    {
        i += 1;
    }
    let ghost t = s@.subrange(i as int, s.len() as int);
    let mut j: usize = s.len();
    while j > i && char_is_ws(s[j - 1])
        invariant
            i <= j <= s.len(),
            t == s@.subrange(i as int, s.len() as int),
            back_ws(t, j - i) == back_ws(t, t.len() as int),
        decreases j,
    {
        assert(t[j - 1 - i] == s@[j - 1]);
        j -= 1;
    }
    proof {
        if j > i {
            assert(t[j - 1 - i] == s@[j - 1]);
        }
    }
    let r = slice_chars(s, i, j);
    assert(r@ =~= t.subrange(0, (j - i) as int));
    r
}

/// Trimming twice trims once.
pub proof fn lemma_trim_idempotent(s: Seq<char>)
    ensures
        trim(trim(s)) == trim(s),
{
    let u = trim_start(s);
    lemma_skip_ws_bounds(s, 0);
    lemma_back_ws_bounds(u, u.len() as int);
    let t = trim(s);
    if t.len() > 0 {
        assert(t[0] == u[0]);
        assert(!is_ws(t[0]));
        assert(t[t.len() - 1] == u[t.len() - 1]);
        assert(skip_ws(t, 0) == 0);
        assert(trim_start(t) =~= t);
        assert(back_ws(t, t.len() as int) == t.len());
        assert(trim_end(t) =~= t);
    } else {
        assert(trim_start(t) =~= t);
        assert(trim_end(trim_start(t)) =~= t);
    }
}

pub fn trim_str(s: &str) -> (r: Vec<char>)
    ensures
        r@ == trim(s@),
{
    let v = str_chars(s);
    trim_chars(v.as_slice())
}

/// `str::trim_matches(c)`: drops every leading and trailing `c`.
pub open spec fn skip_char(s: Seq<char>, c: char, i: int) -> int
    decreases s.len() - i,
{
    if 0 <= i < s.len() && s[i] == c {
        skip_char(s, c, i + 1)
    } else {
        i
    }
}

pub open spec fn back_char(s: Seq<char>, c: char, j: int) -> int
    decreases j,
{
    if 0 < j <= s.len() && s[j - 1] == c {
        back_char(s, c, j - 1)
    } else {
        j
    }
}

pub proof fn lemma_skip_char_bounds(s: Seq<char>, c: char, i: int)
    requires
        0 <= i <= s.len(),
    ensures
        i <= skip_char(s, c, i) <= s.len(),
        forall|k: int| i <= k < skip_char(s, c, i) ==> #[trigger] s[k] == c,
        skip_char(s, c, i) < s.len() ==> s[skip_char(s, c, i)] != c,
    decreases s.len() - i,
{
    if i < s.len() && s[i] == c {
        lemma_skip_char_bounds(s, c, i + 1);
    }
}

pub proof fn lemma_back_char_bounds(s: Seq<char>, c: char, j: int)
    requires
        0 <= j <= s.len(),
    ensures
        0 <= back_char(s, c, j) <= j,
        forall|k: int| back_char(s, c, j) <= k < j ==> #[trigger] s[k] == c,
        back_char(s, c, j) > 0 ==> s[back_char(s, c, j) - 1] != c,
    decreases j,
{
    if j > 0 && s[j - 1] == c {
        lemma_back_char_bounds(s, c, j - 1);
    }
}

/// `str::trim_start_matches(c)` for a single character.
pub open spec fn trim_start_char(s: Seq<char>, c: char) -> Seq<char> {
    s.subrange(skip_char(s, c, 0), s.len() as int)
}

/// `str::trim_end_matches(c)` for a single character.
pub open spec fn trim_end_char(s: Seq<char>, c: char) -> Seq<char> {
    s.subrange(0, back_char(s, c, s.len() as int))
}

/// `str::trim_matches(c)` for a single character.
pub open spec fn trim_char(s: Seq<char>, c: char) -> Seq<char> {
    trim_end_char(trim_start_char(s, c), c)
}

pub fn trim_start_char_exec(s: &[char], c: char) -> (r: Vec<char>)
    ensures
        r@ == trim_start_char(s@, c),
{
    let mut i: usize = 0;
    while i < s.len() && s[i] == c
        invariant
            i <= s.len(),
            skip_char(s@, c, i as int) == skip_char(s@, c, 0),
        decreases s.len() - i,
    {
        i += 1;
    }
    slice_chars(s, i, s.len())
}

pub fn trim_end_char_exec(s: &[char], c: char) -> (r: Vec<char>)
    ensures
        r@ == trim_end_char(s@, c),
{
    let mut j: usize = s.len();
    while j > 0 && s[j - 1] == c
        invariant
            j <= s.len(),
            back_char(s@, c, j as int) == back_char(s@, c, s.len() as int),
        decreases j,
    {
        j -= 1;
    }
    slice_chars(s, 0, j)
}

pub fn trim_char_exec(s: &[char], c: char) -> (r: Vec<char>)
    ensures
        r@ == trim_char(s@, c),
{
    let a = trim_start_char_exec(s, c);
    trim_end_char_exec(a.as_slice(), c)
}

// ---------------------------------------------------------------------------
// Searching
// ---------------------------------------------------------------------------

/// `pat` occurs in `s` at index `i`.
pub open spec fn occurs_at(s: Seq<char>, pat: Seq<char>, i: int) -> bool {
    0 <= i && i + pat.len() <= s.len() && s.subrange(i, i + pat.len()) == pat
}

/// The first index at or after `i` where `pat` occurs.
pub open spec fn find_from(s: Seq<char>, pat: Seq<char>, i: int) -> Option<int>
    decreases s.len() + 1 - i,
{
    if i < 0 || i + pat.len() > s.len() {
        None
    } else if occurs_at(s, pat, i) {
        Some(i)
    } else {
        find_from(s, pat, i + 1)
    }
}

/// `str::contains(pat)`.
pub open spec fn contains(s: Seq<char>, pat: Seq<char>) -> bool {
    find_from(s, pat, 0) is Some
}

pub proof fn lemma_find_from(s: Seq<char>, pat: Seq<char>, i: int)
    requires
        0 <= i,
    ensures
        find_from(s, pat, i) matches Some(k) ==> i <= k && occurs_at(s, pat, k) && forall|m: int|
            i <= m < k ==> !occurs_at(s, pat, m),
        find_from(s, pat, i) is None ==> forall|m: int| i <= m ==> !occurs_at(s, pat, m),
    decreases s.len() + 1 - i,
{
    if i + pat.len() <= s.len() && !occurs_at(s, pat, i) {
        lemma_find_from(s, pat, i + 1);
    }
}

pub fn occurs_at_exec(s: &[char], pat: &[char], i: usize) -> (b: bool)
    ensures
        b == occurs_at(s@, pat@, i as int),
{
    if i > s.len() || pat.len() > s.len() - i {
        return false;
    }
    let mut k: usize = 0;
    while k < pat.len()
        invariant
            i + pat.len() <= s.len(),
            k <= pat.len(),
            forall|m: int| 0 <= m < k ==> s@[i + m] == pat@[m],
        decreases pat.len() - k,
    {
        if s[i + k] != pat[k] {
            assert(s@.subrange(i as int, i + pat.len())[k as int] == s@[i + k]);
            return false;
        }
        k += 1;
    }
    assert(s@.subrange(i as int, i + pat.len()) =~= pat@);
    true
}

pub fn find_from_exec(s: &[char], pat: &[char], start: usize) -> (r: Option<usize>)
    ensures
        r matches Some(k) ==> find_from(s@, pat@, start as int) == Some(k as int),
        r is None ==> find_from(s@, pat@, start as int) is None,
{
    if pat.len() == 0 {
        if start <= s.len() {
            assert(s@.subrange(start as int, start as int) =~= pat@);
            return Some(start);
        }
        return None;
    }
    if pat.len() > s.len() {
        return None;
    }
    let mut i = start;
    while i <= s.len() - pat.len()
        invariant
            start <= i,
            1 <= pat.len() <= s.len(),
            find_from(s@, pat@, i as int) == find_from(s@, pat@, start as int),
        decreases s.len() + 1 - i,
    {
        if occurs_at_exec(s, pat, i) {
            return Some(i);
        }
        i += 1;
    }
    None
}

pub fn contains_exec(s: &[char], pat: &[char]) -> (b: bool)
    ensures
        b == contains(s@, pat@),
{
    find_from_exec(s, pat, 0).is_some()
}

pub fn contains_char(s: &[char], c: char) -> (b: bool)
    ensures
        b == s@.contains(c),
{
    let mut i: usize = 0;
    while i < s.len()
        invariant
            i <= s.len(),
            forall|m: int| 0 <= m < i ==> s@[m] != c,
        decreases s.len() - i,
    {
        if s[i] == c {
            return true;
        }
        i += 1;
    }
    false
}

pub open spec fn starts_with(s: Seq<char>, pat: Seq<char>) -> bool {
    pat.len() <= s.len() && s.subrange(0, pat.len() as int) == pat
}

pub open spec fn ends_with(s: Seq<char>, pat: Seq<char>) -> bool {
    pat.len() <= s.len() && s.subrange(s.len() - pat.len(), s.len() as int) == pat
}

pub fn starts_with_exec(s: &[char], pat: &[char]) -> (b: bool)
    ensures
        b == starts_with(s@, pat@),
{
    occurs_at_exec(s, pat, 0)
}

pub fn ends_with_exec(s: &[char], pat: &[char]) -> (b: bool)
    ensures
        b == ends_with(s@, pat@),
{
    if pat.len() > s.len() {
        return false;
    }
    occurs_at_exec(s, pat, s.len() - pat.len())
}

// ---------------------------------------------------------------------------
// Replacing
// ---------------------------------------------------------------------------

/// `str::replace(from, to)` applied to `s[i..]`: every non-overlapping
/// occurrence of `from`, scanning left to right, becomes `to`.
pub open spec fn replace_from(s: Seq<char>, from: Seq<char>, to: Seq<char>, i: int) -> Seq<char>
    recommends
        from.len() > 0,
    decreases s.len() - i,
{
    if i < 0 || i > s.len() || from.len() == 0 {
        s.subrange(i, s.len() as int)
    } else {
        match find_from(s, from, i) {
            None => s.subrange(i, s.len() as int),
            Some(k) => if k < i || k + from.len() > s.len() {
                Seq::empty()
            } else {
                s.subrange(i, k) + to + replace_from(s, from, to, k + from.len())
            },
        }
    }
}

pub open spec fn replace(s: Seq<char>, from: Seq<char>, to: Seq<char>) -> Seq<char> {
    replace_from(s, from, to, 0)
}

pub fn replace_exec(s: &[char], from: &[char], to: &[char]) -> (r: Vec<char>)
    requires
        from.len() > 0,
    ensures
        r@ == replace(s@, from@, to@),
{
    let mut out: Vec<char> = Vec::new();
    let mut i: usize = 0;
    loop
        invariant
            i <= s.len(),
            from.len() > 0,
            out@ + replace_from(s@, from@, to@, i as int) == replace(s@, from@, to@),
        decreases s.len() - i,
    {
        proof {
            lemma_find_from(s@, from@, i as int);
        }
        match find_from_exec(s, from, i) {
            None => {
                let rest = slice_chars(s, i, s.len());
                extend_chars(&mut out, rest.as_slice());
                assert(out@ =~= replace(s@, from@, to@));
                return out;
            },
            Some(k) => {
                let mid = slice_chars(s, i, k);
                let ghost before = out@;
                extend_chars(&mut out, mid.as_slice());
                extend_chars(&mut out, to);
                assert(before + replace_from(s@, from@, to@, i as int) =~= out@ + replace_from(
                    s@,
                    from@,
                    to@,
                    k + from.len(),
                ));
                i = k + from.len();
            },
        }
    }
}

} // verus!

verus! {

// ---------------------------------------------------------------------------
// Decimal numbers
// ---------------------------------------------------------------------------

pub open spec fn digit_char(d: int) -> char {
    ((48 + d) as u8) as char
}

/// Decimal digits of `n` (no sign, no leading zeros; `0` for zero).
pub open spec fn decimal(n: nat) -> Seq<char>
    decreases n,
{
    if n < 10 {
        seq![digit_char(n as int)]
    } else {
        decimal(n / 10) + seq![digit_char((n % 10) as int)]
    }
}

/// Decimal digits are never empty, and each is one of `0`..`9`.
pub proof fn lemma_decimal_digits(n: nat)
    ensures
        decimal(n).len() >= 1,
        n >= 10 ==> decimal(n).len() >= 2,
        forall|i: int| 0 <= i < decimal(n).len() ==> '0' <= #[trigger] decimal(n)[i] && decimal(n)[i] <= '9',
    decreases n,
{
    if n >= 10 {
        lemma_decimal_digits(n / 10);
        let a = decimal(n / 10);
        assert forall|i: int| 0 <= i < decimal(n).len() implies '0' <= #[trigger] decimal(n)[i] && decimal(n)[i] <= '9' by {
            if i < a.len() {
                assert(decimal(n)[i] == a[i]);
            }
        }
    }
}

/// Different digits have different characters.
pub proof fn lemma_digit_char_injective(a: int, b: int)
    requires
        0 <= a < 10,
        0 <= b < 10,
        digit_char(a) == digit_char(b),
    ensures
        a == b,
{
    assert(digit_char(a) as u32 == (48 + a) as u32);
    assert(digit_char(b) as u32 == (48 + b) as u32);
}

/// Different numbers have different decimal digits.
pub proof fn lemma_decimal_injective(a: nat, b: nat)
    requires
        decimal(a) == decimal(b),
    ensures
        a == b,
    decreases a,
{
    lemma_decimal_digits(a);
    lemma_decimal_digits(b);
    if a >= 10 && b >= 10 {
        let da = decimal(a);
        assert(da.drop_last() =~= decimal(a / 10));
        assert(decimal(b).drop_last() =~= decimal(b / 10));
        lemma_decimal_injective(a / 10, b / 10);
        assert(da.last() == digit_char((a % 10) as int));
        assert(decimal(b).last() == digit_char((b % 10) as int));
        lemma_digit_char_injective((a % 10) as int, (b % 10) as int);
    } else if a < 10 && b < 10 {
        assert(decimal(a)[0] == digit_char(a as int));
        assert(decimal(b)[0] == digit_char(b as int));
        lemma_digit_char_injective(a as int, b as int);
    } else {
        assert(decimal(a).len() == decimal(b).len());
    }
}

/// Text split at its first separator: when neither `a1` nor `a2` holds `c`,
/// `a1 c b1` and `a2 c b2` are equal only where the parts are.
pub proof fn lemma_split_at_separator(a1: Seq<char>, b1: Seq<char>, a2: Seq<char>, b2: Seq<char>, c: char)
    requires
        !a1.contains(c),
        !a2.contains(c),
        a1 + seq![c] + b1 == a2 + seq![c] + b2,
    ensures
        a1 == a2,
        b1 == b2,
{
    let s = a1 + seq![c] + b1;
    if a1.len() < a2.len() {
        assert(s[a1.len() as int] == c);
        assert((a2 + seq![c] + b2)[a1.len() as int] == a2[a1.len() as int]);
        assert(a2.contains(a2[a1.len() as int]));
    } else if a2.len() < a1.len() {
        assert((a2 + seq![c] + b2)[a2.len() as int] == c);
        assert(s[a2.len() as int] == a1[a2.len() as int]);
        assert(a1.contains(a1[a2.len() as int]));
    }
    assert(a1 =~= s.take(a1.len() as int));
    assert(a2 =~= (a2 + seq![c] + b2).take(a2.len() as int));
    assert(b1 =~= s.skip(a1.len() as int + 1));
    assert(b2 =~= (a2 + seq![c] + b2).skip(a2.len() as int + 1));
}

pub fn u64_decimal(n: u64) -> (r: Vec<char>)
    ensures
        r@ == decimal(n as nat),
    decreases n,
{
    if n < 10 {
        let mut r: Vec<char> = Vec::new();
        r.push((48 + n as u8) as char);
        assert(r@ =~= decimal(n as nat));
        r
    } else {
        let mut r = u64_decimal(n / 10);
        let d = (n % 10) as u8;
        r.push((48 + d) as char);
        assert(r@ =~= decimal(n as nat));
        r
    }
}

/// Signed decimal of `n` (a leading `-` for negatives).
pub open spec fn signed_decimal(n: int) -> Seq<char> {
    if n < 0 {
        seq!['-'] + decimal((-n) as nat)
    } else {
        decimal(n as nat)
    }
}

pub fn i64_decimal(n: i64) -> (r: Vec<char>)
    ensures
        r@ == signed_decimal(n as int),
{
    if n < 0 {
        let m: u64 = if n == i64::MIN {
            9223372036854775808u64
        } else {
            (-n) as u64
        };
        let d = u64_decimal(m);
        let mut r: Vec<char> = Vec::new();
        r.push('-');
        extend_chars(&mut r, d.as_slice());
        assert(r@ =~= signed_decimal(n as int));
        r
    } else {
        u64_decimal(n as u64)
    }
}

} // verus!

verus! {

/// Value of a run of ASCII digits (empty run: 0).
pub open spec fn digits_value(s: Seq<char>) -> nat
    decreases s.len(),
{
    if s.len() == 0 {
        0
    } else {
        digits_value(s.drop_last()) * 10 + ((s.last() as u32) - 48) as nat
    }
}

pub open spec fn all_ascii_digits(s: Seq<char>) -> bool {
    forall|i: int| 0 <= i < s.len() ==> is_ascii_digit(#[trigger] s[i])
}

/// `u32::from_str`: an optional `+`, then at least one ASCII digit, with a
/// value that fits.
pub open spec fn spec_parse_u32(s: Seq<char>) -> Option<u32> {
    let d = if s.len() > 0 && s[0] == '+' {
        s.drop_first()
    } else {
        s
    };
    if d.len() > 0 && all_ascii_digits(d) && digits_value(d) <= u32::MAX {
        Some(digits_value(d) as u32)
    } else {
        None
    }
}

pub fn parse_u32(s: &[char]) -> (r: Option<u32>)
    ensures
        r == spec_parse_u32(s@),
{
    let start: usize = if s.len() > 0 && s[0] == '+' { 1 } else { 0 };
    let ghost d = if s@.len() > 0 && s@[0] == '+' { s@.drop_first() } else { s@ };
    assert(d =~= s@.subrange(start as int, s@.len() as int));
    if start >= s.len() {
        return None;
    }
    let mut v: u64 = 0;
    let mut i: usize = start;
    while i < s.len()
        invariant
            start <= i <= s.len(),
            d =~= s@.subrange(start as int, s@.len() as int),
            d == (if s@.len() > 0 && s@[0] == '+' { s@.drop_first() } else { s@ }),
            all_ascii_digits(d.take(i - start)),
            v as nat == digits_value(d.take(i - start)),
            v <= u32::MAX,
        decreases s.len() - i,
    {
        let c = s[i];
        assert(d.take(i - start + 1).drop_last() =~= d.take(i - start));
        assert(d.take(i - start + 1).last() == c);
        assert(d[i - start] == c);
        if c < '0' || c > '9' {
            assert(!is_ascii_digit(d[i - start]));
            assert(!all_ascii_digits(d));
            return None;
        }
        let next = v * 10 + ((c as u32) - 48) as u64;
        proof {
            let t = d.take(i - start + 1);
            assert(digits_value(t) == digits_value(t.drop_last()) * 10 + ((t.last() as u32) - 48) as nat);
            assert(digits_value(t) == next);
        }
        if next > u32::MAX as u64 {
            proof {
                if all_ascii_digits(d) {
                    lemma_digits_value_prefix_le(d, i - start + 1);
                }
            }
            return None;
        }
        v = next;
        i += 1;
    }
    assert(d.take(i - start) =~= d);
    Some(v as u32)
}

/// `i64::from_str`: an optional `+` or `-`, then at least one ASCII digit,
/// with a value that fits.
pub open spec fn spec_parse_i64(s: Seq<char>) -> Option<i64> {
    let signed = s.len() > 0 && (s[0] == '+' || s[0] == '-');
    let neg = s.len() > 0 && s[0] == '-';
    let d = if signed {
        s.drop_first()
    } else {
        s
    };
    if d.len() == 0 || !all_ascii_digits(d) {
        None
    } else if neg {
        if digits_value(d) <= 0x8000_0000_0000_0000 {
            Some((0 - digits_value(d)) as i64)
        } else {
            None
        }
    } else if digits_value(d) <= i64::MAX {
        Some(digits_value(d) as i64)
    } else {
        None
    }
}

pub fn parse_i64(s: &[char]) -> (r: Option<i64>)
    ensures
        r == spec_parse_i64(s@),
{
    let signed = s.len() > 0 && (s[0] == '+' || s[0] == '-');
    let neg = s.len() > 0 && s[0] == '-';
    let start: usize = if signed { 1 } else { 0 };
    let ghost d = if signed { s@.drop_first() } else { s@ };
    assert(d =~= s@.subrange(start as int, s@.len() as int));
    if start >= s.len() {
        return None;
    }
    let limit: u64 = if neg { 0x8000_0000_0000_0000 } else { 0x7fff_ffff_ffff_ffff };
    let mut v: u64 = 0;
    let mut i: usize = start;
    while i < s.len()
        invariant
            start <= i <= s.len(),
            d =~= s@.subrange(start as int, s@.len() as int),
            all_ascii_digits(d.take(i - start)),
            v as nat == digits_value(d.take(i - start)),
            v <= limit,
            signed == (s@.len() > 0 && (s@[0] == '+' || s@[0] == '-')),
            neg == (s@.len() > 0 && s@[0] == '-'),
            d == (if signed { s@.drop_first() } else { s@ }),
            limit == (if neg { 0x8000_0000_0000_0000u64 } else { 0x7fff_ffff_ffff_ffffu64 }),
        decreases s.len() - i,
    {
        let c = s[i];
        assert(d.take(i - start + 1).drop_last() =~= d.take(i - start));
        assert(d.take(i - start + 1).last() == c);
        assert(d[i - start] == c);
        if c < '0' || c > '9' {
            assert(!is_ascii_digit(d[i - start]));
            assert(!all_ascii_digits(d));
            return None;
        }
        let next: u128 = (v as u128) * 10 + ((c as u32) - 48) as u128;
        proof {
            let t = d.take(i - start + 1);
            assert(digits_value(t) == digits_value(t.drop_last()) * 10 + ((t.last() as u32) - 48) as nat);
            assert(digits_value(t) == next);
        }
        if next > limit as u128 {
            proof {
                if all_ascii_digits(d) {
                    lemma_digits_value_prefix_le(d, i - start + 1);
                }
            }
            return None;
        }
        v = next as u64;
        i += 1;
    }
    assert(d.take(i - start) =~= d);
    if neg {
        if v == 0x8000_0000_0000_0000u64 {
            Some(i64::MIN)
        } else {
            Some(0 - (v as i64))
        }
    } else {
        Some(v as i64)
    }
}

/// A prefix of a digit run has no larger value than the whole run.
pub proof fn lemma_digits_value_prefix_le(s: Seq<char>, k: int)
    requires
        0 <= k <= s.len(),
        all_ascii_digits(s),
    ensures
        digits_value(s.take(k)) <= digits_value(s),
    decreases s.len() - k,
{
    if k < s.len() {
        lemma_digits_value_prefix_le(s, k + 1);
        let t = s.take(k + 1);
        assert(t.drop_last() =~= s.take(k));
        assert(is_ascii_digit(t.last()));
    } else {
        assert(s.take(k) =~= s);
    }
}

} // verus!
