//! Magnet links and BitTorrent info hashes.
//!
//! An info hash is accepted as 40 hexadecimal digits or as 32 base32
//! characters (RFC 4648 alphabet, either case); both forms normalize to 40
//! lower-case hexadecimal digits.
use vstd::prelude::*;
use vstd::utf8::*;

use crate::text::{
    opt_str_view, opt_string_view,
    chars_eq, extend_chars, lemma_trim_idempotent, replace, replace_exec, starts_with,
    starts_with_exec, trim, trim_chars, trim_str,
    char_ci_eq, char_is_ascii_hex, char_is_ws, char_lower, chars_to_string, ci_eq, is_ascii_hex,
    is_ws, lower, lower_seq, slice_chars, str_chars, to_ascii_lower,
};

verus! {

broadcast use vstd::string::group_string_axioms;

// ---------------------------------------------------------------------------
// Percent-encoding (the `urlencoding` crate)
// ---------------------------------------------------------------------------

/// Bytes that `urlencoding::encode` leaves as they are.
pub open spec fn url_safe_byte(b: u8) -> bool {
    (48 <= b <= 57) || (65 <= b <= 90) || (97 <= b <= 122) || b == 45 || b == 46 || b == 95
        || b == 126
}

/// Upper-case hexadecimal digit of `v < 16`.
pub open spec fn hex_upper(v: u8) -> char {
    if v < 10 {
        ((48 + v) as u8) as char
    } else {
        ((55 + v) as u8) as char
    }
}

/// `urlencoding::encode` on the UTF-8 bytes of a string: every byte except
/// ASCII alphanumerics and `-`, `.`, `_`, `~` becomes `%XX` (upper-case hex).
pub open spec fn pct_encode(b: Seq<u8>) -> Seq<char>
    decreases b.len(),
{
    if b.len() == 0 {
        Seq::empty()
    } else {
        let head = b[0];
        let enc = if url_safe_byte(head) {
            seq![head as char]
        } else {
            seq!['%', hex_upper(head / 16), hex_upper(head % 16)]
        };
        enc + pct_encode(b.drop_first())
    }
}

/// Value of an ASCII hexadecimal digit byte, as `urlencoding` reads it.
pub open spec fn hex_value(b: u8) -> Option<u8> {
    if 48 <= b <= 57 {
        Some((b - 48) as u8)
    } else if 65 <= b <= 70 {
        Some((b - 55) as u8)
    } else if 97 <= b <= 102 {
        Some((b - 87) as u8)
    } else {
        None
    }
}

/// `urlencoding::decode_binary`: `%XX` with two hex digits becomes one byte;
/// a `%` not followed by two hex digits stays as it is; `+` is kept.
pub open spec fn pct_decode(b: Seq<u8>) -> Seq<u8>
    decreases b.len(),
{
    if b.len() == 0 {
        Seq::empty()
    } else if b[0] != 37 {
        seq![b[0]] + pct_decode(b.drop_first())
    } else {
        let rest = b.drop_first();
        if rest.len() < 2 {
            seq![37u8] + rest
        } else {
            match (hex_value(rest[0]), hex_value(rest[1])) {
                (Some(hi), Some(lo)) => seq![(hi * 16 + lo) as u8] + pct_decode(rest.skip(2)),
                (Some(_), None) => seq![37u8, rest[0]] + pct_decode(rest.drop_first()),
                _ => seq![37u8] + pct_decode(rest),
            }
        }
    }
}

/// `urlencoding::encode(s)`: see `pct_encode`.
#[verifier::external_body]
pub(crate) fn url_encode(s: &str) -> (r: String)
    ensures
        r@ == pct_encode(encode_utf8(s@)),
{
    urlencoding::encode(s).into_owned()
}

/// `urlencoding::decode(s)`: the percent-decoded bytes (see `pct_decode`),
/// read as UTF-8; `None` where they are not valid UTF-8.
#[verifier::external_body]
fn url_decode(s: &str) -> (r: Option<String>)
    ensures
        match r {
            Some(v) => valid_utf8(pct_decode(encode_utf8(s@))) && v@ == decode_utf8(
                pct_decode(encode_utf8(s@)),
            ),
            None => !valid_utf8(pct_decode(encode_utf8(s@))),
        },
{
    urlencoding::decode(s).ok().map(|c| c.into_owned())
}

/// Percent-encodes a character sequence.
pub fn percent_encode(s: &[char]) -> (r: Vec<char>)
    ensures
        r@ == pct_encode(encode_utf8(s@)),
{
    let st = chars_to_string(s);
    let e = url_encode(st.as_str());
    str_chars(e.as_str())
}

// ---------------------------------------------------------------------------
// base32 → hex
// ---------------------------------------------------------------------------

/// Position of `c` in the base32 alphabet `abcdefghijklmnopqrstuvwxyz234567`
/// after `to_ascii_lowercase` and truncation to a byte (`as u8`).
pub open spec fn base32_index(c: char) -> Option<int> {
    let b = (lower(c) as u32) % 256;
    if 97 <= b <= 122 {
        Some(b - 97)
    } else if 50 <= b <= 55 {
        Some(b - 50 + 26)
    } else {
        None
    }
}

pub open spec fn all_base32(s: Seq<char>) -> bool {
    forall|i: int| 0 <= i < s.len() ==> (#[trigger] base32_index(s[i])) is Some
}

/// Bit `p` (0 = most significant of five) of the 5-bit value `v`.
pub open spec fn bit_of(v: int, p: int) -> u8 {
    if p == 0 {
        ((v / 16) % 2) as u8
    } else if p == 1 {
        ((v / 8) % 2) as u8
    } else if p == 2 {
        ((v / 4) % 2) as u8
    } else if p == 3 {
        ((v / 2) % 2) as u8
    } else {
        (v % 2) as u8
    }
}

pub open spec fn five_bits(v: int) -> Seq<u8> {
    seq![bit_of(v, 0), bit_of(v, 1), bit_of(v, 2), bit_of(v, 3), bit_of(v, 4)]
}

/// The bit string of a base32 text, five bits per character, most
/// significant first.
pub open spec fn base32_bits(s: Seq<char>) -> Seq<u8>
    decreases s.len(),
{
    if s.len() == 0 {
        Seq::empty()
    } else {
        base32_bits(s.drop_last()) + five_bits(base32_index(s.last()).unwrap_or(0))
    }
}

pub proof fn lemma_base32_bits_len(s: Seq<char>)
    ensures
        base32_bits(s).len() == 5 * s.len(),
        forall|k: int| 0 <= k < base32_bits(s).len() ==> #[trigger] base32_bits(s)[k] <= 1,
    decreases s.len(),
{
    if s.len() > 0 {
        lemma_base32_bits_len(s.drop_last());
    }
}

/// Lower-case hexadecimal digit of `v < 16`.
pub open spec fn hex_lower(v: int) -> char {
    if v < 10 {
        ((48 + v) as u8) as char
    } else {
        ((87 + v) as u8) as char
    }
}

/// The value of the `k`-th group of four bits.
pub open spec fn nibble(bits: Seq<u8>, k: int) -> int {
    8 * bits[4 * k] + 4 * bits[4 * k + 1] + 2 * bits[4 * k + 2] + bits[4 * k + 3]
}

/// The hexadecimal digits of a bit string, four bits per digit.
pub open spec fn bits_to_hex(bits: Seq<u8>) -> Seq<char> {
    Seq::new(bits.len() / 4, |k: int| hex_lower(nibble(bits, k)))
}

/// A base32 info hash (32 characters, 160 bits) as 40 lower-case hex digits.
pub open spec fn spec_base32_to_hex(s: Seq<char>) -> Option<Seq<char>> {
    if all_base32(s) && s.len() == 32 {
        Some(bits_to_hex(base32_bits(s)))
    } else {
        None
    }
}

fn base32_index_exec(c: char) -> (r: Option<u8>)
    ensures
        match r {
            Some(v) => base32_index(c) == Some(v as int) && v < 32,
            None => base32_index(c) is None,
        },
{
    let l = char_lower(c);
    let b = l as u32 % 256;
    if 97 <= b && b <= 122 {
        Some((b - 97) as u8)
    } else if 50 <= b && b <= 55 {
        Some((b - 50 + 26) as u8)
    } else {
        None
    }
}

fn hex_lower_exec(v: u8) -> (c: char)
    requires
        v < 16,
    ensures
        c == hex_lower(v as int),
{
    if v < 10 {
        (48 + v) as char
    } else {
        (87 + v) as char
    }
}

/// Decodes a base32 info hash to hex; `None` unless every character is in
/// the base32 alphabet and there are exactly 32 of them.
pub fn base32_to_hex(input: &[char]) -> (r: Option<Vec<char>>)
    ensures
        match r {
            Some(v) => spec_base32_to_hex(input@) == Some(v@),
            None => spec_base32_to_hex(input@) is None,
        },
{
    let mut bits: Vec<u8> = Vec::new();
    let mut i: usize = 0;
    while i < input.len()
        invariant
            i <= input.len(),
            all_base32(input@.take(i as int)),
            bits@ == base32_bits(input@.take(i as int)),
        decreases input.len() - i,
    {
        let idx = match base32_index_exec(input[i]) {
            Some(v) => v,
            None => {
                assert(!all_base32(input@)) by {
                    assert(base32_index(input@[i as int]) is None);
                }
                return None;
            },
        };
        let ghost before = input@.take(i as int);
        bits.push(idx / 16 % 2);
        bits.push(idx / 8 % 2);
        bits.push(idx / 4 % 2);
        bits.push(idx / 2 % 2);
        bits.push(idx % 2);
        proof {
            let next = input@.take(i + 1);
            assert(next.drop_last() =~= before);
            assert(next.last() == input@[i as int]);
            assert(bits@ =~= base32_bits(before) + five_bits(idx as int));
            assert forall|k: int| 0 <= k < next.len() implies (#[trigger] base32_index(
                next[k],
            )) is Some by {
                if k < i {
                    assert(next[k] == before[k]);
                }
            }
        }
        i += 1;
    }
    assert(input@.take(input.len() as int) =~= input@);
    proof {
        lemma_base32_bits_len(input@);
    }
    let count = bits.len() / 4;
    if count != 40 {
        assert(input@.len() != 32);
        return None;
    }
    assert(input@.len() == 32) by (nonlinear_arith)
        requires
            count == 40,
            count == bits@.len() / 4,
            bits@.len() == 5 * input@.len(),
    ;
    let mut hex: Vec<char> = Vec::new();
    let mut k: usize = 0;
    while k < count
        invariant
            count == 40,
            bits@.len() == 160,
            bits@ == base32_bits(input@),
            forall|m: int| 0 <= m < bits@.len() ==> #[trigger] bits@[m] <= 1,
            k <= count,
            hex@ == bits_to_hex(bits@).take(k as int),
        decreases count - k,
    {
        let b0 = bits[4 * k];
        let b1 = bits[4 * k + 1];
        let b2 = bits[4 * k + 2];
        let b3 = bits[4 * k + 3];
        let v = 8 * b0 + 4 * b1 + 2 * b2 + b3;
        hex.push(hex_lower_exec(v));
        assert(hex@ =~= bits_to_hex(bits@).take(k + 1));
        k += 1;
    }
    assert(hex@ =~= bits_to_hex(bits@));
    Some(hex)
}

// ---------------------------------------------------------------------------
// Info hashes
// ---------------------------------------------------------------------------

/// Characters of `[a-z2-7]` under `(?i)`.
pub open spec fn base32_class(c: char) -> bool {
    ||| ('a' <= c && c <= 'z')
    ||| ('A' <= c && c <= 'Z')
    ||| ('2' <= c && c <= '7')
    ||| c == '\u{212a}'
    ||| c == '\u{17f}'
}

fn base32_class_exec(c: char) -> (b: bool)
    ensures
        b == base32_class(c),
{
    ('a' <= c && c <= 'z') || ('A' <= c && c <= 'Z') || ('2' <= c && c <= '7') || c
        == '\u{212a}' || c == '\u{17f}'
}

pub open spec fn all_hex(s: Seq<char>) -> bool {
    forall|i: int| 0 <= i < s.len() ==> is_ascii_hex(#[trigger] s[i])
}

pub open spec fn all_base32_class(s: Seq<char>) -> bool {
    forall|i: int| 0 <= i < s.len() ==> base32_class(#[trigger] s[i])
}

fn all_hex_exec(s: &[char]) -> (b: bool)
    ensures
        b == all_hex(s@),
{
    let mut i: usize = 0;
    while i < s.len()
        invariant
            i <= s.len(),
            forall|k: int| 0 <= k < i ==> is_ascii_hex(#[trigger] s@[k]),
        decreases s.len() - i,
    {
        if !char_is_ascii_hex(s[i]) {
            return false;
        }
        i += 1;
    }
    true
}

fn all_base32_class_exec(s: &[char]) -> (b: bool)
    ensures
        b == all_base32_class(s@),
{
    let mut i: usize = 0;
    while i < s.len()
        invariant
            i <= s.len(),
            forall|k: int| 0 <= k < i ==> base32_class(#[trigger] s@[k]),
        decreases s.len() - i,
    {
        if !base32_class_exec(s[i]) {
            return false;
        }
        i += 1;
    }
    true
}

/// The characters kept when an info hash is compacted: whitespace and `-`
/// are dropped.
pub open spec fn hash_keep(c: char) -> bool {
    !is_ws(c) && c != '-'
}

pub open spec fn compact_hash(s: Seq<char>) -> Seq<char> {
    s.filter(|c: char| hash_keep(c))
}

/// Normalized info hash of a pasted value: 40 hex digits (lower-cased) or
/// 32 base32 characters (decoded), after dropping whitespace and dashes.
pub open spec fn spec_normalize_info_hash(input: Seq<char>) -> Option<Seq<char>> {
    let c = compact_hash(input);
    if c.len() == 40 && all_hex(c) {
        Some(lower_seq(c))
    } else if c.len() == 32 && all_base32_class(c) {
        spec_base32_to_hex(c)
    } else {
        None
    }
}

fn compact_hash_exec(s: &[char]) -> (r: Vec<char>)
    ensures
        r@ == compact_hash(s@),
{
    let mut r: Vec<char> = Vec::new();
    let mut i: usize = 0;
    while i < s.len()
        invariant
            i <= s.len(),
            r@ == compact_hash(s@.take(i as int)),
        decreases s.len() - i,
    {
        let c = s[i];
        proof {
            let next = s@.take(i + 1);
            assert(next.drop_last() =~= s@.take(i as int));
            reveal_with_fuel(Seq::filter, 1);
        }
        if !char_is_ws(c) && c != '-' {
            r.push(c);
        }
        i += 1;
    }
    assert(s@.take(s.len() as int) =~= s@);
    r
}

pub fn normalize_info_hash_chars(input: &[char]) -> (r: Option<Vec<char>>)
    ensures
        match r {
            Some(v) => spec_normalize_info_hash(input@) == Some(v@),
            None => spec_normalize_info_hash(input@) is None,
        },
{
    let compact = compact_hash_exec(input);
    if compact.len() == 40 && all_hex_exec(compact.as_slice()) {
        return Some(to_ascii_lower(compact.as_slice()));
    }
    if compact.len() == 32 && all_base32_class_exec(compact.as_slice()) {
        return base32_to_hex(compact.as_slice());
    }
    None
}

/// Normalizes a pasted info hash to 40 lower-case hex digits.
pub fn normalize_info_hash(input: &str) -> (r: Option<String>)
    ensures
        match r {
            Some(v) => spec_normalize_info_hash(input@) == Some(v@),
            None => spec_normalize_info_hash(input@) is None,
        },
{
    let v = str_chars(input);
    match normalize_info_hash_chars(v.as_slice()) {
        Some(h) => Some(chars_to_string(h.as_slice())),
        None => None,
    }
}

// ---------------------------------------------------------------------------
// Magnet links
// ---------------------------------------------------------------------------

/// `lit` (lower-case ASCII) occurs at `i` in `s`, ignoring case as `(?i)` does.
pub open spec fn ci_at(s: Seq<char>, lit: Seq<char>, i: int) -> bool {
    0 <= i && i + lit.len() <= s.len() && forall|k: int|
        0 <= k < lit.len() ==> ci_eq(#[trigger] s[i + k], lit[k])
}

pub fn ci_at_exec(s: &[char], lit: &[char], i: usize) -> (b: bool)
    ensures
        b == ci_at(s@, lit@, i as int),
{
    if i > s.len() || lit.len() > s.len() - i {
        return false;
    }
    let mut k: usize = 0;
    while k < lit.len()
        invariant
            i + lit.len() <= s.len(),
            k <= lit.len(),
            forall|m: int| 0 <= m < k ==> ci_eq(#[trigger] s@[i + m], lit@[m]),
        decreases lit.len() - k,
    {
        if !char_ci_eq(s[i + k], lit[k]) {
            return false;
        }
        k += 1;
    }
    true
}

pub open spec fn btih_prefix() -> Seq<char> {
    seq!['x', 't', '=', 'u', 'r', 'n', ':', 'b', 't', 'i', 'h', ':']
}

/// The hash captured by `(?i)xt=urn:btih:([a-f0-9]{40}|[a-z2-7]{32})` when
/// a match starts at `i`.
pub open spec fn btih_at(s: Seq<char>, i: int) -> Option<Seq<char>> {
    let j = i + 12;
    if !ci_at(s, btih_prefix(), i) {
        None
    } else if j + 40 <= s.len() && all_hex(s.subrange(j, j + 40)) {
        Some(s.subrange(j, j + 40))
    } else if j + 32 <= s.len() && all_base32_class(s.subrange(j, j + 32)) {
        Some(s.subrange(j, j + 32))
    } else {
        None
    }
}

/// The leftmost match at or after `i`.
pub open spec fn first_btih(s: Seq<char>, i: int) -> Option<Seq<char>>
    decreases s.len() + 1 - i,
{
    if i < 0 || i > s.len() {
        None
    } else if btih_at(s, i) is Some {
        btih_at(s, i)
    } else {
        first_btih(s, i + 1)
    }
}

/// Info hash of a magnet link: the first `xt=urn:btih:` value; a value of
/// 40 UTF-8 bytes is lower-cased, any other is decoded as base32.
pub open spec fn spec_parse_magnet_hash(magnet: Seq<char>) -> Option<Seq<char>> {
    match first_btih(magnet, 0) {
        None => None,
        Some(h) => if encode_utf8(h).len() == 40 {
            Some(lower_seq(h))
        } else {
            spec_base32_to_hex(h)
        },
    }
}

fn btih_at_exec(s: &[char], i: usize) -> (r: Option<Vec<char>>)
    ensures
        match r {
            Some(v) => btih_at(s@, i as int) == Some(v@),
            None => btih_at(s@, i as int) is None,
        },
{
    let prefix: [char; 12] = ['x', 't', '=', 'u', 'r', 'n', ':', 'b', 't', 'i', 'h', ':'];
    assert(prefix@ =~= btih_prefix());
    if !ci_at_exec(s, &prefix, i) {
        return None;
    }
    assert(i + 12 <= s.len());
    let j = i + 12;
    if j <= s.len() && 40 <= s.len() - j {
        let cand = slice_chars(s, j, j + 40);
        if all_hex_exec(cand.as_slice()) {
            return Some(cand);
        }
    }
    if j <= s.len() && 32 <= s.len() - j {
        let cand = slice_chars(s, j, j + 32);
        if all_base32_class_exec(cand.as_slice()) {
            return Some(cand);
        }
    }
    None
}

pub fn parse_magnet_hash_chars(magnet: &[char]) -> (r: Option<Vec<char>>)
    ensures
        match r {
            Some(v) => spec_parse_magnet_hash(magnet@) == Some(v@),
            None => spec_parse_magnet_hash(magnet@) is None,
        },
{
    let mut i: usize = 0;
    loop
        invariant
            i <= magnet.len(),
            first_btih(magnet@, i as int) == first_btih(magnet@, 0),
        decreases magnet.len() - i,
    {
        match btih_at_exec(magnet, i) {
            Some(h) => {
                let hs = chars_to_string(h.as_slice());
                if hs.as_str().as_bytes().len() == 40 {
                    return Some(to_ascii_lower(h.as_slice()));
                } else {
                    return base32_to_hex(h.as_slice());
                }
            },
            None => {},
        }
        if i == magnet.len() {
            assert(first_btih(magnet@, i + 1) is None);
            return None;
        }
        i += 1;
    }
}

/// Info hash of a magnet link (40 lower-case hex digits).
pub fn parse_magnet_hash(magnet: &str) -> (r: Option<String>)
    ensures
        match r {
            Some(v) => spec_parse_magnet_hash(magnet@) == Some(v@),
            None => spec_parse_magnet_hash(magnet@) is None,
        },
{
    let v = str_chars(magnet);
    match parse_magnet_hash_chars(v.as_slice()) {
        Some(h) => Some(chars_to_string(h.as_slice())),
        None => None,
    }
}

} // verus!

verus! {

/// `(?i)dn=([^&]+)` matches at `i`.
pub open spec fn dn_at(s: Seq<char>, i: int) -> bool {
    ci_at(s, seq!['d', 'n', '='], i) && i + 3 < s.len() && s[i + 3] != '&'
}

/// Leftmost start of a `dn=` match at or after `i`.
pub open spec fn first_dn(s: Seq<char>, i: int) -> Option<int>
    decreases s.len() + 1 - i,
{
    if i < 0 || i > s.len() {
        None
    } else if dn_at(s, i) {
        Some(i)
    } else {
        first_dn(s, i + 1)
    }
}

/// Index of the first `&` at or after `j` (or the end).
pub open spec fn amp_from(s: Seq<char>, j: int) -> int
    decreases s.len() - j,
{
    if j < 0 || j >= s.len() || s[j] == '&' {
        j
    } else {
        amp_from(s, j + 1)
    }
}

pub proof fn lemma_amp_from(s: Seq<char>, j: int)
    requires
        0 <= j <= s.len(),
    ensures
        j <= amp_from(s, j) <= s.len(),
    decreases s.len() - j,
{
    if j < s.len() && s[j] != '&' {
        lemma_amp_from(s, j + 1);
    }
}

/// Percent-decoding that falls back to the text itself when the decoded
/// bytes are not UTF-8.
pub open spec fn decode_or_keep(raw: Seq<char>) -> Seq<char> {
    let bytes = pct_decode(encode_utf8(raw));
    if valid_utf8(bytes) {
        decode_utf8(bytes)
    } else {
        raw
    }
}

/// Display name (`dn=`) of a magnet link: `+` read as a space, then
/// percent-decoded.
pub open spec fn spec_parse_magnet_name(magnet: Seq<char>) -> Option<Seq<char>> {
    match first_dn(magnet, 0) {
        None => None,
        Some(i) => Some(
            decode_or_keep(
                replace(magnet.subrange(i + 3, amp_from(magnet, i + 3)), seq!['+'], seq![' ']),
            ),
        ),
    }
}

pub fn parse_magnet_name_chars(magnet: &[char]) -> (r: Option<Vec<char>>)
    ensures
        match r {
            Some(v) => spec_parse_magnet_name(magnet@) == Some(v@),
            None => spec_parse_magnet_name(magnet@) is None,
        },
{
    let dn: [char; 3] = ['d', 'n', '='];
    assert(dn@ =~= seq!['d', 'n', '=']);
    let mut i: usize = 0;
    loop
        invariant
            i <= magnet.len(),
            first_dn(magnet@, i as int) == first_dn(magnet@, 0),
            dn@ == seq!['d', 'n', '='],
        decreases magnet.len() - i,
    {
        if ci_at_exec(magnet, &dn, i) && i + 3 < magnet.len() && magnet[i + 3] != '&' {
            let start = i + 3;
            let mut end = start;
            while end < magnet.len() && magnet[end] != '&'
                invariant
                    start <= end <= magnet.len(),
                    amp_from(magnet@, end as int) == amp_from(magnet@, start as int),
                decreases magnet.len() - end,
            {
                end += 1;
            }
            let value = slice_chars(magnet, start, end);
            let plus: [char; 1] = ['+'];
            let space: [char; 1] = [' '];
            assert(plus@ =~= seq!['+']);
            assert(space@ =~= seq![' ']);
            let raw = replace_exec(value.as_slice(), &plus, &space);
            let raw_s = chars_to_string(raw.as_slice());
            match url_decode(raw_s.as_str()) {
                Some(d) => {
                    return Some(str_chars(d.as_str()));
                },
                None => {
                    return Some(raw);
                },
            }
        }
        if i == magnet.len() {
            assert(first_dn(magnet@, i + 1) is None);
            return None;
        }
        i += 1;
    }
}

/// Display name of a magnet link.
pub fn parse_magnet_name(magnet: &str) -> (r: Option<String>)
    ensures
        opt_string_view(r) == spec_parse_magnet_name(magnet@),
{
    let v = str_chars(magnet);
    match parse_magnet_name_chars(v.as_slice()) {
        Some(n) => Some(chars_to_string(n.as_slice())),
        None => None,
    }
}

pub open spec fn magnet_prefix() -> Seq<char> {
    seq!['m', 'a', 'g', 'n', 'e', 't', ':', '?', 'x', 't', '=', 'u', 'r', 'n', ':', 'b', 't', 'i', 'h', ':']
}

/// `magnet:?xt=urn:btih:<hash>`, followed by `&dn=<percent-encoded name>`
/// when a non-blank name is given (the name is trimmed first).
pub open spec fn spec_build_magnet(info_hash: Seq<char>, name: Option<Seq<char>>) -> Seq<char> {
    let base = magnet_prefix() + info_hash;
    match name {
        Some(n) => if trim(n).len() > 0 {
            base + seq!['&', 'd', 'n', '='] + pct_encode(encode_utf8(trim(n)))
        } else {
            base
        },
        None => base,
    }
}

pub fn build_magnet_chars(info_hash: &[char], name: Option<&[char]>) -> (r: Vec<char>)
    ensures
        r@ == spec_build_magnet(
            info_hash@,
            match name {
                Some(n) => Some(n@),
                None => None,
            },
        ),
{
    let prefix: [char; 20] = [
        'm', 'a', 'g', 'n', 'e', 't', ':', '?', 'x', 't', '=', 'u', 'r', 'n', ':', 'b', 't', 'i', 'h', ':',
    ];
    assert(prefix@ =~= magnet_prefix());
    let mut uri: Vec<char> = Vec::new();
    extend_chars(&mut uri, &prefix);
    extend_chars(&mut uri, info_hash);
    match name {
        Some(n) => {
            let t = trim_chars(n);
            if t.len() > 0 {
                let dn: [char; 4] = ['&', 'd', 'n', '='];
                assert(dn@ =~= seq!['&', 'd', 'n', '=']);
                extend_chars(&mut uri, &dn);
                let enc = percent_encode(t.as_slice());
                extend_chars(&mut uri, enc.as_slice());
                assert(uri@ =~= magnet_prefix() + info_hash@ + seq!['&', 'd', 'n', '='] + pct_encode(
                    encode_utf8(trim(n@)),
                ));
            }
        },
        None => {},
    }
    uri
}

/// Builds a magnet link from an info hash and an optional display name.
pub fn build_magnet(info_hash: &str, name: Option<&str>) -> (r: String)
    ensures
        r@ == spec_build_magnet(info_hash@, opt_str_view(name)),
{
    let h = str_chars(info_hash);
    match name {
        Some(n) => {
            let nv = str_chars(n);
            let r = build_magnet_chars(h.as_slice(), Some(nv.as_slice()));
            chars_to_string(r.as_slice())
        },
        None => {
            let r = build_magnet_chars(h.as_slice(), None);
            chars_to_string(r.as_slice())
        },
    }
}

/// A magnet link or info hash as entered by a user.
#[derive(Debug, Clone)]
pub struct ParsedDownloadInput {
    pub magnet_uri: String,
    pub info_hash: String,
    pub name: Option<String>,
}

impl ParsedDownloadInput {
    pub open spec fn spec_view(&self) -> (Seq<char>, Seq<char>, Option<Seq<char>>) {
        (self.magnet_uri@, self.info_hash@, opt_string_view(self.name))
    }
}

pub open spec fn nonempty(o: Option<Seq<char>>) -> Option<Seq<char>> {
    match o {
        Some(s) => if s.len() > 0 {
            Some(s)
        } else {
            None
        },
        None => None,
    }
}

pub open spec fn trim_opt(o: Option<Seq<char>>) -> Option<Seq<char>> {
    match o {
        Some(s) => Some(trim(s)),
        None => None,
    }
}

pub open spec fn magnet_scheme() -> Seq<char> {
    seq!['m', 'a', 'g', 'n', 'e', 't', ':', '?']
}

/// The download a user's input describes.
///
/// - Blank input is refused.
/// - Input starting with `magnet:?` (after trimming) is kept as the magnet
///   link; its info hash must parse, and its name is the link's `dn=` value,
///   else the given name (trimmed); a blank name is dropped.
/// - Any other input must be an info hash; the magnet link is built from the
///   normalized hash and the given name (trimmed, dropped when blank).
pub open spec fn spec_parse_download_input(input: Seq<char>, name: Option<Seq<char>>) -> Option<
    (Seq<char>, Seq<char>, Option<Seq<char>>),
> {
    let t = trim(input);
    if t.len() == 0 {
        None
    } else if starts_with(t, magnet_scheme()) {
        match spec_parse_magnet_hash(t) {
            None => None,
            Some(h) => {
                let display = match spec_parse_magnet_name(t) {
                    Some(n) => Some(n),
                    None => trim_opt(name),
                };
                Some((t, h, nonempty(display)))
            },
        }
    } else {
        match spec_normalize_info_hash(t) {
            None => None,
            Some(h) => {
                let display = nonempty(trim_opt(name));
                Some((spec_build_magnet(h, display), h, display))
            },
        }
    }
}

pub open spec fn opt_parsed_view(r: Option<ParsedDownloadInput>) -> Option<
    (Seq<char>, Seq<char>, Option<Seq<char>>),
> {
    match r {
        Some(p) => Some(p.spec_view()),
        None => None,
    }
}

/// Parses a magnet link or bare info hash entered by a user.
pub fn parse_download_input(input: &str, name: Option<&str>) -> (r: Option<ParsedDownloadInput>)
    ensures
        opt_parsed_view(r) == spec_parse_download_input(input@, opt_str_view(name)),
{
    let trimmed = trim_str(input);
    if trimmed.len() == 0 {
        return None;
    }
    let scheme: [char; 8] = ['m', 'a', 'g', 'n', 'e', 't', ':', '?'];
    assert(scheme@ =~= magnet_scheme());
    let trimmed_name: Option<Vec<char>> = match name {
        Some(n) => Some(trim_str(n)),
        None => None,
    };
    let ghost tn = trim_opt(opt_str_view(name));
    assert(match trimmed_name {
        Some(v) => tn == Some(v@),
        None => tn is None,
    });
    if starts_with_exec(trimmed.as_slice(), &scheme) {
        let info_hash = match parse_magnet_hash_chars(trimmed.as_slice()) {
            Some(h) => h,
            None => {
                return None;
            },
        };
        let display = match parse_magnet_name_chars(trimmed.as_slice()) {
            Some(n) => Some(n),
            None => trimmed_name,
        };
        let name_out = match display {
            Some(d) => if d.len() > 0 {
                Some(chars_to_string(d.as_slice()))
            } else {
                None
            },
            None => None,
        };
        return Some(
            ParsedDownloadInput {
                magnet_uri: chars_to_string(trimmed.as_slice()),
                info_hash: chars_to_string(info_hash.as_slice()),
                name: name_out,
            },
        );
    }
    let info_hash = match normalize_info_hash_chars(trimmed.as_slice()) {
        Some(h) => h,
        None => {
            return None;
        },
    };
    let display: Option<Vec<char>> = match trimmed_name {
        Some(d) => if d.len() > 0 {
            Some(d)
        } else {
            None
        },
        None => None,
    };
    let uri = match &display {
        Some(d) => build_magnet_chars(info_hash.as_slice(), Some(d.as_slice())),
        None => build_magnet_chars(info_hash.as_slice(), None),
    };
    proof {
        // a trimmed name trims to itself
        if let Some(d) = &display {
            lemma_trim_idempotent(opt_str_view(name).unwrap());
        }
    }
    let name_out = match display {
        Some(d) => Some(chars_to_string(d.as_slice())),
        None => None,
    };
    Some(
        ParsedDownloadInput {
            magnet_uri: chars_to_string(uri.as_slice()),
            info_hash: chars_to_string(info_hash.as_slice()),
            name: name_out,
        },
    )
}

} // verus!

verus! {

/// An info hash as the library stores it: 40 lower-case hexadecimal digits.
pub open spec fn is_stored_hash(h: Seq<char>) -> bool {
    h.len() == 40 && forall|i: int| 0 <= i < h.len() ==> (('0' <= #[trigger] h[i] && h[i] <= '9') || (
    'a' <= h[i] && h[i] <= 'f'))
}

/// ASCII text takes one UTF-8 byte per character.
pub proof fn lemma_ascii_utf8_len(s: Seq<char>)
    requires
        forall|i: int| 0 <= i < s.len() ==> (#[trigger] s[i] as u32) < 128,
    ensures
        encode_utf8(s).len() == s.len(),
    decreases s.len(),
{
    if s.len() > 0 {
        assert((s[0] as u32) < 128);
        assert(vstd::utf8::encode_scalar(s[0] as u32).len() == 1);
        assert forall|i: int| 0 <= i < s.drop_first().len() implies (#[trigger] s.drop_first()[i] as u32) < 128 by {
            assert(s.drop_first()[i] == s[i + 1]);
        }
        lemma_ascii_utf8_len(s.drop_first());
    }
}

/// Dropping whitespace and dashes leaves a text without any unchanged.
proof fn lemma_compact_keeps_all(s: Seq<char>)
    requires
        forall|i: int| 0 <= i < s.len() ==> hash_keep(#[trigger] s[i]),
    ensures
        compact_hash(s) == s,
    decreases s.len(),
{
    reveal_with_fuel(Seq::filter, 1);
    if s.len() > 0 {
        assert forall|i: int| 0 <= i < s.drop_last().len() implies hash_keep(#[trigger] s.drop_last()[i]) by {
            assert(s.drop_last()[i] == s[i]);
        }
        lemma_compact_keeps_all(s.drop_last());
        assert(hash_keep(s.last()));
        assert(s.drop_last().push(s.last()) =~= s);
    }
}

/// A stored info hash normalizes to itself.
pub proof fn lemma_stored_hash_normalizes(h: Seq<char>)
    requires
        is_stored_hash(h),
    ensures
        spec_normalize_info_hash(h) == Some(h),
{
    assert forall|i: int| 0 <= i < h.len() implies hash_keep(#[trigger] h[i]) by {
        assert(('0' <= h[i] && h[i] <= '9') || ('a' <= h[i] && h[i] <= 'f'));
    }
    lemma_compact_keeps_all(h);
    assert forall|i: int| 0 <= i < h.len() implies is_ascii_hex(#[trigger] h[i]) by {
        assert(('0' <= h[i] && h[i] <= '9') || ('a' <= h[i] && h[i] <= 'f'));
    }
    assert(lower_seq(h) =~= h);
}

/// A four-bit group of a bit string of zeros and ones is below 16.
proof fn lemma_nibble_range(bits: Seq<u8>, k: int)
    requires
        0 <= k,
        4 * k + 3 < bits.len(),
        forall|j: int| 0 <= j < bits.len() ==> #[trigger] bits[j] <= 1,
    ensures
        0 <= nibble(bits, k) < 16,
{
    assert(bits[4 * k] <= 1);
    assert(bits[4 * k + 1] <= 1);
    assert(bits[4 * k + 2] <= 1);
    assert(bits[4 * k + 3] <= 1);
}

/// A normalized info hash is 40 lower-case hexadecimal digits, and
/// normalizing it again gives it back: the hash a download is stored under
/// does not depend on how it was pasted.
pub proof fn law_normalized_hash_is_stable(input: Seq<char>)
    requires
        spec_normalize_info_hash(input) is Some,
    ensures
        is_stored_hash(spec_normalize_info_hash(input)->0),
        spec_normalize_info_hash(spec_normalize_info_hash(input)->0) == spec_normalize_info_hash(input),
{
    let c = compact_hash(input);
    let h = spec_normalize_info_hash(input)->0;
    if c.len() == 40 && all_hex(c) {
        assert(h == lower_seq(c));
        assert forall|i: int| 0 <= i < h.len() implies (('0' <= #[trigger] h[i] && h[i] <= '9') || (
        'a' <= h[i] && h[i] <= 'f')) by {
            assert(h[i] == lower(c[i]));
            assert(is_ascii_hex(c[i]));
        }
    } else {
        let bits = base32_bits(c);
        lemma_base32_bits_len(c);
        assert(h == bits_to_hex(bits));
        assert(h.len() == 40);
        assert forall|i: int| 0 <= i < h.len() implies (('0' <= #[trigger] h[i] && h[i] <= '9') || (
        'a' <= h[i] && h[i] <= 'f')) by {
            lemma_nibble_range(bits, i);
            assert(h[i] == hex_lower(nibble(bits, i)));
        }
    }
    lemma_stored_hash_normalizes(h);
}

/// A magnet link built from a stored info hash reads back that hash,
/// whatever name it carries.
pub proof fn law_built_magnet_reads_back(h: Seq<char>, name: Option<Seq<char>>)
    requires
        is_stored_hash(h),
    ensures
        spec_parse_magnet_hash(spec_build_magnet(h, name)) == Some(h),
{
    let s = spec_build_magnet(h, name);
    let base = magnet_prefix() + h;
    assert(s.len() >= base.len());
    assert forall|k: int| 0 <= k < base.len() implies #[trigger] s[k] == base[k] by {
        match name {
            Some(n) => if trim(n).len() > 0 {
                assert(s == base + seq!['&', 'd', 'n', '='] + pct_encode(encode_utf8(trim(n))));
            },
            None => {},
        }
    }
    // No match can start inside `magnet:?`: none of its characters is an `x`.
    assert forall|i: int| 0 <= i < 8 implies btih_at(s, i) is None by {
        assert(s[i] == magnet_prefix()[i]);
        assert(!ci_eq(s[i + 0], btih_prefix()[0]));
    }
    assert(first_btih(s, 0) == first_btih(s, 8)) by {
        reveal_with_fuel(first_btih, 9);
    }
    assert(ci_at(s, btih_prefix(), 8)) by {
        assert forall|k: int| 0 <= k < btih_prefix().len() implies ci_eq(#[trigger] s[8 + k], btih_prefix()[k]) by {
            assert(s[8 + k] == magnet_prefix()[8 + k]);
        }
    }
    assert(s.subrange(20, 60) =~= h) by {
        assert forall|k: int| 0 <= k < 40 implies s.subrange(20, 60)[k] == h[k] by {
            assert(s[20 + k] == base[20 + k]);
        }
    }
    assert(all_hex(h)) by {
        assert forall|i: int| 0 <= i < h.len() implies is_ascii_hex(#[trigger] h[i]) by {
            assert(('0' <= h[i] && h[i] <= '9') || ('a' <= h[i] && h[i] <= 'f'));
        }
    }
    assert(btih_at(s, 8) == Some(h));
    assert(first_btih(s, 8) == Some(h));
    lemma_ascii_utf8_len(h);
    assert(lower_seq(h) =~= h) by {
        assert forall|i: int| 0 <= i < h.len() implies lower_seq(h)[i] == h[i] by {
            assert(!crate::text::is_ascii_upper(h[i]));
        }
    }
}


/// A character that percent-encoding may write: ASCII, neither `&` nor
/// `+`, and no whitespace.
pub open spec fn pct_out_char(c: char) -> bool {
    (c as u32) < 128 && c != '&' && c != '+' && !is_ws(c)
}

proof fn lemma_ascii_byte(v: u32)
    requires
        v < 128,
    ensures
        (v & 0x7f) as u8 == v as u8,
{
    assert((v & 0x7f) == v) by (bit_vector)
        requires
            v < 128,
    ;
}

/// An ASCII character is one byte of UTF-8.
proof fn lemma_utf8_of_ascii(c: char)
    requires
        (c as u32) < 128,
    ensures
        encode_utf8(seq![c]) == seq![(c as u32) as u8],
{
    lemma_ascii_byte(c as u32);
    let one = seq![c];
    assert(one.drop_first() =~= Seq::<char>::empty());
    assert(encode_utf8(one.drop_first()) =~= Seq::<u8>::empty());
    assert(one[0] == c);
    assert(vstd::utf8::encode_scalar(c as u32) == seq![(c as u32) as u8]);
    assert(encode_utf8(one) == vstd::utf8::encode_scalar(one[0] as u32) + encode_utf8(one.drop_first()));
    assert(encode_utf8(one) =~= seq![(c as u32) as u8]);
}

/// Percent-decoding undoes percent-encoding, and what percent-encoding
/// writes is ASCII without `&` or `+`.
pub proof fn lemma_pct_round_trip(b: Seq<u8>)
    ensures
        pct_decode(encode_utf8(pct_encode(b))) == b,
        forall|i: int| 0 <= i < pct_encode(b).len() ==> pct_out_char(#[trigger] pct_encode(b)[i]),
        b.len() > 0 ==> pct_encode(b).len() > 0,
    decreases b.len(),
{
    if b.len() > 0 {
        let x = b[0];
        let rest = b.drop_first();
        lemma_pct_round_trip(rest);
        let e_rest = pct_encode(rest);
        let ys = encode_utf8(e_rest);
        let enc = if url_safe_byte(x) {
            seq![x as char]
        } else {
            seq!['%', hex_upper(x / 16), hex_upper(x % 16)]
        };
        assert(pct_encode(b) == enc + e_rest);
        crate::abb_parse::lemma_encode_utf8_concat(enc, e_rest);
        assert(seq![x] + rest =~= b);
        if url_safe_byte(x) {
            lemma_utf8_of_ascii(x as char);
            let bs = seq![x] + ys;
            assert(encode_utf8(pct_encode(b)) == bs);
            assert(bs.drop_first() =~= ys);
            assert(pct_decode(bs) == seq![x] + pct_decode(ys));
        } else {
            let hi = hex_upper(x / 16);
            let lo = hex_upper(x % 16);
            assert(enc =~= seq!['%'] + seq![hi] + seq![lo]);
            crate::abb_parse::lemma_encode_utf8_concat(seq!['%'] + seq![hi], seq![lo]);
            crate::abb_parse::lemma_encode_utf8_concat(seq!['%'], seq![hi]);
            lemma_utf8_of_ascii('%');
            lemma_utf8_of_ascii(hi);
            lemma_utf8_of_ascii(lo);
            let hb = (hi as u32) as u8;
            let lb = (lo as u32) as u8;
            assert(encode_utf8(enc) =~= seq![37u8, hb, lb]);
            let bs = seq![37u8, hb, lb] + ys;
            assert(encode_utf8(pct_encode(b)) == bs);
            assert(hex_value(hb) == Some((x / 16) as u8));
            assert(hex_value(lb) == Some((x % 16) as u8));
            let r = bs.drop_first();
            assert(r[0] == hb && r[1] == lb);
            assert(r.skip(2) =~= ys);
            assert((((x / 16) as u8) * 16 + ((x % 16) as u8)) as u8 == x);
            assert(pct_decode(bs) == seq![x] + pct_decode(ys));
        }
        assert forall|i: int| 0 <= i < pct_encode(b).len() implies pct_out_char(#[trigger] pct_encode(b)[i]) by {
            if i >= enc.len() {
                assert(pct_encode(b)[i] == e_rest[i - enc.len()]);
            }
        }
    }
}

proof fn lemma_first_dn_skip(s: Seq<char>, a: int, b: int)
    requires
        0 <= a <= b <= s.len() + 1,
        forall|i: int| a <= i < b ==> !dn_at(s, i),
    ensures
        first_dn(s, a) == first_dn(s, b),
    decreases b - a,
{
    if a < b {
        lemma_first_dn_skip(s, a + 1, b);
    }
}

proof fn lemma_amp_absent(s: Seq<char>, j: int)
    requires
        0 <= j <= s.len(),
        forall|k: int| j <= k < s.len() ==> s[k] != '&',
    ensures
        amp_from(s, j) == s.len(),
    decreases s.len() - j,
{
    if j < s.len() {
        lemma_amp_absent(s, j + 1);
    }
}

proof fn lemma_replace_absent(s: Seq<char>, c: char, d: char)
    requires
        forall|k: int| 0 <= k < s.len() ==> s[k] != c,
    ensures
        replace(s, seq![c], seq![d]) == s,
{
    crate::text::lemma_find_from(s, seq![c], 0);
    if let Some(k) = crate::text::find_from(s, seq![c], 0) {
        assert(s.subrange(k, k + 1)[0] == s[k]);
    }
    assert(s.subrange(0, s.len() as int) =~= s);
}

/// A magnet link built from a stored info hash reads back the display
/// name it was given, trimmed; none when the name is blank or missing.
pub proof fn law_built_magnet_name_reads_back(h: Seq<char>, name: Option<Seq<char>>)
    requires
        is_stored_hash(h),
    ensures
        spec_parse_magnet_name(spec_build_magnet(h, name)) == nonempty(trim_opt(name)),
{
    let m = spec_build_magnet(h, name);
    let base = magnet_prefix() + h;
    let named = match name {
        Some(n) => trim(n).len() > 0,
        None => false,
    };
    assert(m.len() >= 60);
    assert forall|k: int| 0 <= k < 60 implies #[trigger] m[k] == base[k] by {
        if named {
            assert(m == base + seq!['&', 'd', 'n', '='] + pct_encode(encode_utf8(trim(name->0))));
        }
    }
    assert(named ==> m[60] == '&') by {
        if named {
            assert(m == base + seq!['&', 'd', 'n', '='] + pct_encode(encode_utf8(trim(name->0))));
        }
    }
    assert(!named ==> m.len() == 60);
    assert forall|i: int| 0 <= i < 61 implies !dn_at(m, i) by {
        if dn_at(m, i) {
            assert(ci_eq(m[i + 0], 'd'));
            assert(ci_eq(m[i + 1], 'n'));
            if i + 1 < 20 {
                assert(m[i + 1] == magnet_prefix()[i + 1]);
                assert(m[i] == magnet_prefix()[i]);
            } else if i + 1 < 60 {
                assert(m[i + 1] == h[i + 1 - 20]);
            }
        }
    }
    lemma_first_dn_skip(m, 0, 61);
    if named {
        let t = trim(name->0);
        let bytes = encode_utf8(t);
        let e = pct_encode(bytes);
        assert(m == base + seq!['&', 'd', 'n', '='] + e);
        assert(bytes.len() > 0);
        lemma_pct_round_trip(bytes);
        assert(m.len() == 64 + e.len());
        assert forall|k: int| 64 <= k < m.len() implies m[k] == e[k - 64] by {}
        assert(ci_at(m, seq!['d', 'n', '='], 61)) by {
            assert forall|k: int| 0 <= k < 3 implies ci_eq(#[trigger] m[61 + k], seq!['d', 'n', '='][k]) by {}
        }
        assert(pct_out_char(e[0]));
        assert(dn_at(m, 61));
        assert forall|k: int| 64 <= k < m.len() implies m[k] != '&' by {
            assert(pct_out_char(e[k - 64]));
        }
        lemma_amp_absent(m, 64);
        assert(m.subrange(64, m.len() as int) =~= e);
        assert forall|k: int| 0 <= k < e.len() implies e[k] != '+' by {
            assert(pct_out_char(e[k]));
        }
        lemma_replace_absent(e, '+', ' ');
        vstd::utf8::encode_utf8_valid_utf8(t);
        vstd::utf8::encode_utf8_decode_utf8(t);
        assert(decode_or_keep(e) == t);
    } else {
        assert(first_dn(m, 61) is None);
    }
}

/// A text that neither starts nor ends with whitespace trims to itself.
proof fn lemma_trim_unchanged(s: Seq<char>)
    requires
        s.len() > 0,
        !is_ws(s[0]),
        !is_ws(s.last()),
    ensures
        trim(s) == s,
{
    assert(crate::text::skip_ws(s, 0) == 0);
    assert(crate::text::trim_start(s) =~= s);
    assert(crate::text::back_ws(s, s.len() as int) == s.len());
    assert(crate::text::trim_end(s) =~= s);
}

/// An info hash entered with a name gives a magnet link that, entered again
/// without a name, reads back as the same download: the same link, hash and
/// display name.
pub proof fn law_hash_input_reads_back(input: Seq<char>, name: Option<Seq<char>>)
    requires
        !starts_with(trim(input), magnet_scheme()),
        spec_parse_download_input(input, name) is Some,
    ensures
        spec_parse_download_input((spec_parse_download_input(input, name)->0).0, None) == spec_parse_download_input(
            input,
            name,
        ),
{
    let t = trim(input);
    law_normalized_hash_is_stable(t);
    let h = spec_normalize_info_hash(t)->0;
    let d = nonempty(trim_opt(name));
    let m = spec_build_magnet(h, d);
    assert(spec_parse_download_input(input, name) == Some((m, h, d)));
    law_built_magnet_reads_back(h, d);
    law_built_magnet_name_reads_back(h, d);
    if let Some(x) = d {
        lemma_trim_idempotent(name->0);
        assert(trim(x) == x);
    }
    assert(nonempty(trim_opt(d)) == d);
    // the link has no whitespace at either end
    let base = magnet_prefix() + h;
    assert(m[0] == 'm') by {
        if d is Some && trim(d->0).len() > 0 {
            assert(m == base + seq!['&', 'd', 'n', '='] + pct_encode(encode_utf8(trim(d->0))));
        }
    }
    if d is Some && trim(d->0).len() > 0 {
        let e = pct_encode(encode_utf8(trim(d->0)));
        assert(m == base + seq!['&', 'd', 'n', '='] + e);
        lemma_pct_round_trip(encode_utf8(trim(d->0)));
        assert(encode_utf8(trim(d->0)).len() > 0);
        assert(m.last() == e[e.len() - 1]);
        assert(pct_out_char(e[e.len() - 1]));
    } else {
        assert(m == base);
        assert(m.last() == h[39]);
        assert(('0' <= h[39] && h[39] <= '9') || ('a' <= h[39] && h[39] <= 'f'));
    }
    lemma_trim_unchanged(m);
    assert(starts_with(m, magnet_scheme())) by {
        assert(m.subrange(0, 8) =~= magnet_scheme()) by {
            assert forall|k: int| 0 <= k < 8 implies m[k] == magnet_scheme()[k] by {
                if d is Some && trim(d->0).len() > 0 {
                    assert(m == base + seq!['&', 'd', 'n', '='] + pct_encode(encode_utf8(trim(d->0))));
                }
                assert(base[k] == magnet_prefix()[k]);
            }
        }
    }
}

/// What the leftmost `xt=urn:btih:` match captures: 40 hexadecimal digits or
/// 32 characters of `[a-z2-7]` (any case), taken from the text.
proof fn lemma_first_btih_shape(s: Seq<char>, i: int)
    ensures
        first_btih(s, i) matches Some(h) ==> ((h.len() == 40 && all_hex(h)) || (h.len() == 32
            && all_base32_class(h))) && (forall|k: int| 0 <= k < h.len() ==> s.contains(#[trigger] h[k])),
    decreases s.len() + 1 - i,
{
    if 0 <= i <= s.len() {
        if btih_at(s, i) is Some {
            let h = btih_at(s, i)->0;
            let j = i + 12;
            assert forall|k: int| 0 <= k < h.len() implies s.contains(#[trigger] h[k]) by {
                assert(h[k] == s[j + k]);
            }
        } else {
            lemma_first_btih_shape(s, i + 1);
        }
    }
}

/// Of every magnet link whose info hash parses, the hash is an info hash
/// as the library stores it: 40 lower-case hexadecimal digits, a base32
/// value being decoded to them. Every `xt=urn:btih:` match gives one.
/// (Links holding the Kelvin sign or the long s, which `(?i)` lets the
/// base32 class match, are left out: a value of 32 such characters can
/// take 40 bytes, and is then lower-cased as hex would be.)
pub proof fn law_magnet_hash_is_stored(magnet: Seq<char>)
    requires
        forall|k: int| 0 <= k < magnet.len() ==> #[trigger] magnet[k] != '\u{212a}' && magnet[k] != '\u{17f}',
    ensures
        spec_parse_magnet_hash(magnet) matches Some(h) ==> is_stored_hash(h),
        spec_parse_magnet_hash(magnet) is Some <==> first_btih(magnet, 0) is Some,
{
    lemma_first_btih_shape(magnet, 0);
    if let Some(h) = first_btih(magnet, 0) {
        assert forall|k: int| 0 <= k < h.len() implies (#[trigger] h[k] as u32) < 128 by {
            assert(magnet.contains(h[k]));
        }
        lemma_ascii_utf8_len(h);
        if h.len() == 40 {
            let r = lower_seq(h);
            assert forall|k: int| 0 <= k < r.len() implies (('0' <= #[trigger] r[k] && r[k] <= '9') || ('a' <= r[k]
                && r[k] <= 'f')) by {
                assert(is_ascii_hex(h[k]));
                assert(r[k] == lower(h[k]));
            }
        } else {
            assert forall|k: int| 0 <= k < h.len() implies (#[trigger] base32_index(h[k])) is Some by {
                assert(base32_class(h[k]));
                assert(magnet.contains(h[k]));
            }
            let bits = base32_bits(h);
            lemma_base32_bits_len(h);
            let r = bits_to_hex(bits);
            assert(r.len() == 40);
            assert forall|k: int| 0 <= k < r.len() implies (('0' <= #[trigger] r[k] && r[k] <= '9') || ('a' <= r[k]
                && r[k] <= 'f')) by {
                lemma_nibble_range(bits, k);
                assert(r[k] == hex_lower(nibble(bits, k)));
            }
        }
    }
}
} // verus!
