//! Fixed texts used by the library, as character sequences.
//!
//! Each text has a spec form (`lit_*`) and an executable form (`mk_*`)
//! that builds the same characters.
use vstd::prelude::*;

use crate::text::copy_chars;

verus! {

/// `/incomplete/`
pub open spec fn lit_incomplete_s() -> Seq<char> {
    seq!['/', 'i', 'n', 'c', 'o', 'm', 'p', 'l', 'e', 't', 'e', '/']
}

pub fn mk_incomplete_s() -> (r: Vec<char>)
    ensures
        r@ == lit_incomplete_s(),
{
    let a: [char; 12] = ['/', 'i', 'n', 'c', 'o', 'm', 'p', 'l', 'e', 't', 'e', '/'];
    assert(a@ =~= lit_incomplete_s());
    copy_chars(&a)
}

/// `/complete/`
pub open spec fn lit_complete_s() -> Seq<char> {
    seq!['/', 'c', 'o', 'm', 'p', 'l', 'e', 't', 'e', '/']
}

pub fn mk_complete_s() -> (r: Vec<char>)
    ensures
        r@ == lit_complete_s(),
{
    let a: [char; 10] = ['/', 'c', 'o', 'm', 'p', 'l', 'e', 't', 'e', '/'];
    assert(a@ =~= lit_complete_s());
    copy_chars(&a)
}

/// `/Incomplete/`
pub open spec fn lit_incomplete_cap_s() -> Seq<char> {
    seq!['/', 'I', 'n', 'c', 'o', 'm', 'p', 'l', 'e', 't', 'e', '/']
}

pub fn mk_incomplete_cap_s() -> (r: Vec<char>)
    ensures
        r@ == lit_incomplete_cap_s(),
{
    let a: [char; 12] = ['/', 'I', 'n', 'c', 'o', 'm', 'p', 'l', 'e', 't', 'e', '/'];
    assert(a@ =~= lit_incomplete_cap_s());
    copy_chars(&a)
}

/// `/Complete/`
pub open spec fn lit_complete_cap_s() -> Seq<char> {
    seq!['/', 'C', 'o', 'm', 'p', 'l', 'e', 't', 'e', '/']
}

pub fn mk_complete_cap_s() -> (r: Vec<char>)
    ensures
        r@ == lit_complete_cap_s(),
{
    let a: [char; 10] = ['/', 'C', 'o', 'm', 'p', 'l', 'e', 't', 'e', '/'];
    assert(a@ =~= lit_complete_cap_s());
    copy_chars(&a)
}

/// `/completed/`
pub open spec fn lit_completed_s() -> Seq<char> {
    seq!['/', 'c', 'o', 'm', 'p', 'l', 'e', 't', 'e', 'd', '/']
}

pub fn mk_completed_s() -> (r: Vec<char>)
    ensures
        r@ == lit_completed_s(),
{
    let a: [char; 11] = ['/', 'c', 'o', 'm', 'p', 'l', 'e', 't', 'e', 'd', '/'];
    assert(a@ =~= lit_completed_s());
    copy_chars(&a)
}

/// `\incomplete\`
pub open spec fn lit_incomplete_bs() -> Seq<char> {
    seq!['\\', 'i', 'n', 'c', 'o', 'm', 'p', 'l', 'e', 't', 'e', '\\']
}

pub fn mk_incomplete_bs() -> (r: Vec<char>)
    ensures
        r@ == lit_incomplete_bs(),
{
    let a: [char; 12] = ['\\', 'i', 'n', 'c', 'o', 'm', 'p', 'l', 'e', 't', 'e', '\\'];
    assert(a@ =~= lit_incomplete_bs());
    copy_chars(&a)
}

/// `\complete\`
pub open spec fn lit_complete_bs() -> Seq<char> {
    seq!['\\', 'c', 'o', 'm', 'p', 'l', 'e', 't', 'e', '\\']
}

pub fn mk_complete_bs() -> (r: Vec<char>)
    ensures
        r@ == lit_complete_bs(),
{
    let a: [char; 10] = ['\\', 'c', 'o', 'm', 'p', 'l', 'e', 't', 'e', '\\'];
    assert(a@ =~= lit_complete_bs());
    copy_chars(&a)
}

/// `incomplete`
pub open spec fn lit_incomplete() -> Seq<char> {
    seq!['i', 'n', 'c', 'o', 'm', 'p', 'l', 'e', 't', 'e']
}

pub fn mk_incomplete() -> (r: Vec<char>)
    ensures
        r@ == lit_incomplete(),
{
    let a: [char; 10] = ['i', 'n', 'c', 'o', 'm', 'p', 'l', 'e', 't', 'e'];
    assert(a@ =~= lit_incomplete());
    copy_chars(&a)
}

/// `complete`
pub open spec fn lit_complete() -> Seq<char> {
    seq!['c', 'o', 'm', 'p', 'l', 'e', 't', 'e']
}

pub fn mk_complete() -> (r: Vec<char>)
    ensures
        r@ == lit_complete(),
{
    let a: [char; 8] = ['c', 'o', 'm', 'p', 'l', 'e', 't', 'e'];
    assert(a@ =~= lit_complete());
    copy_chars(&a)
}

/// `completed`
pub open spec fn lit_completed() -> Seq<char> {
    seq!['c', 'o', 'm', 'p', 'l', 'e', 't', 'e', 'd']
}

pub fn mk_completed() -> (r: Vec<char>)
    ensures
        r@ == lit_completed(),
{
    let a: [char; 9] = ['c', 'o', 'm', 'p', 'l', 'e', 't', 'e', 'd'];
    assert(a@ =~= lit_completed());
    copy_chars(&a)
}

/// `done`
pub open spec fn lit_done() -> Seq<char> {
    seq!['d', 'o', 'n', 'e']
}

pub fn mk_done() -> (r: Vec<char>)
    ensures
        r@ == lit_done(),
{
    let a: [char; 4] = ['d', 'o', 'n', 'e'];
    assert(a@ =~= lit_done());
    copy_chars(&a)
}

/// `\`
pub open spec fn lit_backslash() -> Seq<char> {
    seq!['\\']
}

pub fn mk_backslash() -> (r: Vec<char>)
    ensures
        r@ == lit_backslash(),
{
    let a: [char; 1] = ['\\'];
    assert(a@ =~= lit_backslash());
    copy_chars(&a)
}

/// `/`
pub open spec fn lit_slash() -> Seq<char> {
    seq!['/']
}

pub fn mk_slash() -> (r: Vec<char>)
    ensures
        r@ == lit_slash(),
{
    let a: [char; 1] = ['/'];
    assert(a@ =~= lit_slash());
    copy_chars(&a)
}

/// `Unknown`
pub open spec fn lit_unknown() -> Seq<char> {
    seq!['U', 'n', 'k', 'n', 'o', 'w', 'n']
}

pub fn mk_unknown() -> (r: Vec<char>)
    ensures
        r@ == lit_unknown(),
{
    let a: [char; 7] = ['U', 'n', 'k', 'n', 'o', 'w', 'n'];
    assert(a@ =~= lit_unknown());
    copy_chars(&a)
}

/// `Unknown Author`
pub open spec fn lit_unknown_author() -> Seq<char> {
    seq!['U', 'n', 'k', 'n', 'o', 'w', 'n', ' ', 'A', 'u', 't', 'h', 'o', 'r']
}

pub fn mk_unknown_author() -> (r: Vec<char>)
    ensures
        r@ == lit_unknown_author(),
{
    let a: [char; 14] = ['U', 'n', 'k', 'n', 'o', 'w', 'n', ' ', 'A', 'u', 't', 'h', 'o', 'r'];
    assert(a@ =~= lit_unknown_author());
    copy_chars(&a)
}

/// ` - `
pub open spec fn lit_dash_sep() -> Seq<char> {
    seq![' ', '-', ' ']
}

pub fn mk_dash_sep() -> (r: Vec<char>)
    ensures
        r@ == lit_dash_sep(),
{
    let a: [char; 3] = [' ', '-', ' '];
    assert(a@ =~= lit_dash_sep());
    copy_chars(&a)
}

/// `+`
pub open spec fn lit_plus() -> Seq<char> {
    seq!['+']
}

pub fn mk_plus() -> (r: Vec<char>)
    ensures
        r@ == lit_plus(),
{
    let a: [char; 1] = ['+'];
    assert(a@ =~= lit_plus());
    copy_chars(&a)
}

/// ` `
pub open spec fn lit_space() -> Seq<char> {
    seq![' ']
}

pub fn mk_space() -> (r: Vec<char>)
    ensures
        r@ == lit_space(),
{
    let a: [char; 1] = [' '];
    assert(a@ =~= lit_space());
    copy_chars(&a)
}

/// `&amp;`
pub open spec fn lit_amp_ent() -> Seq<char> {
    seq!['&', 'a', 'm', 'p', ';']
}

pub fn mk_amp_ent() -> (r: Vec<char>)
    ensures
        r@ == lit_amp_ent(),
{
    let a: [char; 5] = ['&', 'a', 'm', 'p', ';'];
    assert(a@ =~= lit_amp_ent());
    copy_chars(&a)
}

/// `&`
pub open spec fn lit_amp() -> Seq<char> {
    seq!['&']
}

pub fn mk_amp() -> (r: Vec<char>)
    ensures
        r@ == lit_amp(),
{
    let a: [char; 1] = ['&'];
    assert(a@ =~= lit_amp());
    copy_chars(&a)
}

/// `&nbsp;`
pub open spec fn lit_nbsp_ent() -> Seq<char> {
    seq!['&', 'n', 'b', 's', 'p', ';']
}

pub fn mk_nbsp_ent() -> (r: Vec<char>)
    ensures
        r@ == lit_nbsp_ent(),
{
    let a: [char; 6] = ['&', 'n', 'b', 's', 'p', ';'];
    assert(a@ =~= lit_nbsp_ent());
    copy_chars(&a)
}

/// `&quot;`
pub open spec fn lit_quot_ent() -> Seq<char> {
    seq!['&', 'q', 'u', 'o', 't', ';']
}

pub fn mk_quot_ent() -> (r: Vec<char>)
    ensures
        r@ == lit_quot_ent(),
{
    let a: [char; 6] = ['&', 'q', 'u', 'o', 't', ';'];
    assert(a@ =~= lit_quot_ent());
    copy_chars(&a)
}

/// `"`
pub open spec fn lit_dquote() -> Seq<char> {
    seq!['"']
}

pub fn mk_dquote() -> (r: Vec<char>)
    ensures
        r@ == lit_dquote(),
{
    let a: [char; 1] = ['"'];
    assert(a@ =~= lit_dquote());
    copy_chars(&a)
}

/// `&#039;`
pub open spec fn lit_apos39_ent() -> Seq<char> {
    seq!['&', '#', '0', '3', '9', ';']
}

pub fn mk_apos39_ent() -> (r: Vec<char>)
    ensures
        r@ == lit_apos39_ent(),
{
    let a: [char; 6] = ['&', '#', '0', '3', '9', ';'];
    assert(a@ =~= lit_apos39_ent());
    copy_chars(&a)
}

/// `&#8217;`
pub open spec fn lit_apos8217_ent() -> Seq<char> {
    seq!['&', '#', '8', '2', '1', '7', ';']
}

pub fn mk_apos8217_ent() -> (r: Vec<char>)
    ensures
        r@ == lit_apos8217_ent(),
{
    let a: [char; 7] = ['&', '#', '8', '2', '1', '7', ';'];
    assert(a@ =~= lit_apos8217_ent());
    copy_chars(&a)
}

/// `'`
pub open spec fn lit_squote() -> Seq<char> {
    seq!['\'']
}

pub fn mk_squote() -> (r: Vec<char>)
    ensures
        r@ == lit_squote(),
{
    let a: [char; 1] = ['\''];
    assert(a@ =~= lit_squote());
    copy_chars(&a)
}

/// `&lt;`
pub open spec fn lit_lt_ent() -> Seq<char> {
    seq!['&', 'l', 't', ';']
}

pub fn mk_lt_ent() -> (r: Vec<char>)
    ensures
        r@ == lit_lt_ent(),
{
    let a: [char; 4] = ['&', 'l', 't', ';'];
    assert(a@ =~= lit_lt_ent());
    copy_chars(&a)
}

/// `<`
pub open spec fn lit_lt() -> Seq<char> {
    seq!['<']
}

pub fn mk_lt() -> (r: Vec<char>)
    ensures
        r@ == lit_lt(),
{
    let a: [char; 1] = ['<'];
    assert(a@ =~= lit_lt());
    copy_chars(&a)
}

/// `&gt;`
pub open spec fn lit_gt_ent() -> Seq<char> {
    seq!['&', 'g', 't', ';']
}

pub fn mk_gt_ent() -> (r: Vec<char>)
    ensures
        r@ == lit_gt_ent(),
{
    let a: [char; 4] = ['&', 'g', 't', ';'];
    assert(a@ =~= lit_gt_ent());
    copy_chars(&a)
}

/// `>`
pub open spec fn lit_gt() -> Seq<char> {
    seq!['>']
}

pub fn mk_gt() -> (r: Vec<char>)
    ensures
        r@ == lit_gt(),
{
    let a: [char; 1] = ['>'];
    assert(a@ =~= lit_gt());
    copy_chars(&a)
}

/// `<![CDATA[`
pub open spec fn lit_cdata_open() -> Seq<char> {
    seq!['<', '!', '[', 'C', 'D', 'A', 'T', 'A', '[']
}

pub fn mk_cdata_open() -> (r: Vec<char>)
    ensures
        r@ == lit_cdata_open(),
{
    let a: [char; 9] = ['<', '!', '[', 'C', 'D', 'A', 'T', 'A', '['];
    assert(a@ =~= lit_cdata_open());
    copy_chars(&a)
}

/// `]]>`
pub open spec fn lit_cdata_close() -> Seq<char> {
    seq![']', ']', '>']
}

pub fn mk_cdata_close() -> (r: Vec<char>)
    ensures
        r@ == lit_cdata_close(),
{
    let a: [char; 3] = [']', ']', '>'];
    assert(a@ =~= lit_cdata_close());
    copy_chars(&a)
}

/// `Collection`
pub open spec fn lit_collection() -> Seq<char> {
    seq!['C', 'o', 'l', 'l', 'e', 'c', 't', 'i', 'o', 'n']
}

pub fn mk_collection() -> (r: Vec<char>)
    ensures
        r@ == lit_collection(),
{
    let a: [char; 10] = ['C', 'o', 'l', 'l', 'e', 'c', 't', 'i', 'o', 'n'];
    assert(a@ =~= lit_collection());
    copy_chars(&a)
}

/// `class="archiveTitle"`
pub open spec fn lit_archive_dq() -> Seq<char> {
    seq!['c', 'l', 'a', 's', 's', '=', '"', 'a', 'r', 'c', 'h', 'i', 'v', 'e', 'T', 'i', 't', 'l', 'e', '"']
}

pub fn mk_archive_dq() -> (r: Vec<char>)
    ensures
        r@ == lit_archive_dq(),
{
    let a: [char; 20] = ['c', 'l', 'a', 's', 's', '=', '"', 'a', 'r', 'c', 'h', 'i', 'v', 'e', 'T', 'i', 't', 'l', 'e', '"'];
    assert(a@ =~= lit_archive_dq());
    copy_chars(&a)
}

/// `class='archiveTitle'`
pub open spec fn lit_archive_sq() -> Seq<char> {
    seq!['c', 'l', 'a', 's', 's', '=', '\'', 'a', 'r', 'c', 'h', 'i', 'v', 'e', 'T', 'i', 't', 'l', 'e', '\'']
}

pub fn mk_archive_sq() -> (r: Vec<char>)
    ensures
        r@ == lit_archive_sq(),
{
    let a: [char; 20] = ['c', 'l', 'a', 's', 's', '=', '\'', 'a', 'r', 'c', 'h', 'i', 'v', 'e', 'T', 'i', 't', 'l', 'e', '\''];
    assert(a@ =~= lit_archive_sq());
    copy_chars(&a)
}

/// `href="http://audiobookbay.lu/feed"`
pub open spec fn lit_feed_http() -> Seq<char> {
    seq!['h', 'r', 'e', 'f', '=', '"', 'h', 't', 't', 'p', ':', '/', '/', 'a', 'u', 'd', 'i', 'o', 'b', 'o', 'o', 'k', 'b', 'a', 'y', '.', 'l', 'u', '/', 'f', 'e', 'e', 'd', '"']
}

pub fn mk_feed_http() -> (r: Vec<char>)
    ensures
        r@ == lit_feed_http(),
{
    let a: [char; 34] = ['h', 'r', 'e', 'f', '=', '"', 'h', 't', 't', 'p', ':', '/', '/', 'a', 'u', 'd', 'i', 'o', 'b', 'o', 'o', 'k', 'b', 'a', 'y', '.', 'l', 'u', '/', 'f', 'e', 'e', 'd', '"'];
    assert(a@ =~= lit_feed_http());
    copy_chars(&a)
}

/// `href="https://audiobookbay.lu/feed"`
pub open spec fn lit_feed_https() -> Seq<char> {
    seq!['h', 'r', 'e', 'f', '=', '"', 'h', 't', 't', 'p', 's', ':', '/', '/', 'a', 'u', 'd', 'i', 'o', 'b', 'o', 'o', 'k', 'b', 'a', 'y', '.', 'l', 'u', '/', 'f', 'e', 'e', 'd', '"']
}

pub fn mk_feed_https() -> (r: Vec<char>)
    ensures
        r@ == lit_feed_https(),
{
    let a: [char; 35] = ['h', 'r', 'e', 'f', '=', '"', 'h', 't', 't', 'p', 's', ':', '/', '/', 'a', 'u', 'd', 'i', 'o', 'b', 'o', 'o', 'k', 'b', 'a', 'y', '.', 'l', 'u', '/', 'f', 'e', 'e', 'd', '"'];
    assert(a@ =~= lit_feed_https());
    copy_chars(&a)
}

/// `href="http://audiobookbay.lu/feed/"`
pub open spec fn lit_feed_http_s() -> Seq<char> {
    seq!['h', 'r', 'e', 'f', '=', '"', 'h', 't', 't', 'p', ':', '/', '/', 'a', 'u', 'd', 'i', 'o', 'b', 'o', 'o', 'k', 'b', 'a', 'y', '.', 'l', 'u', '/', 'f', 'e', 'e', 'd', '/', '"']
}

pub fn mk_feed_http_s() -> (r: Vec<char>)
    ensures
        r@ == lit_feed_http_s(),
{
    let a: [char; 35] = ['h', 'r', 'e', 'f', '=', '"', 'h', 't', 't', 'p', ':', '/', '/', 'a', 'u', 'd', 'i', 'o', 'b', 'o', 'o', 'k', 'b', 'a', 'y', '.', 'l', 'u', '/', 'f', 'e', 'e', 'd', '/', '"'];
    assert(a@ =~= lit_feed_http_s());
    copy_chars(&a)
}

/// `href="https://audiobookbay.lu/feed/"`
pub open spec fn lit_feed_https_s() -> Seq<char> {
    seq!['h', 'r', 'e', 'f', '=', '"', 'h', 't', 't', 'p', 's', ':', '/', '/', 'a', 'u', 'd', 'i', 'o', 'b', 'o', 'o', 'k', 'b', 'a', 'y', '.', 'l', 'u', '/', 'f', 'e', 'e', 'd', '/', '"']
}

pub fn mk_feed_https_s() -> (r: Vec<char>)
    ensures
        r@ == lit_feed_https_s(),
{
    let a: [char; 36] = ['h', 'r', 'e', 'f', '=', '"', 'h', 't', 't', 'p', 's', ':', '/', '/', 'a', 'u', 'd', 'i', 'o', 'b', 'o', 'o', 'k', 'b', 'a', 'y', '.', 'l', 'u', '/', 'f', 'e', 'e', 'd', '/', '"'];
    assert(a@ =~= lit_feed_https_s());
    copy_chars(&a)
}

/// `s=`
pub open spec fn lit_s_eq() -> Seq<char> {
    seq!['s', '=']
}

pub fn mk_s_eq() -> (r: Vec<char>)
    ensures
        r@ == lit_s_eq(),
{
    let a: [char; 2] = ['s', '='];
    assert(a@ =~= lit_s_eq());
    copy_chars(&a)
}

/// `feed=rss2`
pub open spec fn lit_feed_rss2() -> Seq<char> {
    seq!['f', 'e', 'e', 'd', '=', 'r', 's', 's', '2']
}

pub fn mk_feed_rss2() -> (r: Vec<char>)
    ensures
        r@ == lit_feed_rss2(),
{
    let a: [char; 9] = ['f', 'e', 'e', 'd', '=', 'r', 's', 's', '2'];
    assert(a@ =~= lit_feed_rss2());
    copy_chars(&a)
}

/// `feed=rss`
pub open spec fn lit_feed_rss() -> Seq<char> {
    seq!['f', 'e', 'e', 'd', '=', 'r', 's', 's']
}

pub fn mk_feed_rss() -> (r: Vec<char>)
    ensures
        r@ == lit_feed_rss(),
{
    let a: [char; 8] = ['f', 'e', 'e', 'd', '=', 'r', 's', 's'];
    assert(a@ =~= lit_feed_rss());
    copy_chars(&a)
}

/// `%20`
pub open spec fn lit_pct20() -> Seq<char> {
    seq!['%', '2', '0']
}

pub fn mk_pct20() -> (r: Vec<char>)
    ensures
        r@ == lit_pct20(),
{
    let a: [char; 3] = ['%', '2', '0'];
    assert(a@ =~= lit_pct20());
    copy_chars(&a)
}

/// `%2B`
pub open spec fn lit_pct2b() -> Seq<char> {
    seq!['%', '2', 'B']
}

pub fn mk_pct2b() -> (r: Vec<char>)
    ensures
        r@ == lit_pct2b(),
{
    let a: [char; 3] = ['%', '2', 'B'];
    assert(a@ =~= lit_pct2b());
    copy_chars(&a)
}

/// `http`
pub open spec fn lit_http() -> Seq<char> {
    seq!['h', 't', 't', 'p']
}

pub fn mk_http() -> (r: Vec<char>)
    ensures
        r@ == lit_http(),
{
    let a: [char; 4] = ['h', 't', 't', 'p'];
    assert(a@ =~= lit_http());
    copy_chars(&a)
}

/// `//`
pub open spec fn lit_dslash() -> Seq<char> {
    seq!['/', '/']
}

pub fn mk_dslash() -> (r: Vec<char>)
    ensures
        r@ == lit_dslash(),
{
    let a: [char; 2] = ['/', '/'];
    assert(a@ =~= lit_dslash());
    copy_chars(&a)
}

/// `https:`
pub open spec fn lit_https_colon() -> Seq<char> {
    seq!['h', 't', 't', 'p', 's', ':']
}

pub fn mk_https_colon() -> (r: Vec<char>)
    ensures
        r@ == lit_https_colon(),
{
    let a: [char; 6] = ['h', 't', 't', 'p', 's', ':'];
    assert(a@ =~= lit_https_colon());
    copy_chars(&a)
}

/// `..`
pub open spec fn lit_dotdot() -> Seq<char> {
    seq!['.', '.']
}

pub fn mk_dotdot() -> (r: Vec<char>)
    ensures
        r@ == lit_dotdot(),
{
    let a: [char; 2] = ['.', '.'];
    assert(a@ =~= lit_dotdot());
    copy_chars(&a)
}

/// `https://audiobookbay.lu`
pub open spec fn lit_mirror() -> Seq<char> {
    seq!['h', 't', 't', 'p', 's', ':', '/', '/', 'a', 'u', 'd', 'i', 'o', 'b', 'o', 'o', 'k', 'b', 'a', 'y', '.', 'l', 'u']
}

pub fn mk_mirror() -> (r: Vec<char>)
    ensures
        r@ == lit_mirror(),
{
    let a: [char; 23] = ['h', 't', 't', 'p', 's', ':', '/', '/', 'a', 'u', 'd', 'i', 'o', 'b', 'o', 'o', 'k', 'b', 'a', 'y', '.', 'l', 'u'];
    assert(a@ =~= lit_mirror());
    copy_chars(&a)
}

/// `/feed/`
pub open spec fn lit_feed_path() -> Seq<char> {
    seq!['/', 'f', 'e', 'e', 'd', '/']
}

pub fn mk_feed_path() -> (r: Vec<char>)
    ensures
        r@ == lit_feed_path(),
{
    let a: [char; 6] = ['/', 'f', 'e', 'e', 'd', '/'];
    assert(a@ =~= lit_feed_path());
    copy_chars(&a)
}

/// `/feed/?paged=`
pub open spec fn lit_feed_paged() -> Seq<char> {
    seq!['/', 'f', 'e', 'e', 'd', '/', '?', 'p', 'a', 'g', 'e', 'd', '=']
}

pub fn mk_feed_paged() -> (r: Vec<char>)
    ensures
        r@ == lit_feed_paged(),
{
    let a: [char; 13] = ['/', 'f', 'e', 'e', 'd', '/', '?', 'p', 'a', 'g', 'e', 'd', '='];
    assert(a@ =~= lit_feed_paged());
    copy_chars(&a)
}

/// `/audio-books/type/`
pub open spec fn lit_type_path() -> Seq<char> {
    seq!['/', 'a', 'u', 'd', 'i', 'o', '-', 'b', 'o', 'o', 'k', 's', '/', 't', 'y', 'p', 'e', '/']
}

pub fn mk_type_path() -> (r: Vec<char>)
    ensures
        r@ == lit_type_path(),
{
    let a: [char; 18] = ['/', 'a', 'u', 'd', 'i', 'o', '-', 'b', 'o', 'o', 'k', 's', '/', 't', 'y', 'p', 'e', '/'];
    assert(a@ =~= lit_type_path());
    copy_chars(&a)
}

/// `/page/`
pub open spec fn lit_page_seg() -> Seq<char> {
    seq!['/', 'p', 'a', 'g', 'e', '/']
}

pub fn mk_page_seg() -> (r: Vec<char>)
    ensures
        r@ == lit_page_seg(),
{
    let a: [char; 6] = ['/', 'p', 'a', 'g', 'e', '/'];
    assert(a@ =~= lit_page_seg());
    copy_chars(&a)
}

/// `/?s=`
pub open spec fn lit_q_s() -> Seq<char> {
    seq!['/', '?', 's', '=']
}

pub fn mk_q_s() -> (r: Vec<char>)
    ensures
        r@ == lit_q_s(),
{
    let a: [char; 4] = ['/', '?', 's', '='];
    assert(a@ =~= lit_q_s());
    copy_chars(&a)
}

/// `&cat=undefined%2Cundefined`
pub open spec fn lit_cat_undef() -> Seq<char> {
    seq!['&', 'c', 'a', 't', '=', 'u', 'n', 'd', 'e', 'f', 'i', 'n', 'e', 'd', '%', '2', 'C', 'u', 'n', 'd', 'e', 'f', 'i', 'n', 'e', 'd']
}

pub fn mk_cat_undef() -> (r: Vec<char>)
    ensures
        r@ == lit_cat_undef(),
{
    let a: [char; 26] = ['&', 'c', 'a', 't', '=', 'u', 'n', 'd', 'e', 'f', 'i', 'n', 'e', 'd', '%', '2', 'C', 'u', 'n', 'd', 'e', 'f', 'i', 'n', 'e', 'd'];
    assert(a@ =~= lit_cat_undef());
    copy_chars(&a)
}

/// `&feed=rss2`
pub open spec fn lit_feed_rss2_amp() -> Seq<char> {
    seq!['&', 'f', 'e', 'e', 'd', '=', 'r', 's', 's', '2']
}

pub fn mk_feed_rss2_amp() -> (r: Vec<char>)
    ensures
        r@ == lit_feed_rss2_amp(),
{
    let a: [char; 10] = ['&', 'f', 'e', 'e', 'd', '=', 'r', 's', 's', '2'];
    assert(a@ =~= lit_feed_rss2_amp());
    copy_chars(&a)
}

/// `&paged=`
pub open spec fn lit_paged_amp() -> Seq<char> {
    seq!['&', 'p', 'a', 'g', 'e', 'd', '=']
}

pub fn mk_paged_amp() -> (r: Vec<char>)
    ensures
        r@ == lit_paged_amp(),
{
    let a: [char; 7] = ['&', 'p', 'a', 'g', 'e', 'd', '='];
    assert(a@ =~= lit_paged_amp());
    copy_chars(&a)
}

/// `awaiting_match`
pub open spec fn lit_awaiting_match() -> Seq<char> {
    seq!['a', 'w', 'a', 'i', 't', 'i', 'n', 'g', '_', 'm', 'a', 't', 'c', 'h']
}

pub fn mk_awaiting_match() -> (r: Vec<char>)
    ensures
        r@ == lit_awaiting_match(),
{
    let a: [char; 14] = ['a', 'w', 'a', 'i', 't', 'i', 'n', 'g', '_', 'm', 'a', 't', 'c', 'h'];
    assert(a@ =~= lit_awaiting_match());
    copy_chars(&a)
}

/// `queued`
pub open spec fn lit_queued() -> Seq<char> {
    seq!['q', 'u', 'e', 'u', 'e', 'd']
}

pub fn mk_queued() -> (r: Vec<char>)
    ensures
        r@ == lit_queued(),
{
    let a: [char; 6] = ['q', 'u', 'e', 'u', 'e', 'd'];
    assert(a@ =~= lit_queued());
    copy_chars(&a)
}

/// `downloading`
pub open spec fn lit_downloading() -> Seq<char> {
    seq!['d', 'o', 'w', 'n', 'l', 'o', 'a', 'd', 'i', 'n', 'g']
}

pub fn mk_downloading() -> (r: Vec<char>)
    ensures
        r@ == lit_downloading(),
{
    let a: [char; 11] = ['d', 'o', 'w', 'n', 'l', 'o', 'a', 'd', 'i', 'n', 'g'];
    assert(a@ =~= lit_downloading());
    copy_chars(&a)
}

/// `copying`
pub open spec fn lit_copying() -> Seq<char> {
    seq!['c', 'o', 'p', 'y', 'i', 'n', 'g']
}

pub fn mk_copying() -> (r: Vec<char>)
    ensures
        r@ == lit_copying(),
{
    let a: [char; 7] = ['c', 'o', 'p', 'y', 'i', 'n', 'g'];
    assert(a@ =~= lit_copying());
    copy_chars(&a)
}

/// `awaiting_map`
pub open spec fn lit_awaiting_map() -> Seq<char> {
    seq!['a', 'w', 'a', 'i', 't', 'i', 'n', 'g', '_', 'm', 'a', 'p']
}

pub fn mk_awaiting_map() -> (r: Vec<char>)
    ensures
        r@ == lit_awaiting_map(),
{
    let a: [char; 12] = ['a', 'w', 'a', 'i', 't', 'i', 'n', 'g', '_', 'm', 'a', 'p'];
    assert(a@ =~= lit_awaiting_map());
    copy_chars(&a)
}

/// `partial`
pub open spec fn lit_partial() -> Seq<char> {
    seq!['p', 'a', 'r', 't', 'i', 'a', 'l']
}

pub fn mk_partial() -> (r: Vec<char>)
    ensures
        r@ == lit_partial(),
{
    let a: [char; 7] = ['p', 'a', 'r', 't', 'i', 'a', 'l'];
    assert(a@ =~= lit_partial());
    copy_chars(&a)
}

/// `imported`
pub open spec fn lit_imported() -> Seq<char> {
    seq!['i', 'm', 'p', 'o', 'r', 't', 'e', 'd']
}

pub fn mk_imported() -> (r: Vec<char>)
    ensures
        r@ == lit_imported(),
{
    let a: [char; 8] = ['i', 'm', 'p', 'o', 'r', 't', 'e', 'd'];
    assert(a@ =~= lit_imported());
    copy_chars(&a)
}

/// `error`
pub open spec fn lit_error() -> Seq<char> {
    seq!['e', 'r', 'r', 'o', 'r']
}

pub fn mk_error() -> (r: Vec<char>)
    ensures
        r@ == lit_error(),
{
    let a: [char; 5] = ['e', 'r', 'r', 'o', 'r'];
    assert(a@ =~= lit_error());
    copy_chars(&a)
}

/// `pending`
pub open spec fn lit_pending() -> Seq<char> {
    seq!['p', 'e', 'n', 'd', 'i', 'n', 'g']
}

pub fn mk_pending() -> (r: Vec<char>)
    ensures
        r@ == lit_pending(),
{
    let a: [char; 7] = ['p', 'e', 'n', 'd', 'i', 'n', 'g'];
    assert(a@ =~= lit_pending());
    copy_chars(&a)
}

/// `ready`
pub open spec fn lit_ready() -> Seq<char> {
    seq!['r', 'e', 'a', 'd', 'y']
}

pub fn mk_ready() -> (r: Vec<char>)
    ensures
        r@ == lit_ready(),
{
    let a: [char; 5] = ['r', 'e', 'a', 'd', 'y'];
    assert(a@ =~= lit_ready());
    copy_chars(&a)
}

/// `pack`
pub open spec fn lit_pack() -> Seq<char> {
    seq!['p', 'a', 'c', 'k']
}

pub fn mk_pack() -> (r: Vec<char>)
    ensures
        r@ == lit_pack(),
{
    let a: [char; 4] = ['p', 'a', 'c', 'k'];
    assert(a@ =~= lit_pack());
    copy_chars(&a)
}

/// `single`
pub open spec fn lit_single() -> Seq<char> {
    seq!['s', 'i', 'n', 'g', 'l', 'e']
}

pub fn mk_single() -> (r: Vec<char>)
    ensures
        r@ == lit_single(),
{
    let a: [char; 6] = ['s', 'i', 'n', 'g', 'l', 'e'];
    assert(a@ =~= lit_single());
    copy_chars(&a)
}

/// `missingFiles`
pub open spec fn lit_missing_files() -> Seq<char> {
    seq!['m', 'i', 's', 's', 'i', 'n', 'g', 'F', 'i', 'l', 'e', 's']
}

pub fn mk_missing_files() -> (r: Vec<char>)
    ensures
        r@ == lit_missing_files(),
{
    let a: [char; 12] = ['m', 'i', 's', 's', 'i', 'n', 'g', 'F', 'i', 'l', 'e', 's'];
    assert(a@ =~= lit_missing_files());
    copy_chars(&a)
}

/// `queuedDL`
pub open spec fn lit_queued_dl() -> Seq<char> {
    seq!['q', 'u', 'e', 'u', 'e', 'd', 'D', 'L']
}

pub fn mk_queued_dl() -> (r: Vec<char>)
    ensures
        r@ == lit_queued_dl(),
{
    let a: [char; 8] = ['q', 'u', 'e', 'u', 'e', 'd', 'D', 'L'];
    assert(a@ =~= lit_queued_dl());
    copy_chars(&a)
}

/// `checkingDL`
pub open spec fn lit_checking_dl() -> Seq<char> {
    seq!['c', 'h', 'e', 'c', 'k', 'i', 'n', 'g', 'D', 'L']
}

pub fn mk_checking_dl() -> (r: Vec<char>)
    ensures
        r@ == lit_checking_dl(),
{
    let a: [char; 10] = ['c', 'h', 'e', 'c', 'k', 'i', 'n', 'g', 'D', 'L'];
    assert(a@ =~= lit_checking_dl());
    copy_chars(&a)
}

/// `stalledDL`
pub open spec fn lit_stalled_dl() -> Seq<char> {
    seq!['s', 't', 'a', 'l', 'l', 'e', 'd', 'D', 'L']
}

pub fn mk_stalled_dl() -> (r: Vec<char>)
    ensures
        r@ == lit_stalled_dl(),
{
    let a: [char; 9] = ['s', 't', 'a', 'l', 'l', 'e', 'd', 'D', 'L'];
    assert(a@ =~= lit_stalled_dl());
    copy_chars(&a)
}

/// `metaDL`
pub open spec fn lit_meta_dl() -> Seq<char> {
    seq!['m', 'e', 't', 'a', 'D', 'L']
}

pub fn mk_meta_dl() -> (r: Vec<char>)
    ensures
        r@ == lit_meta_dl(),
{
    let a: [char; 6] = ['m', 'e', 't', 'a', 'D', 'L'];
    assert(a@ =~= lit_meta_dl());
    copy_chars(&a)
}

/// `forcedDL`
pub open spec fn lit_forced_dl() -> Seq<char> {
    seq!['f', 'o', 'r', 'c', 'e', 'd', 'D', 'L']
}

pub fn mk_forced_dl() -> (r: Vec<char>)
    ensures
        r@ == lit_forced_dl(),
{
    let a: [char; 8] = ['f', 'o', 'r', 'c', 'e', 'd', 'D', 'L'];
    assert(a@ =~= lit_forced_dl());
    copy_chars(&a)
}

/// `Your audiobook`
pub open spec fn lit_your_audiobook() -> Seq<char> {
    seq!['Y', 'o', 'u', 'r', ' ', 'a', 'u', 'd', 'i', 'o', 'b', 'o', 'o', 'k']
}

pub fn mk_your_audiobook() -> (r: Vec<char>)
    ensures
        r@ == lit_your_audiobook(),
{
    let a: [char; 14] = ['Y', 'o', 'u', 'r', ' ', 'a', 'u', 'd', 'i', 'o', 'b', 'o', 'o', 'k'];
    assert(a@ =~= lit_your_audiobook());
    copy_chars(&a)
}

/// `Download failed`
pub open spec fn lit_t_download_failed() -> Seq<char> {
    seq!['D', 'o', 'w', 'n', 'l', 'o', 'a', 'd', ' ', 'f', 'a', 'i', 'l', 'e', 'd']
}

pub fn mk_t_download_failed() -> (r: Vec<char>)
    ensures
        r@ == lit_t_download_failed(),
{
    let a: [char; 15] = ['D', 'o', 'w', 'n', 'l', 'o', 'a', 'd', ' ', 'f', 'a', 'i', 'l', 'e', 'd'];
    assert(a@ =~= lit_t_download_failed());
    copy_chars(&a)
}

/// `Pack ready to map`
pub open spec fn lit_t_pack_ready() -> Seq<char> {
    seq!['P', 'a', 'c', 'k', ' ', 'r', 'e', 'a', 'd', 'y', ' ', 't', 'o', ' ', 'm', 'a', 'p']
}

pub fn mk_t_pack_ready() -> (r: Vec<char>)
    ensures
        r@ == lit_t_pack_ready(),
{
    let a: [char; 17] = ['P', 'a', 'c', 'k', ' ', 'r', 'e', 'a', 'd', 'y', ' ', 't', 'o', ' ', 'm', 'a', 'p'];
    assert(a@ =~= lit_t_pack_ready());
    copy_chars(&a)
}

/// `Download finished`
pub open spec fn lit_t_download_finished() -> Seq<char> {
    seq!['D', 'o', 'w', 'n', 'l', 'o', 'a', 'd', ' ', 'f', 'i', 'n', 'i', 's', 'h', 'e', 'd']
}

pub fn mk_t_download_finished() -> (r: Vec<char>)
    ensures
        r@ == lit_t_download_finished(),
{
    let a: [char; 17] = ['D', 'o', 'w', 'n', 'l', 'o', 'a', 'd', ' ', 'f', 'i', 'n', 'i', 's', 'h', 'e', 'd'];
    assert(a@ =~= lit_t_download_finished());
    copy_chars(&a)
}

/// `Import failed`
pub open spec fn lit_t_import_failed() -> Seq<char> {
    seq!['I', 'm', 'p', 'o', 'r', 't', ' ', 'f', 'a', 'i', 'l', 'e', 'd']
}

pub fn mk_t_import_failed() -> (r: Vec<char>)
    ensures
        r@ == lit_t_import_failed(),
{
    let a: [char; 13] = ['I', 'm', 'p', 'o', 'r', 't', ' ', 'f', 'a', 'i', 'l', 'e', 'd'];
    assert(a@ =~= lit_t_import_failed());
    copy_chars(&a)
}

/// `Audiobook imported`
pub open spec fn lit_t_imported() -> Seq<char> {
    seq!['A', 'u', 'd', 'i', 'o', 'b', 'o', 'o', 'k', ' ', 'i', 'm', 'p', 'o', 'r', 't', 'e', 'd']
}

pub fn mk_t_imported() -> (r: Vec<char>)
    ensures
        r@ == lit_t_imported(),
{
    let a: [char; 18] = ['A', 'u', 'd', 'i', 'o', 'b', 'o', 'o', 'k', ' ', 'i', 'm', 'p', 'o', 'r', 't', 'e', 'd'];
    assert(a@ =~= lit_t_imported());
    copy_chars(&a)
}

/// ` is no longer in qBittorrent`
pub open spec fn lit_b_gone() -> Seq<char> {
    seq![' ', 'i', 's', ' ', 'n', 'o', ' ', 'l', 'o', 'n', 'g', 'e', 'r', ' ', 'i', 'n', ' ', 'q', 'B', 'i', 't', 't', 'o', 'r', 'r', 'e', 'n', 't']
}

pub fn mk_b_gone() -> (r: Vec<char>)
    ensures
        r@ == lit_b_gone(),
{
    let a: [char; 28] = [' ', 'i', 's', ' ', 'n', 'o', ' ', 'l', 'o', 'n', 'g', 'e', 'r', ' ', 'i', 'n', ' ', 'q', 'B', 'i', 't', 't', 'o', 'r', 'r', 'e', 'n', 't'];
    assert(a@ =~= lit_b_gone());
    copy_chars(&a)
}

/// ` failed in qBittorrent (`
pub open spec fn lit_b_failed_qb() -> Seq<char> {
    seq![' ', 'f', 'a', 'i', 'l', 'e', 'd', ' ', 'i', 'n', ' ', 'q', 'B', 'i', 't', 't', 'o', 'r', 'r', 'e', 'n', 't', ' ', '(']
}

pub fn mk_b_failed_qb() -> (r: Vec<char>)
    ensures
        r@ == lit_b_failed_qb(),
{
    let a: [char; 24] = [' ', 'f', 'a', 'i', 'l', 'e', 'd', ' ', 'i', 'n', ' ', 'q', 'B', 'i', 't', 't', 'o', 'r', 'r', 'e', 'n', 't', ' ', '('];
    assert(a@ =~= lit_b_failed_qb());
    copy_chars(&a)
}

/// `)`
pub open spec fn lit_close_paren() -> Seq<char> {
    seq![')']
}

pub fn mk_close_paren() -> (r: Vec<char>)
    ensures
        r@ == lit_close_paren(),
{
    let a: [char; 1] = [')'];
    assert(a@ =~= lit_close_paren());
    copy_chars(&a)
}

/// ` finished downloading — map books to import`
pub open spec fn lit_b_pack_ready() -> Seq<char> {
    seq![' ', 'f', 'i', 'n', 'i', 's', 'h', 'e', 'd', ' ', 'd', 'o', 'w', 'n', 'l', 'o', 'a', 'd', 'i', 'n', 'g', ' ', '\u{2014}', ' ', 'm', 'a', 'p', ' ', 'b', 'o', 'o', 'k', 's', ' ', 't', 'o', ' ', 'i', 'm', 'p', 'o', 'r', 't']
}

pub fn mk_b_pack_ready() -> (r: Vec<char>)
    ensures
        r@ == lit_b_pack_ready(),
{
    let a: [char; 43] = [' ', 'f', 'i', 'n', 'i', 's', 'h', 'e', 'd', ' ', 'd', 'o', 'w', 'n', 'l', 'o', 'a', 'd', 'i', 'n', 'g', ' ', '\u{2014}', ' ', 'm', 'a', 'p', ' ', 'b', 'o', 'o', 'k', 's', ' ', 't', 'o', ' ', 'i', 'm', 'p', 'o', 'r', 't'];
    assert(a@ =~= lit_b_pack_ready());
    copy_chars(&a)
}

/// ` finished downloading — importing…`
pub open spec fn lit_b_finished() -> Seq<char> {
    seq![' ', 'f', 'i', 'n', 'i', 's', 'h', 'e', 'd', ' ', 'd', 'o', 'w', 'n', 'l', 'o', 'a', 'd', 'i', 'n', 'g', ' ', '\u{2014}', ' ', 'i', 'm', 'p', 'o', 'r', 't', 'i', 'n', 'g', '\u{2026}']
}

pub fn mk_b_finished() -> (r: Vec<char>)
    ensures
        r@ == lit_b_finished(),
{
    let a: [char; 34] = [' ', 'f', 'i', 'n', 'i', 's', 'h', 'e', 'd', ' ', 'd', 'o', 'w', 'n', 'l', 'o', 'a', 'd', 'i', 'n', 'g', ' ', '\u{2014}', ' ', 'i', 'm', 'p', 'o', 'r', 't', 'i', 'n', 'g', '\u{2026}'];
    assert(a@ =~= lit_b_finished());
    copy_chars(&a)
}

/// ` finished downloading but has no Audible match`
pub open spec fn lit_b_no_match() -> Seq<char> {
    seq![' ', 'f', 'i', 'n', 'i', 's', 'h', 'e', 'd', ' ', 'd', 'o', 'w', 'n', 'l', 'o', 'a', 'd', 'i', 'n', 'g', ' ', 'b', 'u', 't', ' ', 'h', 'a', 's', ' ', 'n', 'o', ' ', 'A', 'u', 'd', 'i', 'b', 'l', 'e', ' ', 'm', 'a', 't', 'c', 'h']
}

pub fn mk_b_no_match() -> (r: Vec<char>)
    ensures
        r@ == lit_b_no_match(),
{
    let a: [char; 46] = [' ', 'f', 'i', 'n', 'i', 's', 'h', 'e', 'd', ' ', 'd', 'o', 'w', 'n', 'l', 'o', 'a', 'd', 'i', 'n', 'g', ' ', 'b', 'u', 't', ' ', 'h', 'a', 's', ' ', 'n', 'o', ' ', 'A', 'u', 'd', 'i', 'b', 'l', 'e', ' ', 'm', 'a', 't', 'c', 'h'];
    assert(a@ =~= lit_b_no_match());
    copy_chars(&a)
}

/// ` is ready in your library`
pub open spec fn lit_b_ready() -> Seq<char> {
    seq![' ', 'i', 's', ' ', 'r', 'e', 'a', 'd', 'y', ' ', 'i', 'n', ' ', 'y', 'o', 'u', 'r', ' ', 'l', 'i', 'b', 'r', 'a', 'r', 'y']
}

pub fn mk_b_ready() -> (r: Vec<char>)
    ensures
        r@ == lit_b_ready(),
{
    let a: [char; 25] = [' ', 'i', 's', ' ', 'r', 'e', 'a', 'd', 'y', ' ', 'i', 'n', ' ', 'y', 'o', 'u', 'r', ' ', 'l', 'i', 'b', 'r', 'a', 'r', 'y'];
    assert(a@ =~= lit_b_ready());
    copy_chars(&a)
}

/// ` could not be copied into your library`
pub open spec fn lit_b_copy_failed() -> Seq<char> {
    seq![' ', 'c', 'o', 'u', 'l', 'd', ' ', 'n', 'o', 't', ' ', 'b', 'e', ' ', 'c', 'o', 'p', 'i', 'e', 'd', ' ', 'i', 'n', 't', 'o', ' ', 'y', 'o', 'u', 'r', ' ', 'l', 'i', 'b', 'r', 'a', 'r', 'y']
}

pub fn mk_b_copy_failed() -> (r: Vec<char>)
    ensures
        r@ == lit_b_copy_failed(),
{
    let a: [char; 38] = [' ', 'c', 'o', 'u', 'l', 'd', ' ', 'n', 'o', 't', ' ', 'b', 'e', ' ', 'c', 'o', 'p', 'i', 'e', 'd', ' ', 'i', 'n', 't', 'o', ' ', 'y', 'o', 'u', 'r', ' ', 'l', 'i', 'b', 'r', 'a', 'r', 'y'];
    assert(a@ =~= lit_b_copy_failed());
    copy_chars(&a)
}

/// `__unset__/`
pub open spec fn lit_unset_prefix() -> Seq<char> {
    seq!['_', '_', 'u', 'n', 's', 'e', 't', '_', '_', '/']
}

pub fn mk_unset_prefix() -> (r: Vec<char>)
    ensures
        r@ == lit_unset_prefix(),
{
    let a: [char; 10] = ['_', '_', 'u', 'n', 's', 'e', 't', '_', '_', '/'];
    assert(a@ =~= lit_unset_prefix());
    copy_chars(&a)
}

/// `abk_`
pub open spec fn lit_abk() -> Seq<char> {
    seq!['a', 'b', 'k', '_']
}

pub fn mk_abk() -> (r: Vec<char>)
    ensures
        r@ == lit_abk(),
{
    let a: [char; 4] = ['a', 'b', 'k', '_'];
    assert(a@ =~= lit_abk());
    copy_chars(&a)
}

/// `Source not found`
pub open spec fn lit_source_not_found() -> Seq<char> {
    seq!['S', 'o', 'u', 'r', 'c', 'e', ' ', 'n', 'o', 't', ' ', 'f', 'o', 'u', 'n', 'd']
}

pub fn mk_source_not_found() -> (r: Vec<char>)
    ensures
        r@ == lit_source_not_found(),
{
    let a: [char; 16] = ['S', 'o', 'u', 'r', 'c', 'e', ' ', 'n', 'o', 't', ' ', 'f', 'o', 'u', 'n', 'd'];
    assert(a@ =~= lit_source_not_found());
    copy_chars(&a)
}

/// `does not exist`
pub open spec fn lit_does_not_exist() -> Seq<char> {
    seq!['d', 'o', 'e', 's', ' ', 'n', 'o', 't', ' ', 'e', 'x', 'i', 's', 't']
}

pub fn mk_does_not_exist() -> (r: Vec<char>)
    ensures
        r@ == lit_does_not_exist(),
{
    let a: [char; 14] = ['d', 'o', 'e', 's', ' ', 'n', 'o', 't', ' ', 'e', 'x', 'i', 's', 't'];
    assert(a@ =~= lit_does_not_exist());
    copy_chars(&a)
}

/// `Invalid kind '`
pub open spec fn lit_invalid_kind_a() -> Seq<char> {
    seq!['I', 'n', 'v', 'a', 'l', 'i', 'd', ' ', 'k', 'i', 'n', 'd', ' ', '\'']
}

pub fn mk_invalid_kind_a() -> (r: Vec<char>)
    ensures
        r@ == lit_invalid_kind_a(),
{
    let a: [char; 14] = ['I', 'n', 'v', 'a', 'l', 'i', 'd', ' ', 'k', 'i', 'n', 'd', ' ', '\''];
    assert(a@ =~= lit_invalid_kind_a());
    copy_chars(&a)
}

/// `' (use single or pack)`
pub open spec fn lit_invalid_kind_b() -> Seq<char> {
    seq!['\'', ' ', '(', 'u', 's', 'e', ' ', 's', 'i', 'n', 'g', 'l', 'e', ' ', 'o', 'r', ' ', 'p', 'a', 'c', 'k', ')']
}

pub fn mk_invalid_kind_b() -> (r: Vec<char>)
    ensures
        r@ == lit_invalid_kind_b(),
{
    let a: [char; 22] = ['\'', ' ', '(', 'u', 's', 'e', ' ', 's', 'i', 'n', 'g', 'l', 'e', ' ', 'o', 'r', ' ', 'p', 'a', 'c', 'k', ')'];
    assert(a@ =~= lit_invalid_kind_b());
    copy_chars(&a)
}

/// `/#/`
pub open spec fn lit_root_url() -> Seq<char> {
    seq!['/', '#', '/']
}

pub fn mk_root_url() -> (r: Vec<char>)
    ensures
        r@ == lit_root_url(),
{
    let a: [char; 3] = ['/', '#', '/'];
    assert(a@ =~= lit_root_url());
    copy_chars(&a)
}

/// `mailto:admin@localhost`
pub open spec fn lit_mailto_admin() -> Seq<char> {
    seq!['m', 'a', 'i', 'l', 't', 'o', ':', 'a', 'd', 'm', 'i', 'n', '@', 'l', 'o', 'c', 'a', 'l', 'h', 'o', 's', 't']
}

pub fn mk_mailto_admin() -> (r: Vec<char>)
    ensures
        r@ == lit_mailto_admin(),
{
    let a: [char; 22] = ['m', 'a', 'i', 'l', 't', 'o', ':', 'a', 'd', 'm', 'i', 'n', '@', 'l', 'o', 'c', 'a', 'l', 'h', 'o', 's', 't'];
    assert(a@ =~= lit_mailto_admin());
    copy_chars(&a)
}

/// `mailto:audiobooker@localhost`
pub open spec fn lit_mailto_audiobooker() -> Seq<char> {
    seq!['m', 'a', 'i', 'l', 't', 'o', ':', 'a', 'u', 'd', 'i', 'o', 'b', 'o', 'o', 'k', 'e', 'r', '@', 'l', 'o', 'c', 'a', 'l', 'h', 'o', 's', 't']
}

pub fn mk_mailto_audiobooker() -> (r: Vec<char>)
    ensures
        r@ == lit_mailto_audiobooker(),
{
    let a: [char; 28] = ['m', 'a', 'i', 'l', 't', 'o', ':', 'a', 'u', 'd', 'i', 'o', 'b', 'o', 'o', 'k', 'e', 'r', '@', 'l', 'o', 'c', 'a', 'l', 'h', 'o', 's', 't'];
    assert(a@ =~= lit_mailto_audiobooker());
    copy_chars(&a)
}

/// `410`
pub open spec fn lit_c410() -> Seq<char> {
    seq!['4', '1', '0']
}

pub fn mk_c410() -> (r: Vec<char>)
    ensures
        r@ == lit_c410(),
{
    let a: [char; 3] = ['4', '1', '0'];
    assert(a@ =~= lit_c410());
    copy_chars(&a)
}

/// `404`
pub open spec fn lit_c404() -> Seq<char> {
    seq!['4', '0', '4']
}

pub fn mk_c404() -> (r: Vec<char>)
    ensures
        r@ == lit_c404(),
{
    let a: [char; 3] = ['4', '0', '4'];
    assert(a@ =~= lit_c404());
    copy_chars(&a)
}

/// `user`
pub open spec fn lit_user_role() -> Seq<char> {
    seq!['u', 's', 'e', 'r']
}

pub fn mk_user_role() -> (r: Vec<char>)
    ensures
        r@ == lit_user_role(),
{
    let a: [char; 4] = ['u', 's', 'e', 'r'];
    assert(a@ =~= lit_user_role());
    copy_chars(&a)
}

} // verus!
