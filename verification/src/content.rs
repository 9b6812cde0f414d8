//! The files of a download as the user browses them to map a pack.
use vstd::prelude::*;

use crate::metadata::pieces;
use crate::text::{chars_to_string, str_chars};

verus! {

/// A file or folder inside a download, by its path relative to the
/// download's folder.
#[derive(Debug, Clone)]
pub struct ContentEntry {
    pub path: String,
    pub name: String,
    pub is_dir: bool,
    pub size: i64,
}

/// The path of each folder on the way to a file: the pieces between `/`
/// joined back one by one (an empty leading piece adds no `/`).
pub open spec fn dir_steps(parts: Seq<Seq<char>>) -> Seq<Seq<char>>
    decreases parts.len(),
{
    if parts.len() == 0 {
        Seq::empty()
    } else {
        let prev = dir_steps(parts.drop_last());
        let acc = if prev.len() == 0 {
            Seq::empty()
        } else {
            prev.last()
        };
        prev.push(
            if acc.len() == 0 {
                parts.last()
            } else {
                acc + seq!['/'] + parts.last()
            },
        )
    }
}

pub proof fn lemma_dir_steps_len(parts: Seq<Seq<char>>)
    ensures
        dir_steps(parts).len() == parts.len(),
    decreases parts.len(),
{
    if parts.len() > 0 {
        lemma_dir_steps_len(parts.drop_last());
    }
}

/// The folders above a file at `clean`.
pub open spec fn dirs_of(clean: Seq<char>) -> Seq<Seq<char>> {
    let parts = pieces(clean, '/');
    dir_steps(parts).take(parts.len() - 1)
}

/// A path as qBittorrent lists it, cleaned: leading `/` dropped, `\` made
/// `/`.
pub open spec fn clean_of(name: Seq<char>) -> Seq<char> {
    crate::files::spec_norm_rel(name)
}

/// The size of the file at `p`: that of its last listing.
pub open spec fn file_size(paths: Seq<(Seq<char>, i64)>, p: Seq<char>) -> i64
    decreases paths.len(),
{
    if paths.len() == 0 {
        0
    } else if clean_of(paths.last().0) == p {
        paths.last().1
    } else {
        file_size(paths.drop_last(), p)
    }
}

/// The last segment of a path.
pub open spec fn last_segment(p: Seq<char>) -> Seq<char> {
    let ps = pieces(p, '/');
    ps[ps.len() - 1]
}

/// `a` comes before `b` character by character.
pub open spec fn seq_lt(a: Seq<char>, b: Seq<char>) -> bool
    decreases a.len(),
{
    if a.len() == 0 {
        b.len() > 0
    } else if b.len() == 0 {
        false
    } else if a[0] < b[0] {
        true
    } else if a[0] == b[0] {
        seq_lt(a.drop_first(), b.drop_first())
    } else {
        false
    }
}

pub proof fn lemma_seq_lt_irreflexive(a: Seq<char>)
    ensures
        !seq_lt(a, a),
    decreases a.len(),
{
    if a.len() > 0 {
        lemma_seq_lt_irreflexive(a.drop_first());
    }
}

pub proof fn lemma_seq_lt_total(a: Seq<char>, b: Seq<char>)
    ensures
        a == b || seq_lt(a, b) || seq_lt(b, a),
    decreases a.len(),
{
    if a.len() > 0 && b.len() > 0 && a[0] == b[0] {
        lemma_seq_lt_total(a.drop_first(), b.drop_first());
        if a.drop_first() == b.drop_first() {
            assert(a =~= seq![a[0]] + a.drop_first());
            assert(b =~= seq![b[0]] + b.drop_first());
        }
    } else if a.len() == 0 && b.len() == 0 {
        assert(a =~= b);
    } else if a.len() > 0 && b.len() > 0 {
        assert(a[0] < b[0] || b[0] < a[0]);
    }
}

pub proof fn lemma_seq_lt_transitive(a: Seq<char>, b: Seq<char>, c: Seq<char>)
    requires
        seq_lt(a, b),
        seq_lt(b, c),
    ensures
        seq_lt(a, c),
    decreases a.len(),
{
    if a.len() > 0 && b.len() > 0 && c.len() > 0 && a[0] == b[0] && b[0] == c[0] {
        lemma_seq_lt_transitive(a.drop_first(), b.drop_first(), c.drop_first());
    }
}

pub proof fn lemma_seq_lt_asymmetric(a: Seq<char>, b: Seq<char>)
    requires
        seq_lt(a, b),
    ensures
        !seq_lt(b, a),
    decreases a.len(),
{
    if a.len() > 0 && b.len() > 0 && a[0] == b[0] {
        lemma_seq_lt_asymmetric(a.drop_first(), b.drop_first());
    }
}

/// `str::to_lowercase` (full Unicode case mapping).
pub uninterp spec fn spec_to_lowercase(s: Seq<char>) -> Seq<char>;

/// `str::to_lowercase`: the Unicode lower case of a text.
#[verifier::external_body]
fn to_lowercase(s: &str) -> (r: String)
    ensures
        r@ == spec_to_lowercase(s@),
{
    s.to_lowercase()
}

/// An entry as plain values: path, name, folder or not, size.
pub open spec fn entry_view(e: ContentEntry) -> (Seq<char>, Seq<char>, bool, i64) {
    (e.path@, e.name@, e.is_dir, e.size)
}

pub open spec fn entries_view(v: Seq<ContentEntry>) -> Seq<(Seq<char>, Seq<char>, bool, i64)> {
    v.map_values(|e: ContentEntry| entry_view(e))
}

/// Listing order: folders first, then by lower-cased path, then by path.
pub open spec fn entry_lt(a: (Seq<char>, Seq<char>, bool, i64), b: (Seq<char>, Seq<char>, bool, i64)) -> bool {
    (a.2 && !b.2) || (a.2 == b.2 && (seq_lt(spec_to_lowercase(a.0), spec_to_lowercase(b.0)) || (
    spec_to_lowercase(a.0) == spec_to_lowercase(b.0) && seq_lt(a.0, b.0))))
}

pub proof fn lemma_entry_lt_total(a: (Seq<char>, Seq<char>, bool, i64), b: (Seq<char>, Seq<char>, bool, i64))
    requires
        !(a.2 == b.2 && a.0 == b.0),
    ensures
        entry_lt(a, b) || entry_lt(b, a),
{
    lemma_seq_lt_total(spec_to_lowercase(a.0), spec_to_lowercase(b.0));
    lemma_seq_lt_total(a.0, b.0);
}

pub proof fn lemma_entry_lt_transitive(
    a: (Seq<char>, Seq<char>, bool, i64),
    b: (Seq<char>, Seq<char>, bool, i64),
    c: (Seq<char>, Seq<char>, bool, i64),
)
    requires
        entry_lt(a, b),
        entry_lt(b, c),
    ensures
        entry_lt(a, c),
{
    let (la, lb, lc) = (spec_to_lowercase(a.0), spec_to_lowercase(b.0), spec_to_lowercase(c.0));
    if a.2 == b.2 && b.2 == c.2 {
        if seq_lt(la, lb) && seq_lt(lb, lc) {
            lemma_seq_lt_transitive(la, lb, lc);
        } else if seq_lt(a.0, b.0) && seq_lt(b.0, c.0) && la == lb && lb == lc {
            lemma_seq_lt_transitive(a.0, b.0, c.0);
        }
    }
}

pub open spec fn sorted_entries(s: Seq<(Seq<char>, Seq<char>, bool, i64)>) -> bool {
    forall|i: int, j: int| 0 <= i < j < s.len() ==> entry_lt(#[trigger] s[i], #[trigger] s[j])
}

} // verus!

verus! {

pub open spec fn paths_view(paths: Seq<(String, i64)>) -> Seq<(Seq<char>, i64)> {
    paths.map_values(|p: (String, i64)| (p.0@, p.1))
}

/// The files listed: each cleaned path that is not empty.
pub open spec fn file_set(paths: Seq<(Seq<char>, i64)>) -> Set<Seq<char>>
    decreases paths.len(),
{
    if paths.len() == 0 {
        Set::empty()
    } else {
        let c = clean_of(paths.last().0);
        let prev = file_set(paths.drop_last());
        if c.len() == 0 {
            prev
        } else {
            prev.insert(c)
        }
    }
}

/// The folders inferred: those above each listed file.
pub open spec fn dir_set(paths: Seq<(Seq<char>, i64)>) -> Set<Seq<char>>
    decreases paths.len(),
{
    if paths.len() == 0 {
        Set::empty()
    } else {
        let c = clean_of(paths.last().0);
        let prev = dir_set(paths.drop_last());
        if c.len() == 0 {
            prev
        } else {
            prev.union(dirs_of(c).to_set())
        }
    }
}

/// The entry of a folder, and of a file with its size.
pub open spec fn dir_entry(d: Seq<char>) -> (Seq<char>, Seq<char>, bool, i64) {
    (d, last_segment(d), true, 0)
}

pub open spec fn file_entry(paths: Seq<(Seq<char>, i64)>, p: Seq<char>) -> (Seq<char>, Seq<char>, bool, i64) {
    (p, last_segment(p), false, file_size(paths, p))
}

pub fn split_on_char(s: &[char], c: char) -> (r: Vec<Vec<char>>)
    ensures
        crate::abb::vv_view(r@) == pieces(s@, c),
{
    let mut done: Vec<Vec<char>> = Vec::new();
    let mut cur: Vec<char> = Vec::new();
    let mut i: usize = 0;
    while i < s.len()
        invariant
            i <= s.len(),
            crate::abb::vv_view(done@).push(cur@) == pieces(s@.take(i as int), c),
        decreases s.len() - i,
    {
        let ghost before = pieces(s@.take(i as int), c);
        assert(s@.take(i + 1).drop_last() =~= s@.take(i as int));
        proof {
            crate::metadata::lemma_pieces_len(s@.take(i as int), c);
        }
        if s[i] == c {
            let mut old_cur: Vec<char> = Vec::new();
            std::mem::swap(&mut old_cur, &mut cur);
            done.push(old_cur);
            assert(crate::abb::vv_view(done@).push(cur@) =~= before.push(Seq::empty()));
        } else {
            cur.push(s[i]);
            assert(crate::abb::vv_view(done@).push(cur@) =~= before.update(
                before.len() - 1,
                before.last().push(s@[i as int]),
            ));
        }
        i += 1;
    }
    assert(s@.take(s.len() as int) =~= s@);
    done.push(cur);
    done
}

fn last_segment_exec(p: &[char]) -> (r: Vec<char>)
    ensures
        r@ == last_segment(p@),
{
    let ps = split_on_char(p, '/');
    proof {
        crate::metadata::lemma_pieces_len(p@, '/');
    }
    let n = ps.len();
    assert(ps@[n - 1]@ == crate::abb::vv_view(ps@)[n - 1]);
    crate::text::copy_chars(ps[n - 1].as_slice())
}

fn dirs_of_exec(clean: &[char]) -> (r: Vec<Vec<char>>)
    ensures
        crate::abb::vv_view(r@) == dirs_of(clean@),
{
    let parts = split_on_char(clean, '/');
    let ghost pv = crate::abb::vv_view(parts@);
    proof {
        crate::metadata::lemma_pieces_len(clean@, '/');
    }
    let mut steps: Vec<Vec<char>> = Vec::new();
    let mut k: usize = 0;
    while k + 1 < parts.len()
        invariant
            k + 1 <= parts.len(),
            pv == crate::abb::vv_view(parts@),
            crate::abb::vv_view(steps@) == dir_steps(pv.take(k as int)),
        decreases parts.len() - k,
    {
        proof {
            lemma_dir_steps_len(pv.take(k as int));
        }
        assert(pv.take(k + 1).drop_last() =~= pv.take(k as int));
        assert(pv.take(k + 1).last() == parts@[k as int]@);
        let ghost prev = dir_steps(pv.take(k as int));
        let acc: Vec<char> = if steps.len() == 0 {
            Vec::new()
        } else {
            assert(prev.last() == steps@[steps.len() - 1]@);
            crate::text::copy_chars(steps[steps.len() - 1].as_slice())
        };
        assert(acc@ == (if prev.len() == 0 {
            Seq::<char>::empty()
        } else {
            prev.last()
        }));
        let next: Vec<char> = if acc.len() == 0 {
            crate::text::copy_chars(parts[k].as_slice())
        } else {
            let mut a = acc;
            a.push('/');
            crate::text::extend_chars(&mut a, parts[k].as_slice());
            a
        };
        assert(next@ == (if acc@.len() == 0 {
            pv.take(k + 1).last()
        } else {
            acc@ + seq!['/'] + pv.take(k + 1).last()
        }));
        let ghost before = crate::abb::vv_view(steps@);
        steps.push(next);
        assert(crate::abb::vv_view(steps@) =~= before.push(next@));
        assert(dir_steps(pv.take(k + 1)) == prev.push(next@));
        k += 1;
    }
    proof {
        lemma_dir_steps_len(pv);
        lemma_dir_steps_prefix(pv, k as int);
    }
    steps
}

/// The steps over a prefix of the pieces are a prefix of the steps.
pub proof fn lemma_dir_steps_prefix(parts: Seq<Seq<char>>, k: int)
    requires
        0 <= k <= parts.len(),
    ensures
        dir_steps(parts.take(k)) == dir_steps(parts).take(k),
    decreases parts.len(),
{
    lemma_dir_steps_len(parts);
    if k < parts.len() {
        assert(parts.drop_last().take(k) =~= parts.take(k));
        lemma_dir_steps_prefix(parts.drop_last(), k);
        assert(dir_steps(parts).drop_last() == dir_steps(parts.drop_last()));
        assert(dir_steps(parts).take(k) =~= dir_steps(parts.drop_last()).take(k));
    } else {
        assert(parts.take(k) =~= parts);
        assert(dir_steps(parts).take(k) =~= dir_steps(parts));
    }
}

} // verus!

verus! {

fn seq_lt_exec(a: &[char], b: &[char]) -> (r: bool)
    ensures
        r == seq_lt(a@, b@),
{
    let mut i: usize = 0;
    assert(a@.skip(0) =~= a@);
    assert(b@.skip(0) =~= b@);
    while i < a.len() && i < b.len() && a[i] == b[i]
        invariant
            i <= a.len(),
            i <= b.len(),
            seq_lt(a@, b@) == seq_lt(a@.skip(i as int), b@.skip(i as int)),
        decreases a.len() - i,
    {
        assert(a@.skip(i as int).drop_first() =~= a@.skip(i + 1));
        assert(b@.skip(i as int).drop_first() =~= b@.skip(i + 1));
        assert(a@.skip(i as int)[0] == b@.skip(i as int)[0]);
        i += 1;
    }
    if i == a.len() {
        i < b.len()
    } else if i == b.len() {
        false
    } else {
        a[i] < b[i]
    }
}

fn entry_lt_exec(a: &ContentEntry, b: &ContentEntry) -> (r: bool)
    ensures
        r == entry_lt(entry_view(*a), entry_view(*b)),
{
    if a.is_dir && !b.is_dir {
        return true;
    }
    if a.is_dir != b.is_dir {
        return false;
    }
    let la = str_chars(to_lowercase(a.path.as_str()).as_str());
    let lb = str_chars(to_lowercase(b.path.as_str()).as_str());
    if seq_lt_exec(la.as_slice(), lb.as_slice()) {
        return true;
    }
    crate::text::chars_eq(la.as_slice(), lb.as_slice()) && seq_lt_exec(
        str_chars(a.path.as_str()).as_slice(),
        str_chars(b.path.as_str()).as_slice(),
    )
}

fn insert_entry(out: &mut Vec<ContentEntry>, e: ContentEntry)
    requires
        sorted_entries(entries_view(old(out)@)),
        forall|x: (Seq<char>, Seq<char>, bool, i64)|
            entries_view(old(out)@).contains(x) ==> !(x.0 == e.path@ && x.2 == e.is_dir),
    ensures
        sorted_entries(entries_view(final(out)@)),
        forall|x: (Seq<char>, Seq<char>, bool, i64)|
            entries_view(final(out)@).contains(x) <==> (entries_view(old(out)@).contains(x) || x
                == entry_view(e)),
{
    let ghost ov = entries_view(out@);
    let ghost ev = entry_view(e);
    let mut pos: usize = 0;
    while pos < out.len() && !entry_lt_exec(&e, &out[pos])
        invariant
            pos <= out.len(),
            ov == entries_view(out@),
            ev == entry_view(e),
            forall|k: int| 0 <= k < pos ==> !entry_lt(ev, #[trigger] ov[k]),
        decreases out.len() - pos,
    {
        assert(ov[pos as int] == entry_view(out@[pos as int]));
        pos += 1;
    }
    out.insert(pos, e);
    let ghost nv = entries_view(out@);
    assert(nv =~= ov.insert(pos as int, ev));
    assert forall|a: int, b: int| 0 <= a < b < nv.len() implies entry_lt(#[trigger] nv[a], #[trigger] nv[b]) by {
        let p = pos as int;
        if a < p && b < p {
            assert(nv[a] == ov[a] && nv[b] == ov[b]);
        } else if a < p && b == p {
            assert(ov.contains(ov[a]));
            lemma_entry_lt_total(ov[a], ev);
        } else if a < p && b > p {
            assert(ov.contains(ov[a]));
            lemma_entry_lt_total(ov[a], ev);
            if b - 1 == p {
                lemma_entry_lt_transitive(ov[a], ev, ov[b - 1]);
            } else {
                lemma_entry_lt_transitive(ov[a], ev, ov[p]);
                lemma_entry_lt_transitive(ov[a], ov[p], ov[b - 1]);
            }
        } else if a == p {
            if b - 1 != p {
                lemma_entry_lt_transitive(ev, ov[p], ov[b - 1]);
            }
        } else {
            assert(nv[a] == ov[a - 1] && nv[b] == ov[b - 1]);
        }
    }
    assert forall|x: (Seq<char>, Seq<char>, bool, i64)| nv.contains(x) <==> (ov.contains(x) || x == ev) by {
        if nv.contains(x) {
            let k = choose|k: int| 0 <= k < nv.len() && nv[k] == x;
            if k < pos {
                assert(ov[k] == x);
            } else if k > pos {
                assert(ov[k - 1] == x);
            }
        }
        if ov.contains(x) {
            let k = choose|k: int| 0 <= k < ov.len() && ov[k] == x;
            if k < pos {
                assert(nv[k] == x);
            } else {
                assert(nv[k + 1] == x);
            }
        }
        if x == ev {
            assert(nv[pos as int] == x);
        }
    }
}

} // verus!

verus! {

pub open spec fn distinct(s: Seq<Seq<char>>) -> bool {
    forall|a: int, b: int| 0 <= a < s.len() && 0 <= b < s.len() && a != b ==> #[trigger] s[a] != #[trigger] s[b]
}

fn find_text(v: &Vec<String>, p: &[char]) -> (r: Option<usize>)
    ensures
        match r {
            Some(j) => j < v.len() && v@[j as int]@ == p@,
            None => !crate::text::seqs_view(v@).contains(p@),
        },
{
    let ghost vv = crate::text::seqs_view(v@);
    let mut j: usize = 0;
    while j < v.len()
        invariant
            j <= v.len(),
            vv == crate::text::seqs_view(v@),
            forall|k: int| 0 <= k < j ==> vv[k] != p@,
        decreases v.len() - j,
    {
        let t = str_chars(v[j].as_str());
        if crate::text::chars_eq(t.as_slice(), p) {
            return Some(j);
        }
        assert(vv[j as int] == v@[j as int]@);
        j += 1;
    }
    assert(!vv.contains(p@)) by {
        if vv.contains(p@) {
            let k = choose|k: int| 0 <= k < vv.len() && vv[k] == p@;
            assert(vv[k] != p@);
        }
    }
    None
}

fn add_new(v: &mut Vec<String>, p: &[char])
    requires
        distinct(crate::text::seqs_view(old(v)@)),
    ensures
        distinct(crate::text::seqs_view(final(v)@)),
        forall|d: Seq<char>|
            crate::text::seqs_view(final(v)@).contains(d) <==> (crate::text::seqs_view(
                old(v)@,
            ).contains(d) || d == p@),
{
    match find_text(v, p) {
        Some(j) => {
            assert(crate::text::seqs_view(v@)[j as int] == p@);
            assert(crate::text::seqs_view(v@).contains(p@));
        },
        None => {
            let ghost before = crate::text::seqs_view(v@);
            v.push(chars_to_string(p));
            let ghost after = crate::text::seqs_view(v@);
            assert(after =~= before.push(p@));
            proof {
                lemma_push_contains(before, p@);
            }
            assert forall|a: int, b: int| 0 <= a < after.len() && 0 <= b < after.len() && a != b implies #[trigger] after[a] != #[trigger] after[b] by {
                if a == before.len() && b < before.len() {
                    assert(before.contains(before[b]));
                } else if b == before.len() && a < before.len() {
                    assert(before.contains(before[a]));
                } else {
                    assert(after[a] == before[a] && after[b] == before[b]);
                }
            }
        },
    }
}

/// What a pushed sequence contains.
pub proof fn lemma_push_contains<A>(s: Seq<A>, x: A)
    ensures
        forall|y: A| #[trigger] s.push(x).contains(y) <==> (s.contains(y) || y == x),
{
    assert forall|y: A| #[trigger] s.push(x).contains(y) <==> (s.contains(y) || y == x) by {
        if s.push(x).contains(y) {
            let k = choose|k: int| 0 <= k < s.push(x).len() && s.push(x)[k] == y;
            if k < s.len() {
                assert(s[k] == y);
            }
        }
        if s.contains(y) {
            let k = choose|k: int| 0 <= k < s.len() && s[k] == y;
            assert(s.push(x)[k] == y);
        }
        if y == x {
            assert(s.push(x)[s.len() as int] == y);
        }
    }
}

pub proof fn lemma_file_set_nonempty(paths: Seq<(Seq<char>, i64)>, p: Seq<char>)
    ensures
        file_set(paths).contains(p) ==> p.len() > 0,
    decreases paths.len(),
{
    if paths.len() > 0 {
        lemma_file_set_nonempty(paths.drop_last(), p);
    }
}

/// The entries of a download from the files qBittorrent lists (path and
/// size): each file once, with the size of its last listing, and each
/// folder above them; folders first, then by lower-cased path, then by
/// path.
pub fn entries_from_qb_paths(paths: &[(String, i64)]) -> (r: Vec<ContentEntry>)
    ensures
        sorted_entries(entries_view(r@)),
        forall|x: (Seq<char>, Seq<char>, bool, i64)|
            entries_view(r@).contains(x) <==> ((x.2 && dir_set(paths_view(paths@)).contains(x.0)
                && x == dir_entry(x.0)) || (!x.2 && file_set(paths_view(paths@)).contains(x.0)
                && x == file_entry(paths_view(paths@), x.0))),
{
    let ghost pv = paths_view(paths@);
    let mut fpaths: Vec<String> = Vec::new();
    let mut fsizes: Vec<i64> = Vec::new();
    let mut dirs: Vec<String> = Vec::new();
    let mut i: usize = 0;
    while i < paths.len()
        invariant
            i <= paths.len(),
            pv == paths_view(paths@),
            distinct(crate::text::seqs_view(fpaths@)),
            forall|p: Seq<char>|
                crate::text::seqs_view(fpaths@).contains(p) <==> file_set(pv.take(i as int)).contains(p),
            fsizes.len() == fpaths.len(),
            forall|j: int|
                0 <= j < fsizes.len() ==> #[trigger] fsizes@[j] == file_size(pv.take(i as int), fpaths@[j]@),
            distinct(crate::text::seqs_view(dirs@)),
            forall|d: Seq<char>|
                crate::text::seqs_view(dirs@).contains(d) <==> dir_set(pv.take(i as int)).contains(d),
        decreases paths.len() - i,
    {
        let ghost t = pv.take(i + 1);
        assert(t.drop_last() =~= pv.take(i as int));
        assert(t.last() == (paths@[i as int].0@, paths@[i as int].1));
        let c = crate::files::norm_rel(str_chars(paths[i].0.as_str()).as_slice());
        let size = paths[i].1;
        assert(clean_of(t.last().0) == c@);
        let ghost fv0 = crate::text::seqs_view(fpaths@);
        proof {
            lemma_file_set_nonempty(pv.take(i as int), c@);
        }
        if c.len() > 0 {
            match find_text(&fpaths, c.as_slice()) {
                Some(j) => {
                    fsizes.set(j, size);
                    assert forall|k: int| 0 <= k < fsizes.len() implies #[trigger] fsizes@[k] == file_size(t, fpaths@[k]@) by {
                        if k != j {
                            assert(fv0[k] != fv0[j as int]);
                        }
                    }
                    assert forall|p: Seq<char>| crate::text::seqs_view(fpaths@).contains(p) <==> file_set(t).contains(p) by {
                        if p == c@ {
                            assert(fv0[j as int] == c@);
                        }
                    }
                },
                None => {
                    fpaths.push(chars_to_string(c.as_slice()));
                    fsizes.push(size);
                    let ghost fv1 = crate::text::seqs_view(fpaths@);
                    assert(fv1 =~= fv0.push(c@));
                    proof {
                        lemma_push_contains(fv0, c@);
                    }
                    assert forall|k: int| 0 <= k < fsizes.len() implies #[trigger] fsizes@[k] == file_size(t, fpaths@[k]@) by {
                        if k < fv0.len() {
                            assert(fv1[k] == fv0[k]);
                            assert(fv0.contains(fv0[k]));
                        }
                    }
                    assert forall|a: int, b: int| 0 <= a < fv1.len() && 0 <= b < fv1.len() && a != b implies #[trigger] fv1[a] != #[trigger] fv1[b] by {
                        if a == fv0.len() && b < fv0.len() {
                            assert(fv0.contains(fv0[b]));
                        } else if b == fv0.len() && a < fv0.len() {
                            assert(fv0.contains(fv0[a]));
                        }
                    }
                },
            }
            let ds = dirs_of_exec(c.as_slice());
            let ghost dsv = crate::abb::vv_view(ds@);
            let ghost dv0 = crate::text::seqs_view(dirs@);
            let mut k: usize = 0;
            while k < ds.len()
                invariant
                    k <= ds.len(),
                    dsv == crate::abb::vv_view(ds@),
                    dsv == dirs_of(c@),
                    distinct(crate::text::seqs_view(dirs@)),
                    forall|d: Seq<char>|
                        crate::text::seqs_view(dirs@).contains(d) <==> (dv0.contains(d)
                            || dsv.take(k as int).contains(d)),
                decreases ds.len() - k,
            {
                let ghost before = crate::text::seqs_view(dirs@);
                assert(forall|d: Seq<char>| before.contains(d) <==> (dv0.contains(d) || dsv.take(k as int).contains(d)));
                add_new(&mut dirs, ds[k].as_slice());
                assert(dsv[k as int] == ds@[k as int]@);
                assert(dsv.take(k + 1) =~= dsv.take(k as int).push(dsv[k as int]));
                proof {
                    lemma_push_contains(dsv.take(k as int), dsv[k as int]);
                }
                assert forall|d: Seq<char>| crate::text::seqs_view(dirs@).contains(d) <==> (dv0.contains(d)
                    || dsv.take(k + 1).contains(d)) by {
                    assert(crate::text::seqs_view(dirs@).contains(d) <==> (before.contains(d) || d == dsv[k as int]));
                    assert(before.contains(d) <==> (dv0.contains(d) || dsv.take(k as int).contains(d)));
                    assert(dsv.take(k + 1).contains(d) <==> (dsv.take(k as int).contains(d) || d == dsv[k as int]));
                }
                k += 1;
            }
            assert(dsv.take(ds.len() as int) =~= dsv);
            assert(dir_set(t) == dir_set(pv.take(i as int)).union(dirs_of(c@).to_set()));
            assert forall|d: Seq<char>| crate::text::seqs_view(dirs@).contains(d) <==> dir_set(t).contains(d) by {
                assert(dirs_of(c@).to_set().contains(d) <==> dsv.contains(d));
                assert(dv0.contains(d) <==> dir_set(pv.take(i as int)).contains(d));
            }
        } else {
            assert forall|k: int| 0 <= k < fsizes.len() implies #[trigger] fsizes@[k] == file_size(t, fpaths@[k]@) by {
                assert(fv0.contains(fv0[k]));
                assert(fv0[k] == fpaths@[k]@);
            }
        }
        i += 1;
    }
    assert(pv.take(paths.len() as int) =~= pv);
    assert(forall|p: Seq<char>| crate::text::seqs_view(fpaths@).contains(p) <==> file_set(pv).contains(p));
    assert(forall|p: Seq<char>| crate::text::seqs_view(dirs@).contains(p) <==> dir_set(pv).contains(p));
    assert(forall|j: int| 0 <= j < fsizes.len() ==> #[trigger] fsizes@[j] == file_size(pv, fpaths@[j]@));
    let mut out: Vec<ContentEntry> = Vec::new();
    let ghost dv = crate::text::seqs_view(dirs@);
    let mut k: usize = 0;
    while k < dirs.len()
        invariant
            k <= dirs.len(),
            dv == crate::text::seqs_view(dirs@),
            distinct(dv),
            sorted_entries(entries_view(out@)),
            forall|x: (Seq<char>, Seq<char>, bool, i64)|
                entries_view(out@).contains(x) <==> (x.2 && dv.take(k as int).contains(x.0) && x
                    == dir_entry(x.0)),
        decreases dirs.len() - k,
    {
        let p = str_chars(dirs[k].as_str());
        let e = ContentEntry {
            path: dirs[k].as_str().to_owned(),
            name: chars_to_string(last_segment_exec(p.as_slice()).as_slice()),
            is_dir: true,
            size: 0,
        };
        assert(dv[k as int] == dirs@[k as int]@);
        assert forall|x: (Seq<char>, Seq<char>, bool, i64)| entries_view(out@).contains(x) implies !(x.0 == e.path@ && x.2 == e.is_dir) by {
            if x.0 == e.path@ {
                let m = choose|m: int| 0 <= m < k && dv.take(k as int)[m] == x.0;
                assert(dv[m] == dv[k as int]);
            }
        }
        insert_entry(&mut out, e);
        assert(dv.take(k + 1) =~= dv.take(k as int).push(dv[k as int]));
        proof {
            lemma_push_contains(dv.take(k as int), dv[k as int]);
        }
        k += 1;
    }
    assert(dv.take(dirs.len() as int) =~= dv);
    assert(forall|x: (Seq<char>, Seq<char>, bool, i64)| entries_view(out@).contains(x) <==> (x.2 && dv.contains(x.0) && x == dir_entry(x.0)));
    let ghost fv = crate::text::seqs_view(fpaths@);
    let ghost out_dirs = entries_view(out@);
    let mut k: usize = 0;
    while k < fpaths.len()
        invariant
            k <= fpaths.len(),
            fv == crate::text::seqs_view(fpaths@),
            distinct(fv),
            fsizes.len() == fpaths.len(),
            forall|j: int| 0 <= j < fsizes.len() ==> #[trigger] fsizes@[j] == file_size(pv, fpaths@[j]@),
            sorted_entries(entries_view(out@)),
            forall|x: (Seq<char>, Seq<char>, bool, i64)|
                entries_view(out@).contains(x) <==> (out_dirs.contains(x) || (!x.2 && fv.take(
                    k as int,
                ).contains(x.0) && x == file_entry(pv, x.0))),
            forall|x: (Seq<char>, Seq<char>, bool, i64)| out_dirs.contains(x) ==> x.2,
        decreases fpaths.len() - k,
    {
        let p = str_chars(fpaths[k].as_str());
        let e = ContentEntry {
            path: fpaths[k].as_str().to_owned(),
            name: chars_to_string(last_segment_exec(p.as_slice()).as_slice()),
            is_dir: false,
            size: fsizes[k],
        };
        assert(fv[k as int] == fpaths@[k as int]@);
        assert forall|x: (Seq<char>, Seq<char>, bool, i64)| entries_view(out@).contains(x) implies !(x.0 == e.path@ && x.2 == e.is_dir) by {
            if x.0 == e.path@ && !x.2 {
                assert(!out_dirs.contains(x));
                assert(fv.take(k as int).contains(x.0));
                let m = choose|m: int| 0 <= m < k && fv.take(k as int)[m] == x.0;
                assert(fv[m] == fv[k as int]);
            }
        }
        insert_entry(&mut out, e);
        assert(fv.take(k + 1) =~= fv.take(k as int).push(fv[k as int]));
        proof {
            lemma_push_contains(fv.take(k as int), fv[k as int]);
        }
        k += 1;
    }
    assert(fv.take(fpaths.len() as int) =~= fv);
    assert forall|x: (Seq<char>, Seq<char>, bool, i64)|
        entries_view(out@).contains(x) <==> ((x.2 && dir_set(pv).contains(x.0) && x == dir_entry(
            x.0,
        )) || (!x.2 && file_set(pv).contains(x.0) && x == file_entry(pv, x.0))) by {
        assert(out_dirs.contains(x) <==> (x.2 && dv.contains(x.0) && x == dir_entry(x.0)));
        assert(dv.contains(x.0) <==> dir_set(pv).contains(x.0));
        assert(fv.contains(x.0) <==> file_set(pv).contains(x.0));
    }
    out
}

} // verus!

verus! {

/// A file of a torrent as qBittorrent lists it.
#[derive(Debug, Clone)]
pub struct QbTorrentFile {
    pub name: String,
    pub size: i64,
}

/// The path and size of each listed file, in order.
pub fn file_pairs(files: &[QbTorrentFile]) -> (r: Vec<(String, i64)>)
    ensures
        paths_view(r@) == files@.map_values(|f: QbTorrentFile| (f.name@, f.size)),
{
    let mut r: Vec<(String, i64)> = Vec::new();
    let mut i: usize = 0;
    while i < files.len()
        invariant
            i <= files.len(),
            paths_view(r@) == files@.take(i as int).map_values(|f: QbTorrentFile| (f.name@, f.size)),
        decreases files.len() - i,
    {
        let ghost before = paths_view(r@);
        let pair = (files[i].name.as_str().to_owned(), files[i].size);
        assert(pair.0@ == files@[i as int].name@);
        r.push(pair);
        assert(paths_view(r@) =~= before.push((files@[i as int].name@, files@[i as int].size)));
        assert(files@.take(i + 1).map_values(|f: QbTorrentFile| (f.name@, f.size)) =~= files@.take(i as int).map_values(|f: QbTorrentFile| (f.name@, f.size)).push((files@[i as int].name@, files@[i as int].size)));
        i += 1;
    }
    assert(files@.take(files.len() as int) =~= files@);
    r
}

} // verus!
