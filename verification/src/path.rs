//! File-system paths as the bytes the operating system stores (Unix), with
//! byte 47 (`/`) as the separator, joined and shortened the way
//! `PathBuf::push` and `Path::parent` treat them.

use vstd::prelude::*;
use vstd::utf8::encode_utf8;

verus! {

/// The separator byte, `/`.
pub const SEPARATOR: u8 = 47;

/// Whether `p` is absolute, that is, starts at the root `/`.
pub open spec fn is_absolute(p: Seq<u8>) -> bool {
    p.len() > 0 && p[0] == SEPARATOR
}

/// `base` joined with `part`: an absolute `part` replaces `base`; otherwise
/// `part` is appended, with one `/` in between unless `base` is empty or
/// already ends with `/`.
pub open spec fn join_path(base: Seq<u8>, part: Seq<u8>) -> Seq<u8> {
    if is_absolute(part) {
        part
    } else if base.len() == 0 {
        part
    } else if base.last() == SEPARATOR {
        base + part
    } else {
        base + seq![SEPARATOR] + part
    }
}

fn append_slice(out: &mut Vec<u8>, b: &[u8])
    ensures
        final(out)@ == old(out)@ + b@,
{
    let mut k: usize = 0;
    while k < b.len()
        invariant
            k <= b@.len(),
            out@ == old(out)@ + b@.take(k as int),
        decreases b@.len() - k,
    {
        out.push(b[k]);
        assert(old(out)@ + b@.take(k as int).push(b@[k as int]) =~= old(out)@ + b@.take(k + 1));
        k = k + 1;
    }
    assert(b@.take(b@.len() as int) =~= b@);
}

/// `base` joined with `part` (see `join_path`).
pub fn join(base: &[u8], part: &[u8]) -> (out: Vec<u8>)
    ensures
        out@ == join_path(base@, part@),
{
    let mut out: Vec<u8> = Vec::new();
    if part.len() > 0 && part[0] == SEPARATOR {
        append_slice(&mut out, part);
        return out;
    }
    append_slice(&mut out, base);
    if base.len() > 0 && base[base.len() - 1] != SEPARATOR {
        out.push(SEPARATOR);
    }
    append_slice(&mut out, part);
    assert(out@ =~= join_path(base@, part@));
    out
}

/// `p` with trailing separators removed, keeping a lone root `/`.
pub open spec fn strip_trailing_separators(p: Seq<u8>) -> Seq<u8>
    decreases p.len(),
{
    if p.len() > 1 && p.last() == SEPARATOR {
        strip_trailing_separators(p.drop_last())
    } else {
        p
    }
}

/// Index of the last separator in `p`, or -1 when there is none.
pub open spec fn last_separator(p: Seq<u8>) -> int
    decreases p.len(),
{
    if p.len() == 0 {
        -1
    } else if p.last() == SEPARATOR {
        p.len() - 1
    } else {
        last_separator(p.drop_last())
    }
}

/// The parent of `p`: everything before its last component, without the
/// separators that ended it (a lone root `/` stays). The root and the empty
/// path have none; a single relative component has the empty path as its
/// parent. A `.` component counts as a component of its own, whereas
/// `Path::parent` skips `.` components that do not start the path; for
/// paths without such components the two agree.
pub open spec fn parent_path(p: Seq<u8>) -> Option<Seq<u8>> {
    let t = strip_trailing_separators(p);
    if t.len() == 0 || t == seq![SEPARATOR] {
        None
    } else {
        let i = last_separator(t);
        if i < 0 {
            Some(Seq::empty())
        } else {
            Some(strip_trailing_separators(t.take(i + 1)))
        }
    }
}

/// The length of `strip_trailing_separators` of the first `n` bytes of `v`.
fn stripped_len(v: &[u8], n: usize) -> (m: usize)
    requires
        n <= v@.len(),
    ensures
        m <= n,
        v@.take(m as int) == strip_trailing_separators(v@.take(n as int)),
{
    let mut m = n;
    while m > 1 && v[m - 1] == SEPARATOR
        invariant
            m <= n <= v@.len(),
            strip_trailing_separators(v@.take(n as int)) == strip_trailing_separators(
                v@.take(m as int),
            ),
        decreases m,
    {
        assert(v@.take(m as int).drop_last() =~= v@.take(m - 1));
        m = m - 1;
    }
    m
}

/// The parent directory of `p` (see `parent_path`).
pub fn parent(p: &[u8]) -> (out: Option<Vec<u8>>)
    ensures
        match parent_path(p@) {
            Some(q) => out is Some && out->0@ == q,
            None => out is None,
        },
{
    assert(p@.take(p@.len() as int) =~= p@);
    let n = stripped_len(p, p.len());
    let ghost t = p@.take(n as int);
    if n == 0 || (n == 1 && p[0] == SEPARATOR) {
        assert(n == 1 ==> t =~= seq![SEPARATOR]);
        return None;
    }
    assert(t != seq![SEPARATOR]) by {
        if t == seq![SEPARATOR] {
            assert(t.len() == 1);
        }
    }
    let mut i = n;
    assert(t.take(n as int) =~= t);
    while i > 0 && p[i - 1] != SEPARATOR
        invariant
            i <= n <= p@.len(),
            t == p@.take(n as int),
            last_separator(t) == last_separator(t.take(i as int)),
        decreases i,
    {
        assert(t.take(i as int).drop_last() =~= t.take(i - 1));
        i = i - 1;
    }
    if i == 0 {
        assert(t.take(0) =~= Seq::<u8>::empty());
        return Some(Vec::new());
    }
    assert(t.take(i as int).last() == SEPARATOR);
    assert(last_separator(t) == i - 1);
    assert(t.take(i as int) =~= p@.take(i as int));
    let m = stripped_len(p, i);
    let mut out: Vec<u8> = Vec::new();
    let mut k: usize = 0;
    while k < m
        invariant
            k <= m <= p@.len(),
            out@ == p@.take(k as int),
        decreases m - k,
    {
        out.push(p[k]);
        assert(p@.take(k as int).push(p@[k as int]) =~= p@.take(k + 1));
        k = k + 1;
    }
    Some(out)
}

proof fn lemma_strip_trailing_len(p: Seq<u8>)
    ensures
        strip_trailing_separators(p).len() <= p.len(),
        p.len() > 0 ==> strip_trailing_separators(p).len() > 0,
        strip_trailing_separators(p).len() > 1 ==> strip_trailing_separators(p).last()
            != SEPARATOR,
    decreases p.len(),
{
    if p.len() > 1 && p.last() == SEPARATOR {
        lemma_strip_trailing_len(p.drop_last());
    }
}

proof fn lemma_last_separator_below_len(p: Seq<u8>)
    ensures
        -1 <= last_separator(p) < p.len(),
        last_separator(p) >= 0 ==> p[last_separator(p)] == SEPARATOR,
    decreases p.len(),
{
    if p.len() > 0 && p.last() != SEPARATOR {
        lemma_last_separator_below_len(p.drop_last());
    }
}

/// A parent is strictly shorter than its child, so walking up from any
/// directory reaches one without a parent: the search for a project root ends.
pub proof fn lemma_parent_shorter(p: Seq<u8>)
    ensures
        parent_path(p) matches Some(q) ==> q.len() < p.len(),
{
    let t = strip_trailing_separators(p);
    lemma_strip_trailing_len(p);
    lemma_last_separator_below_len(t);
    let i = last_separator(t);
    if t.len() == 1 && i == 0 {
        assert(t[0] == SEPARATOR);
        assert(t =~= seq![SEPARATOR]);
    }
    if i >= 0 && t.len() > 1 {
        assert(i + 1 < t.len());
        lemma_strip_trailing_len(t.take(i + 1));
    }
}

/// Joining in two steps equals joining once with the two parts separated
/// by `/`, when the first part is a nonempty relative name that does not end
/// with a separator and the second part is relative.
pub proof fn lemma_join_join(base: Seq<u8>, a: Seq<u8>, b: Seq<u8>)
    requires
        a.len() > 0,
        a[0] != SEPARATOR,
        a.last() != SEPARATOR,
        !is_absolute(b),
    ensures
        join_path(join_path(base, a), b) == join_path(base, a + seq![SEPARATOR] + b),
{
    let ab = a + seq![SEPARATOR] + b;
    assert(ab[0] == a[0]);
    let j = join_path(base, a);
    assert(j.len() > 0);
    assert(j.last() == a.last());
    if base.len() == 0 {
    } else if base.last() == SEPARATOR {
        assert(base + a + seq![SEPARATOR] + b =~= base + ab);
    } else {
        assert(base + seq![SEPARATOR] + a + seq![SEPARATOR] + b =~= base + seq![SEPARATOR] + ab);
    }
}

/// The UTF-8 encoding of a concatenation is the concatenation of the encodings.
pub proof fn lemma_utf8_concat(a: Seq<char>, b: Seq<char>)
    ensures
        encode_utf8(a + b) == encode_utf8(a) + encode_utf8(b),
    decreases a.len(),
{
    if a.len() == 0 {
        assert(a + b =~= b);
        assert(encode_utf8(a) =~= Seq::<u8>::empty());
        assert(Seq::<u8>::empty() + encode_utf8(b) =~= encode_utf8(b));
    } else {
        assert((a + b).drop_first() =~= a.drop_first() + b);
        assert((a + b)[0] == a[0]);
        lemma_utf8_concat(a.drop_first(), b);
        assert(encode_utf8(a + b) =~= encode_utf8(a) + encode_utf8(b));
    }
}

} // verus!
