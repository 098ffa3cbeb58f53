//! Character-level text utilities with exact specifications.

use vstd::prelude::*;

verus! {

/// Appends one character to a `String` (std's `String::push`).
/// Claimed: the new contents are the old contents followed by `c`.
#[verifier::external_body]
pub(crate) fn push_char(s: &mut String, c: char)
    ensures
        final(s)@ == old(s)@.push(c),
{
    s.push(c);
}

/// The characters of `s`, in order.
pub fn chars_of(s: &str) -> (v: Vec<char>)
    ensures
        v@ == s@,
{
    let mut v: Vec<char> = Vec::new();
    for c in it: s.chars()
        invariant
            v@.len() == it.index(),
            forall|j: int| 0 <= j < v@.len() ==> v@[j] == it.seq()[j],
    {
        v.push(c);
    }
    assert(v@ =~= s@);
    v
}

/// A `String` holding exactly the characters of `v`.
pub fn string_of(v: &Vec<char>) -> (s: String)
    ensures
        s@ == v@,
{
    let mut s = String::new();
    let mut i: usize = 0;
    while i < v.len()
        invariant
            i <= v@.len(),
            s@ == v@.take(i as int),
        decreases v@.len() - i,
    {
        push_char(&mut s, v[i]);
        assert(v@.take(i as int).push(v@[i as int]) =~= v@.take(i + 1));
        i = i + 1;
    }
    assert(v@.take(v@.len() as int) =~= v@);
    s
}


/// `p` occurs in `s` starting at index `i`.
pub open spec fn occurs_at(s: Seq<char>, i: int, p: Seq<char>) -> bool {
    0 <= i && i + p.len() <= s.len() && s.subrange(i, i + p.len()) == p
}

/// `p` occurs somewhere in `s`.
pub open spec fn contains_seq(s: Seq<char>, p: Seq<char>) -> bool {
    exists|i: int| occurs_at(s, i, p)
}

/// Replaces every occurrence of the nonempty pattern `p` in `s` by `r`,
/// scanning from the left and never overlapping two replaced occurrences
/// (the behaviour of `str::replace`).
pub open spec fn replace_all(s: Seq<char>, p: Seq<char>, r: Seq<char>) -> Seq<char>
    decreases s.len(),
{
    if p.len() == 0 || s.len() < p.len() {
        s
    } else if s.take(p.len() as int) == p {
        r + replace_all(s.skip(p.len() as int), p, r)
    } else {
        seq![s[0]] + replace_all(s.skip(1), p, r)
    }
}

/// The number of occurrences of `p` that `replace_all` replaces.
pub open spec fn match_count(s: Seq<char>, p: Seq<char>) -> nat
    decreases s.len(),
{
    if p.len() == 0 || s.len() < p.len() {
        0
    } else if s.take(p.len() as int) == p {
        1 + match_count(s.skip(p.len() as int), p)
    } else {
        match_count(s.skip(1), p)
    }
}

/// Whether `p` occurs in `s` at index `i`.
pub fn occurs_at_exec(s: &Vec<char>, i: usize, p: &Vec<char>) -> (b: bool)
    requires
        i <= s@.len(),
    ensures
        b == occurs_at(s@, i as int, p@),
{
    if p.len() > s.len() - i {
        return false;
    }
    let slen = s.len();
    let mut j: usize = 0;
    while j < p.len()
        invariant
            j <= p@.len(),
            slen == s@.len(),
            i + p@.len() <= slen,
            forall|k: int| 0 <= k < j ==> s@[i + k] == p@[k],
        decreases p@.len() - j,
    {
        if s[i + j] != p[j] {
            assert(s@.subrange(i as int, i + p@.len())[j as int] != p@[j as int]);
            return false;
        }
        j = j + 1;
    }
    assert(s@.subrange(i as int, i + p@.len()) =~= p@);
    true
}

/// Whether `p` occurs anywhere in `s`.
pub fn contains_chars(s: &Vec<char>, p: &Vec<char>) -> (b: bool)
    ensures
        b == contains_seq(s@, p@),
{
    let mut i: usize = 0;
    while i < s.len()
        invariant
            i <= s@.len(),
            forall|k: int| 0 <= k < i ==> !occurs_at(s@, k, p@),
        decreases s@.len() - i,
    {
        if occurs_at_exec(s, i, p) {
            return true;
        }
        i = i + 1;
    }
    if occurs_at_exec(s, i, p) {
        return true;
    }
    assert forall|k: int| !occurs_at(s@, k, p@) by {
        if occurs_at(s@, k, p@) {
            assert(k <= s@.len());
            assert(k < i || k == i);
        }
    }
    false
}

/// `replace_all` on character vectors.
pub fn replace_chars(s: &Vec<char>, p: &Vec<char>, r: &Vec<char>) -> (out: Vec<char>)
    requires
        p@.len() > 0,
    ensures
        out@ == replace_all(s@, p@, r@),
{
    let mut out: Vec<char> = Vec::new();
    let mut i: usize = 0;
    assert(s@.skip(0) =~= s@);
    while i < s.len()
        invariant
            i <= s@.len(),
            p@.len() > 0,
            replace_all(s@, p@, r@) == out@ + replace_all(s@.skip(i as int), p@, r@),
        decreases s@.len() - i,
    {
        let ghost t = s@.skip(i as int);
        if occurs_at_exec(s, i, p) {
            assert(t.take(p@.len() as int) =~= s@.subrange(i as int, i + p@.len()));
            assert(t.skip(p@.len() as int) =~= s@.skip(i + p@.len()));
            let mut k: usize = 0;
            let ghost out0 = out@;
            while k < r.len()
                invariant
                    k <= r@.len(),
                    out@ == out0 + r@.take(k as int),
                decreases r@.len() - k,
            {
                out.push(r[k]);
                assert(r@.take(k as int).push(r@[k as int]) =~= r@.take(k + 1));
                assert(out0 + r@.take(k as int).push(r@[k as int]) =~= (out0 + r@.take(k as int)).push(r@[k as int]));
                k = k + 1;
            }
            assert(r@.take(r@.len() as int) =~= r@);
            assert(out@ + replace_all(s@.skip(i + p@.len()), p@, r@) =~= out0 + (r@ + replace_all(t.skip(p@.len() as int), p@, r@)));
            i = i + p.len();
        } else {
            assert(t.len() >= p@.len() ==> t.take(p@.len() as int) =~= s@.subrange(i as int, i + p@.len()));
            assert(t.skip(1) =~= s@.skip(i + 1));
            assert(t =~= seq![s@[i as int]] + s@.skip(i + 1));
            let ghost out0 = out@;
            out.push(s[i]);
            assert(out@ + replace_all(s@.skip(i + 1), p@, r@) =~= out0 + (seq![s@[i as int]] + replace_all(t.skip(1), p@, r@)));
            i = i + 1;
        }
    }
    assert(s@.skip(i as int) =~= Seq::<char>::empty());
    assert(out@ + Seq::<char>::empty() =~= out@);
    out
}

/// Length of a replacement: each replaced occurrence changes the length
/// by the difference between the replacement and the pattern.
pub proof fn lemma_replace_all_len(s: Seq<char>, p: Seq<char>, r: Seq<char>)
    ensures
        replace_all(s, p, r).len() == s.len() + match_count(s, p) * (r.len() - p.len()),
    decreases s.len(),
{
    let d = r.len() - p.len();
    if p.len() == 0 || s.len() < p.len() {
        assert(match_count(s, p) == 0);
        assert(match_count(s, p) * d == 0);
    } else if s.take(p.len() as int) == p {
        lemma_replace_all_len(s.skip(p.len() as int), p, r);
        let c = match_count(s.skip(p.len() as int), p);
        assert((1 + c) * d == d + c * d) by (nonlinear_arith);
        assert(match_count(s, p) == 1 + c);
        assert(replace_all(s, p, r) == r + replace_all(s.skip(p.len() as int), p, r));
    } else {
        lemma_replace_all_len(s.skip(1), p, r);
        assert(match_count(s, p) == match_count(s.skip(1), p));
        assert(replace_all(s, p, r) == seq![s[0]] + replace_all(s.skip(1), p, r));
    }
}

/// With no occurrence replaced, replacing leaves the text unchanged.
pub proof fn lemma_replace_all_no_match(s: Seq<char>, p: Seq<char>, r: Seq<char>)
    requires
        match_count(s, p) == 0,
    ensures
        replace_all(s, p, r) == s,
    decreases s.len(),
{
    if p.len() == 0 || s.len() < p.len() {
    } else if s.take(p.len() as int) == p {
    } else {
        lemma_replace_all_no_match(s.skip(1), p, r);
        assert(seq![s[0]] + s.skip(1) =~= s);
    }
}

/// A nonempty pattern is replaced at least once exactly when it occurs.
pub proof fn lemma_match_count_positive(s: Seq<char>, p: Seq<char>)
    requires
        p.len() > 0,
    ensures
        match_count(s, p) > 0 <==> contains_seq(s, p),
    decreases s.len(),
{
    if s.len() < p.len() {
        if contains_seq(s, p) {
            let i = choose|i: int| occurs_at(s, i, p);
            assert(false);
        }
    } else if s.take(p.len() as int) == p {
        assert(occurs_at(s, 0, p)) by {
            assert(s.subrange(0, p.len() as int) =~= s.take(p.len() as int));
        }
    } else {
        let t = s.skip(1);
        lemma_match_count_positive(t, p);
        if contains_seq(s, p) {
            let i = choose|i: int| occurs_at(s, i, p);
            if i == 0 {
                assert(s.subrange(0, p.len() as int) =~= s.take(p.len() as int));
            } else {
                assert(t.subrange(i - 1, i - 1 + p.len()) =~= s.subrange(i, i + p.len()));
                assert(occurs_at(t, i - 1, p));
            }
        }
        if contains_seq(t, p) {
            let i = choose|i: int| occurs_at(t, i, p);
            assert(t.subrange(i, i + p.len()) =~= s.subrange(i + 1, i + 1 + p.len()));
            assert(occurs_at(s, i + 1, p));
        }
    }
}


/// `p` and `r` cannot overlap in a replaced text: `r` is at least as long
/// as the nonempty `p` and does not contain it, no proper suffix of `r`
/// begins `p`, and no proper suffix of `p` begins `r`.
pub open spec fn no_overlap(p: Seq<char>, r: Seq<char>) -> bool {
    &&& p.len() > 0
    &&& r.len() >= p.len()
    &&& !contains_seq(r, p)
    &&& forall|j: int| 0 < j < p.len() ==> #[trigger] r.skip(r.len() - j) != p.take(j)
    &&& forall|j: int| 0 < j < p.len() ==> #[trigger] p.skip(p.len() - j) != r.take(j)
}

/// Where `p` does not occur before index `k`, replacing keeps the first `k`
/// characters.
pub proof fn lemma_replace_prefix_kept(s: Seq<char>, p: Seq<char>, r: Seq<char>, k: int)
    requires
        p.len() > 0,
        0 <= k <= s.len(),
        forall|j: int| 0 <= j < k ==> !occurs_at(s, j, p),
    ensures
        replace_all(s, p, r) == s.take(k) + replace_all(s.skip(k), p, r),
    decreases k,
{
    if k == 0 {
        assert(s.skip(0) =~= s);
        assert(s.take(0) + replace_all(s, p, r) =~= replace_all(s, p, r));
    } else if s.len() < p.len() {
        assert(s.skip(k).len() < p.len());
        assert(s.take(k) + s.skip(k) =~= s);
    } else {
        assert(!occurs_at(s, 0, p));
        assert(s.take(p.len() as int) =~= s.subrange(0, p.len() as int));
        let t = s.skip(1);
        assert forall|j: int| 0 <= j < k - 1 implies !occurs_at(t, j, p) by {
            assert(!occurs_at(s, j + 1, p));
            if occurs_at(t, j, p) {
                assert(t.subrange(j, j + p.len()) =~= s.subrange(j + 1, j + 1 + p.len()));
            }
        }
        lemma_replace_prefix_kept(t, p, r, k - 1);
        assert(t.skip(k - 1) =~= s.skip(k));
        assert(seq![s[0]] + t.take(k - 1) =~= s.take(k));
        assert(replace_all(s, p, r) == seq![s[0]] + replace_all(t, p, r));
        assert(seq![s[0]] + (t.take(k - 1) + replace_all(s.skip(k), p, r)) =~= s.take(k)
            + replace_all(s.skip(k), p, r));
    }
}

/// The first occurrence of `p` in `s`, at or before a known one at `j0`.
proof fn first_occurrence(s: Seq<char>, p: Seq<char>, j0: int) -> (q: int)
    requires
        occurs_at(s, j0, p),
    ensures
        occurs_at(s, q, p),
        0 <= q <= j0,
        forall|j: int| 0 <= j < q ==> !occurs_at(s, j, p),
    decreases j0,
{
    if exists|j: int| 0 <= j < j0 && occurs_at(s, j, p) {
        let j = choose|j: int| 0 <= j < j0 && occurs_at(s, j, p);
        first_occurrence(s, p, j)
    } else {
        j0
    }
}

/// When the pattern and its replacement cannot overlap, the replaced text
/// holds no occurrence of the pattern.
pub proof fn lemma_replace_all_leaves_no_match(s: Seq<char>, p: Seq<char>, r: Seq<char>)
    requires
        no_overlap(p, r),
    ensures
        !contains_seq(replace_all(s, p, r), p),
    decreases s.len(),
{
    let m = p.len() as int;
    let out = replace_all(s, p, r);
    if s.len() < m {
        if contains_seq(out, p) {
            let i = choose|i: int| occurs_at(out, i, p);
            assert(false);
        }
    } else if s.take(m) == p {
        let rest = s.skip(m);
        let t = replace_all(rest, p, r);
        lemma_replace_all_leaves_no_match(rest, p, r);
        assert(out == r + t);
        if contains_seq(out, p) {
            let i = choose|i: int| occurs_at(out, i, p);
            if i + m <= r.len() {
                assert(out.subrange(i, i + m) =~= r.subrange(i, i + m));
                assert(occurs_at(r, i, p));
            } else if i < r.len() {
                let j = r.len() - i;
                assert(out.subrange(i, i + m).take(j) =~= r.skip(r.len() - j));
                assert(r.skip(r.len() - j) != p.take(j));
            } else {
                assert(out.subrange(i, i + m) =~= t.subrange(i - r.len(), i - r.len() + m));
                assert(occurs_at(t, i - r.len(), p));
            }
        }
    } else {
        let rest = s.skip(1);
        let t = replace_all(rest, p, r);
        lemma_replace_all_leaves_no_match(rest, p, r);
        assert(out == seq![s[0]] + t);
        if contains_seq(out, p) {
            let i = choose|i: int| occurs_at(out, i, p);
            if i >= 1 {
                assert(out.subrange(i, i + m) =~= t.subrange(i - 1, i - 1 + m));
                assert(occurs_at(t, i - 1, p));
            } else if exists|j: int| 0 <= j < m - 1 && occurs_at(rest, j, p) {
                let j0 = choose|j: int| 0 <= j < m - 1 && occurs_at(rest, j, p);
                let q = first_occurrence(rest, p, j0);
                lemma_replace_prefix_kept(rest, p, r, q);
                let u = rest.skip(q);
                assert(u.take(m) =~= rest.subrange(q, q + m));
                assert(replace_all(u, p, r) == r + replace_all(u.skip(m), p, r));
                let jj = m - q - 1;
                assert(0 < jj < m);
                assert(t == rest.take(q) + (r + replace_all(u.skip(m), p, r)));
                assert(out.subrange(0, m).skip(q + 1) =~= r.take(jj));
                assert(p.skip(m - jj) =~= out.subrange(0, m).skip(q + 1));
                assert(p.skip(p.len() - jj) != r.take(jj));
            } else {
                lemma_replace_prefix_kept(rest, p, r, m - 1);
                assert(t.take(m - 1) =~= rest.take(m - 1));
                assert(out.subrange(0, m) =~= s.take(m));
            }
        }
    }
}

/// Replacing a second time changes nothing when the pattern and its
/// replacement cannot overlap.
pub proof fn lemma_replace_all_idempotent(s: Seq<char>, p: Seq<char>, r: Seq<char>)
    requires
        no_overlap(p, r),
    ensures
        replace_all(replace_all(s, p, r), p, r) == replace_all(s, p, r),
{
    let out = replace_all(s, p, r);
    lemma_replace_all_leaves_no_match(s, p, r);
    lemma_match_count_positive(out, p);
    lemma_replace_all_no_match(out, p, r);
}

/// The Unicode `White_Space` property (PropList.txt): the characters that
/// `char::is_whitespace` accepts and that `str::trim` removes.
pub open spec fn is_white_space(c: char) -> bool {
    let n = c as int;
    ||| 0x09 <= n <= 0x0d
    ||| n == 0x20
    ||| n == 0x85
    ||| n == 0xa0
    ||| n == 0x1680
    ||| 0x2000 <= n <= 0x200a
    ||| n == 0x2028
    ||| n == 0x2029
    ||| n == 0x202f
    ||| n == 0x205f
    ||| n == 0x3000
}

/// Whether `c` has the `White_Space` property.
pub fn is_white_space_exec(c: char) -> (b: bool)
    ensures
        b == is_white_space(c),
{
    let n = c as u32;
    (0x09 <= n && n <= 0x0d) || n == 0x20 || n == 0x85 || n == 0xa0 || n == 0x1680 || (0x2000
        <= n && n <= 0x200a) || n == 0x2028 || n == 0x2029 || n == 0x202f || n == 0x205f || n
        == 0x3000
}

/// `s` without its leading white space.
pub open spec fn trim_start(s: Seq<char>) -> Seq<char>
    decreases s.len(),
{
    if s.len() > 0 && is_white_space(s[0]) {
        trim_start(s.skip(1))
    } else {
        s
    }
}

/// `s` without its trailing white space.
pub open spec fn trim_end(s: Seq<char>) -> Seq<char>
    decreases s.len(),
{
    if s.len() > 0 && is_white_space(s.last()) {
        trim_end(s.drop_last())
    } else {
        s
    }
}

/// `s` without leading and trailing white space (`str::trim`).
pub open spec fn trim(s: Seq<char>) -> Seq<char> {
    trim_end(trim_start(s))
}

proof fn lemma_trim_start_shape(s: Seq<char>) -> (lo: int)
    ensures
        0 <= lo <= s.len(),
        trim_start(s) == s.skip(lo),
        forall|k: int| 0 <= k < lo ==> is_white_space(#[trigger] s[k]),
        lo < s.len() ==> !is_white_space(s[lo]),
    decreases s.len(),
{
    if s.len() > 0 && is_white_space(s[0]) {
        let lo1 = lemma_trim_start_shape(s.skip(1));
        assert(s.skip(1).skip(lo1) =~= s.skip(lo1 + 1));
        assert forall|k: int| 0 <= k < lo1 + 1 implies is_white_space(#[trigger] s[k]) by {
            if k > 0 {
                assert(s.skip(1)[k - 1] == s[k]);
            }
        }
        if lo1 + 1 < s.len() {
            assert(s.skip(1)[lo1] == s[lo1 + 1]);
        }
        lo1 + 1
    } else {
        assert(s.skip(0) =~= s);
        0
    }
}

proof fn lemma_trim_end_shape(s: Seq<char>) -> (hi: int)
    ensures
        0 <= hi <= s.len(),
        trim_end(s) == s.take(hi),
        forall|k: int| hi <= k < s.len() ==> is_white_space(#[trigger] s[k]),
        hi > 0 ==> !is_white_space(s[hi - 1]),
    decreases s.len(),
{
    if s.len() > 0 && is_white_space(s.last()) {
        let hi1 = lemma_trim_end_shape(s.drop_last());
        assert(s.drop_last().take(hi1) =~= s.take(hi1));
        assert forall|k: int| hi1 <= k < s.len() implies is_white_space(#[trigger] s[k]) by {
            if k < s.len() - 1 {
                assert(s.drop_last()[k] == s[k]);
            }
        }
        if hi1 > 0 {
            assert(s.drop_last()[hi1 - 1] == s[hi1 - 1]);
        }
        hi1
    } else {
        assert(s.take(s.len() as int) =~= s);
        s.len() as int
    }
}

/// Trimming keeps one contiguous stretch of the text: what it drops before
/// and after is white space, and what it keeps neither starts nor ends
/// with white space.
pub proof fn lemma_trim_keeps_middle(s: Seq<char>)
    ensures
        exists|lo: int, hi: int|
            0 <= lo <= hi <= s.len() && trim(s) == s.subrange(lo, hi) && (forall|k: int|
                0 <= k < lo ==> is_white_space(#[trigger] s[k])) && (forall|k: int|
                hi <= k < s.len() ==> is_white_space(#[trigger] s[k])),
        trim(s).len() > 0 ==> !is_white_space(trim(s)[0]) && !is_white_space(trim(s).last()),
{
    let lo = lemma_trim_start_shape(s);
    let u = s.skip(lo);
    let hi_u = lemma_trim_end_shape(u);
    let hi = lo + hi_u;
    assert(u.take(hi_u) =~= s.subrange(lo, hi));
    assert forall|k: int| hi <= k < s.len() implies is_white_space(#[trigger] s[k]) by {
        assert(u[k - lo] == s[k]);
    }
    if trim(s).len() > 0 {
        assert(trim(s)[0] == u[0]);
        assert(u[0] == s[lo]);
        assert(trim(s).last() == u[hi_u - 1]);
    }
    assert(0 <= lo <= hi <= s.len() && trim(s) == s.subrange(lo, hi));
}

/// `trim` on character vectors.
pub fn trim_chars(s: &Vec<char>) -> (out: Vec<char>)
    ensures
        out@ == trim(s@),
{
    let n = s.len();
    let mut lo: usize = 0;
    assert(s@.skip(0) =~= s@);
    while lo < n && is_white_space_exec(s[lo])
        invariant
            lo <= n,
            n == s@.len(),
            trim_start(s@) == trim_start(s@.skip(lo as int)),
        decreases n - lo,
    {
        assert(s@.skip(lo as int).skip(1) =~= s@.skip(lo + 1));
        lo = lo + 1;
    }
    let ghost u = s@.skip(lo as int);
    assert(trim_start(s@) == u);
    let mut hi: usize = n;
    assert(u.take((hi - lo) as int) =~= u);
    while hi > lo && is_white_space_exec(s[hi - 1])
        invariant
            lo <= hi <= n,
            n == s@.len(),
            u == s@.skip(lo as int),
            trim_end(u) == trim_end(u.take(hi - lo)),
        decreases hi - lo,
    {
        assert(u.take(hi - lo).drop_last() =~= u.take(hi - 1 - lo));
        assert(u.take(hi - lo).last() == s@[hi - 1]);
        hi = hi - 1;
    }
    let mut out: Vec<char> = Vec::new();
    let mut k: usize = lo;
    while k < hi
        invariant
            lo <= k <= hi <= n,
            n == s@.len(),
            out@ == s@.subrange(lo as int, k as int),
        decreases hi - k,
    {
        out.push(s[k]);
        assert(s@.subrange(lo as int, k as int).push(s@[k as int]) =~= s@.subrange(
            lo as int,
            k + 1,
        ));
        k = k + 1;
    }
    assert(u.take(hi - lo) =~= s@.subrange(lo as int, hi as int));
    out
}

/// The decimal digit character for `d < 10`.
pub open spec fn digit_char(d: nat) -> char {
    (48 + d) as char
}

/// The decimal representation of `n`, without sign or leading zeros.
pub open spec fn decimal(n: nat) -> Seq<char>
    decreases n,
{
    if n < 10 {
        seq![digit_char(n)]
    } else {
        decimal(n / 10).push(digit_char(n % 10))
    }
}

fn digit_to_char(d: u64) -> (c: char)
    requires
        d < 10,
    ensures
        c == digit_char(d as nat),
{
    match d {
        0 => '0',
        1 => '1',
        2 => '2',
        3 => '3',
        4 => '4',
        5 => '5',
        6 => '6',
        7 => '7',
        8 => '8',
        _ => '9',
    }
}

fn push_decimal(out: &mut Vec<char>, n: u64)
    ensures
        final(out)@ == old(out)@ + decimal(n as nat),
    decreases n,
{
    if n >= 10 {
        push_decimal(out, n / 10);
    }
    out.push(digit_to_char(n % 10));
    assert(old(out)@ + decimal(n as nat) =~= final(out)@);
}

/// The decimal representation of `n` (what `to_string` gives for an integer).
pub fn decimal_string(n: u64) -> (s: String)
    ensures
        s@ == decimal(n as nat),
{
    let mut v: Vec<char> = Vec::new();
    push_decimal(&mut v, n);
    assert(v@ =~= decimal(n as nat));
    string_of(&v)
}


/// Appends the characters of `t` to `out`.
pub fn push_str_chars(out: &mut Vec<char>, t: &str)
    ensures
        final(out)@ == old(out)@ + t@,
{
    let v = chars_of(t);
    let mut k: usize = 0;
    while k < v.len()
        invariant
            k <= v@.len(),
            out@ == old(out)@ + v@.take(k as int),
        decreases v@.len() - k,
    {
        out.push(v[k]);
        assert(old(out)@ + v@.take(k as int).push(v@[k as int]) =~= old(out)@ + v@.take(k + 1));
        k = k + 1;
    }
    assert(v@.take(v@.len() as int) =~= v@);
}

/// `s` with every occurrence of the nonempty `pattern` replaced by
/// `replacement` (`str::replace`).
pub fn replace_str(s: &str, pattern: &str, replacement: &str) -> (out: String)
    requires
        pattern@.len() > 0,
    ensures
        out@ == replace_all(s@, pattern@, replacement@),
{
    let sv = chars_of(s);
    let pv = chars_of(pattern);
    let rv = chars_of(replacement);
    let out = replace_chars(&sv, &pv, &rv);
    string_of(&out)
}

/// Whether `pattern` occurs in `s` (`str::contains`).
pub fn contains_str(s: &str, pattern: &str) -> (b: bool)
    ensures
        b == contains_seq(s@, pattern@),
{
    let sv = chars_of(s);
    let pv = chars_of(pattern);
    contains_chars(&sv, &pv)
}

/// `s` without leading and trailing white space (`str::trim`).
pub fn trim_str(s: &str) -> (out: String)
    ensures
        out@ == trim(s@),
{
    let v = chars_of(s);
    let t = trim_chars(&v);
    string_of(&t)
}

/// The lowercase form of `s` that `str::to_lowercase` gives: each character
/// mapped by the Unicode `Lowercase` mapping, which can turn one character
/// into several and treats a final capital sigma by its context.
pub uninterp spec fn lowercase_of(s: Seq<char>) -> Seq<char>;

/// `str::to_lowercase`. Claimed: the result is `lowercase_of(s@)`, a
/// function of the characters of `s` alone; nothing more is stated of it.
#[verifier::external_body]
pub(crate) fn to_lowercase(s: &str) -> (out: String)
    ensures
        out@ == lowercase_of(s@),
{
    s.to_lowercase()
}

} // verus!
