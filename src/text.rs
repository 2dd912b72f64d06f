//! Character-level text operations with exact specifications: trimming,
//! searching, splitting and single-pass substitution.

use vstd::prelude::*;
use vstd::std_specs::iter::IteratorSpec;

verus! {

/// The Unicode `White_Space` characters, the set that `char::is_whitespace` accepts.
pub open spec fn is_ws(c: char) -> bool {
    let u = c as u32;
    u == 0x20 || (0x09 <= u && u <= 0x0d) || u == 0x85 || u == 0xa0 || u == 0x1680
        || (0x2000 <= u && u <= 0x200a) || u == 0x2028 || u == 0x2029 || u == 0x202f
        || u == 0x205f || u == 0x3000
}

pub fn is_whitespace(c: char) -> (r: bool)
    ensures
        r == is_ws(c),
{
    let u = c as u32;
    u == 0x20 || (0x09 <= u && u <= 0x0d) || u == 0x85 || u == 0xa0 || u == 0x1680
        || (0x2000 <= u && u <= 0x200a) || u == 0x2028 || u == 0x2029 || u == 0x202f
        || u == 0x205f || u == 0x3000
}

/// `s` with its leading whitespace removed.
pub open spec fn trim_start(s: Seq<char>) -> Seq<char>
    decreases s.len(),
{
    if s.len() > 0 && is_ws(s[0]) {
        trim_start(s.drop_first())
    } else {
        s
    }
}

/// `s` with its trailing whitespace removed.
pub open spec fn trim_end(s: Seq<char>) -> Seq<char>
    decreases s.len(),
{
    if s.len() > 0 && is_ws(s.last()) {
        trim_end(s.drop_last())
    } else {
        s
    }
}

/// `s` with whitespace removed from both ends.
pub open spec fn trim(s: Seq<char>) -> Seq<char> {
    trim_end(trim_start(s))
}

/// `p` occurs in `s` starting at position `i`.
pub open spec fn occurs_at(s: Seq<char>, p: Seq<char>, i: int) -> bool {
    0 <= i && i + p.len() <= s.len() && s.subrange(i, i + p.len()) == p
}

/// The first position at or after `from` where `p` occurs in `s`, or -1 if there is none.
pub open spec fn first_occ(s: Seq<char>, p: Seq<char>, from: int) -> int
    decreases s.len() + 1 - from,
{
    if from < 0 || from + p.len() > s.len() {
        -1
    } else if occurs_at(s, p, from) {
        from
    } else {
        first_occ(s, p, from + 1)
    }
}

/// `s` starts with `p`.
pub open spec fn has_prefix(s: Seq<char>, p: Seq<char>) -> bool {
    occurs_at(s, p, 0)
}

/// `s` ends with `p`.
pub open spec fn has_suffix(s: Seq<char>, p: Seq<char>) -> bool {
    p.len() <= s.len() && s.subrange(s.len() - p.len(), s.len() as int) == p
}

/// Every occurrence of `p` in `s`, scanning left to right without overlap,
/// replaced by `r`; the replacement text itself is never scanned again.
/// An empty pattern leaves `s` unchanged.
pub open spec fn replace_all(s: Seq<char>, p: Seq<char>, r: Seq<char>) -> Seq<char>
    decreases s.len(),
{
    if p.len() == 0 {
        s
    } else {
        let i = first_occ(s, p, 0);
        if i < 0 || i + p.len() > s.len() {
            s
        } else {
            s.subrange(0, i) + r + replace_all(s.subrange(i + p.len(), s.len() as int), p, r)
        }
    }
}

/// The first non-empty piece of `s` split at every occurrence of `sep`, if any.
pub open spec fn first_piece(s: Seq<char>, sep: Seq<char>) -> Option<Seq<char>>
    decreases s.len(),
{
    if s.len() == 0 {
        None
    } else if sep.len() == 0 {
        Some(s)
    } else {
        let i = first_occ(s, sep, 0);
        if i < 0 {
            Some(s)
        } else if i == 0 && sep.len() <= s.len() {
            first_piece(s.subrange(sep.len() as int, s.len() as int), sep)
        } else {
            Some(s.subrange(0, i))
        }
    }
}

/// The part of `s` before the first occurrence of `sep`; all of `s` if there is none.
pub open spec fn before_first(s: Seq<char>, sep: Seq<char>) -> Seq<char> {
    let i = first_occ(s, sep, 0);
    if i < 0 {
        s
    } else {
        s.subrange(0, i)
    }
}

/// The part of `s` after the first occurrence of `sep`, if there is one.
pub open spec fn after_first(s: Seq<char>, sep: Seq<char>) -> Option<Seq<char>> {
    let i = first_occ(s, sep, 0);
    if i < 0 {
        None
    } else {
        Some(s.subrange(i + sep.len(), s.len() as int))
    }
}

/// Trimming leading whitespace twice is trimming it once.
pub proof fn lemma_trim_start_idempotent(s: Seq<char>)
    ensures
        trim_start(trim_start(s)) == trim_start(s),
    decreases s.len(),
{
    if s.len() > 0 && is_ws(s[0]) {
        lemma_trim_start_idempotent(s.drop_first());
    }
}

/// Leading whitespace of a concatenation: what `x` keeps, or, when `x` is all
/// whitespace, what `y` keeps.
pub proof fn lemma_trim_start_concat(x: Seq<char>, y: Seq<char>)
    ensures
        trim_start(x + y) == if trim_start(x).len() == 0 {
            trim_start(y)
        } else {
            trim_start(x) + y
        },
    decreases x.len(),
{
    if x.len() == 0 {
        assert(x + y =~= y);
    } else {
        assert((x + y)[0] == x[0]);
        if is_ws(x[0]) {
            assert((x + y).drop_first() =~= x.drop_first() + y);
            lemma_trim_start_concat(x.drop_first(), y);
        }
    }
}

/// The characters of `s`, in order.
pub fn chars_of(s: &str) -> (r: Vec<char>)
    ensures
        r@ == s@,
{
    let mut out: Vec<char> = Vec::new();
    let mut it = s.chars();
    loop
        invariant
            out@ + it.remaining() == s@,
            it.decrease() is Some,
        decreases it.decrease()->0,
    {
        match it.next() {
            Some(c) => {
                out.push(c);
            },
            None => {
                assert(it.remaining().len() == 0);
                assert(out@ + it.remaining() =~= out@);
                return out;
            },
        }
    }
}

/// Whether `p` occurs in `v` at position `i`.
pub fn matches_at(v: &Vec<char>, p: &Vec<char>, i: usize) -> (r: bool)
    requires
        i <= v.len(),
    ensures
        r == occurs_at(v@, p@, i as int),
{
    if p.len() > v.len() - i {
        return false;
    }
    let mut k: usize = 0;
    while k < p.len()
        invariant
            k <= p.len(),
            i + p.len() <= v.len(),
            forall|m: int| 0 <= m < k ==> v@[i + m] == p@[m],
        decreases p.len() - k,
    {
        if v[i + k] != p[k] {
            assert(v@.subrange(i as int, i + p.len())[k as int] != p@[k as int]);
            return false;
        }
        k = k + 1;
    }
    assert(v@.subrange(i as int, i + p.len()) =~= p@);
    true
}

/// The first occurrence of `p` inside `v[lo..hi]`, as a position of `v`.
pub fn find_in(v: &Vec<char>, lo: usize, hi: usize, p: &Vec<char>) -> (r: Option<usize>)
    requires
        lo <= hi <= v.len(),
    ensures
        match r {
            Some(i) => lo <= i && i + p.len() <= hi && i - lo == first_occ(
                v@.subrange(lo as int, hi as int),
                p@,
                0,
            ),
            None => first_occ(v@.subrange(lo as int, hi as int), p@, 0) == -1,
        },
{
    let ghost sub = v@.subrange(lo as int, hi as int);
    let mut j: usize = lo;
    while j <= hi && p.len() <= hi - j
        invariant
            lo <= j,
            hi <= v.len(),
            sub == v@.subrange(lo as int, hi as int),
            first_occ(sub, p@, 0) == first_occ(sub, p@, j - lo),
        decreases hi + 1 - j,
    {
        if matches_at(v, p, j) {
            assert(sub.subrange(j - lo, j - lo + p.len()) =~= v@.subrange(
                j as int,
                j + p.len(),
            ));
            return Some(j);
        }
        assert(sub.subrange(j - lo, j - lo + p.len()) =~= v@.subrange(j as int, j + p.len()));
        if j == hi {
            assert(first_occ(sub, p@, j - lo + 1) == -1);
            assert(first_occ(sub, p@, j - lo) == first_occ(sub, p@, j - lo + 1));
            return None;
        }
        j = j + 1;
    }
    None
}

/// The position `a` such that `v[a..hi]` is `v[lo..hi]` without its leading whitespace.
pub fn trim_start_bound(v: &Vec<char>, lo: usize, hi: usize) -> (a: usize)
    requires
        lo <= hi <= v.len(),
    ensures
        lo <= a <= hi,
        v@.subrange(a as int, hi as int) == trim_start(v@.subrange(lo as int, hi as int)),
{
    let mut a: usize = lo;
    while a < hi && is_whitespace(v[a])
        invariant
            lo <= a <= hi <= v.len(),
            trim_start(v@.subrange(lo as int, hi as int)) == trim_start(
                v@.subrange(a as int, hi as int),
            ),
        decreases hi - a,
    {
        assert(v@.subrange(a as int, hi as int).drop_first() =~= v@.subrange(a + 1, hi as int));
        a = a + 1;
    }
    a
}

/// Bounds `(a, b)` such that `v[a..b]` is `v[lo..hi]` trimmed.
pub fn trim_bounds(v: &Vec<char>, lo: usize, hi: usize) -> (r: (usize, usize))
    requires
        lo <= hi <= v.len(),
    ensures
        lo <= r.0 <= r.1 <= hi,
        v@.subrange(r.0 as int, r.1 as int) == trim(v@.subrange(lo as int, hi as int)),
{
    let a = trim_start_bound(v, lo, hi);
    let mut b: usize = hi;
    while b > a && is_whitespace(v[b - 1])
        invariant
            lo <= a <= b <= hi <= v.len(),
            trim_start(v@.subrange(lo as int, hi as int)) == v@.subrange(a as int, hi as int),
            trim_end(v@.subrange(a as int, hi as int)) == trim_end(
                v@.subrange(a as int, b as int),
            ),
        decreases b - a,
    {
        assert(v@.subrange(a as int, b as int).drop_last() =~= v@.subrange(a as int, b - 1));
        b = b - 1;
    }
    (a, b)
}

/// `s` with whitespace removed from both ends.
pub fn trim_str(s: &str) -> (r: String)
    ensures
        r@ == trim(s@),
{
    let v = chars_of(s);
    let (a, b) = trim_bounds(&v, 0, v.len());
    assert(v@.subrange(0, v.len() as int) =~= v@);
    s.substring_char(a, b).to_owned()
}

/// Whether `s` ends with `p`.
pub fn ends_with(s: &str, p: &str) -> (r: bool)
    ensures
        r == has_suffix(s@, p@),
{
    let v = chars_of(s);
    let w = chars_of(p);
    if w.len() > v.len() {
        return false;
    }
    let r = matches_at(&v, &w, v.len() - w.len());
    r
}

/// Every occurrence of `pat` in `s` replaced by `rep`, in a single pass.
pub fn replace_str(s: &str, pat: &str, rep: &str) -> (r: String)
    ensures
        r@ == replace_all(s@, pat@, rep@),
{
    let v = chars_of(s);
    let p = chars_of(pat);
    let n = v.len();
    if p.len() == 0 {
        return s.to_owned();
    }
    let mut out = String::new();
    let mut pos: usize = 0;
    assert(v@.subrange(0, n as int) =~= v@);
    loop
        invariant
            pos <= n == v.len(),
            v@ == s@,
            p@ == pat@,
            p.len() > 0,
            out@ + replace_all(v@.subrange(pos as int, n as int), p@, rep@) == replace_all(
                s@,
                pat@,
                rep@,
            ),
        decreases n - pos,
    {
        let ghost sub = v@.subrange(pos as int, n as int);
        match find_in(&v, pos, n, &p) {
            Some(i) => {
                assert(sub.subrange(0, i - pos) =~= v@.subrange(pos as int, i as int));
                assert(sub.subrange(i - pos + p.len(), sub.len() as int) =~= v@.subrange(
                    i + p.len(),
                    n as int,
                ));
                out.append(s.substring_char(pos, i));
                out.append(rep);
                assert(out@ + replace_all(v@.subrange(i + p.len(), n as int), p@, rep@)
                    =~= replace_all(s@, pat@, rep@));
                pos = i + p.len();
            },
            None => {
                out.append(s.substring_char(pos, n));
                assert(out@ =~= replace_all(s@, pat@, rep@));
                return out;
            },
        }
    }
}

/// Bounds of the first non-empty piece of `v[lo..hi]` split at `sep`.
pub fn first_piece_bounds(v: &Vec<char>, lo: usize, hi: usize, sep: &Vec<char>) -> (r: Option<
    (usize, usize),
>)
    requires
        lo <= hi <= v.len(),
    ensures
        match r {
            Some((a, b)) => lo <= a <= b <= hi && first_piece(
                v@.subrange(lo as int, hi as int),
                sep@,
            ) == Some(v@.subrange(a as int, b as int)),
            None => first_piece(v@.subrange(lo as int, hi as int), sep@) is None,
        },
{
    if sep.len() == 0 {
        if lo == hi {
            return None;
        }
        return Some((lo, hi));
    }
    let mut cur: usize = lo;
    loop
        invariant
            lo <= cur <= hi <= v.len(),
            sep.len() > 0,
            first_piece(v@.subrange(lo as int, hi as int), sep@) == first_piece(
                v@.subrange(cur as int, hi as int),
                sep@,
            ),
        decreases hi - cur,
    {
        let ghost sub = v@.subrange(cur as int, hi as int);
        if cur == hi {
            return None;
        }
        match find_in(v, cur, hi, sep) {
            None => {
                return Some((cur, hi));
            },
            Some(i) => {
                if i == cur {
                    assert(sub.subrange(sep.len() as int, sub.len() as int) =~= v@.subrange(
                        cur + sep.len(),
                        hi as int,
                    ));
                    cur = cur + sep.len();
                } else {
                    assert(sub.subrange(0, i - cur) =~= v@.subrange(cur as int, i as int));
                    return Some((cur, i));
                }
            },
        }
    }
}

/// Whether `a` and `b` hold the same characters.
pub fn str_eq(a: &str, b: &str) -> (r: bool)
    ensures
        r == (a@ == b@),
{
    let v = chars_of(a);
    let w = chars_of(b);
    if v.len() != w.len() {
        return false;
    }
    let r = matches_at(&v, &w, 0);
    assert(v@.subrange(0, w.len() as int) =~= v@);
    r
}

/// `s` with its leading whitespace removed.
pub fn trim_start_str(s: &str) -> (r: String)
    ensures
        r@ == trim_start(s@),
{
    let v = chars_of(s);
    let a = trim_start_bound(&v, 0, v.len());
    assert(v@.subrange(0, v.len() as int) =~= v@);
    s.substring_char(a, v.len()).to_owned()
}

} // verus!
