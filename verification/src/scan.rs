//! Character-level scanning helpers.
//!
//! The text heuristic works on the message as a sequence of characters.
//! This module converts a `&str` into that form and provides substring
//! search, exact and ASCII-case-insensitive, that the pattern scanners
//! build on.

use vstd::prelude::*;
use vstd::string::StrSliceExecFns;

verus! {

/// The pattern `pat` occurs in `s` starting at index `i`.
pub open spec fn matches_at(s: Seq<char>, pat: Seq<char>, i: int) -> bool {
    &&& 0 <= i
    &&& i + pat.len() <= s.len()
    &&& forall|j: int| 0 <= j < pat.len() ==> s[i + j] == pat[j]
}

/// The pattern `pat` occurs somewhere in `s`.
pub open spec fn contains_seq(s: Seq<char>, pat: Seq<char>) -> bool {
    exists|i: int| matches_at(s, pat, i)
}

/// `m` equals `t` up to ASCII case folding of `m`; `t` is expected to be
/// lower case already.  (65..=90 are the code points 'A'..='Z'.)
pub open spec fn ci_eq(m: char, t: char) -> bool {
    ||| m == t
    ||| (65 <= m as u32 <= 90 && m as u32 + 32 == t as u32)
}

/// The lower-case pattern `pat` occurs at index `i` of `s`, ignoring the
/// ASCII case of `s`.
pub open spec fn matches_ci_at(s: Seq<char>, pat: Seq<char>, i: int) -> bool {
    &&& 0 <= i
    &&& i + pat.len() <= s.len()
    &&& forall|j: int| 0 <= j < pat.len() ==> ci_eq(s[i + j], pat[j])
}

/// The lower-case pattern `pat` occurs somewhere in `s`, ignoring the
/// ASCII case of `s`.
pub open spec fn contains_ci(s: Seq<char>, pat: Seq<char>) -> bool {
    exists|i: int| matches_ci_at(s, pat, i)
}

/// Decodes a string into the vector of its characters.
pub fn to_chars(s: &str) -> (r: Vec<char>)
    ensures
        r@ == s@,
{
    let n = s.unicode_len();
    let mut v: Vec<char> = Vec::new();
    let mut i: usize = 0;
    while i < n
        invariant
            i <= n,
            n == s@.len(),
            v@ =~= s@.subrange(0, i as int),
        decreases n - i,
    {
        let c = s.get_char(i);
        v.push(c);
        proof {
            assert(v@ =~= s@.subrange(0, i + 1));
        }
        i += 1;
    }
    proof {
        assert(v@ =~= s@);
    }
    v
}

/// Tests whether `pat` occurs in `hay` at index `i`.
pub fn match_at(hay: &Vec<char>, pat: &Vec<char>, i: usize) -> (b: bool)
    ensures
        b == matches_at(hay@, pat@, i as int),
{
    if pat.len() > hay.len() || i > hay.len() - pat.len() {
        return false;
    }
    let mut j: usize = 0;
    while j < pat.len()
        invariant
            i + pat.len() <= hay.len(),
            j <= pat.len(),
            forall|k: int| 0 <= k < j ==> hay@[i + k] == pat@[k],
        decreases pat.len() - j,
    {
        if hay[i + j] != pat[j] {
            proof {
                assert(matches_at(hay@, pat@, i as int) ==> hay@[i + j] == pat@[j as int]);
            }
            return false;
        }
        j += 1;
    }
    true
}

/// Tests whether the lower-case `pat` occurs in `hay` at index `i`,
/// ignoring the ASCII case of `hay`.
pub fn match_ci_at(hay: &Vec<char>, pat: &Vec<char>, i: usize) -> (b: bool)
    ensures
        b == matches_ci_at(hay@, pat@, i as int),
{
    if pat.len() > hay.len() || i > hay.len() - pat.len() {
        return false;
    }
    let mut j: usize = 0;
    while j < pat.len()
        invariant
            i + pat.len() <= hay.len(),
            j <= pat.len(),
            forall|k: int| 0 <= k < j ==> ci_eq(hay@[i + k], pat@[k]),
        decreases pat.len() - j,
    {
        let m = hay[i + j];
        let t = pat[j];
        let folded = m == t || (m as u32 >= 65 && m as u32 <= 90 && m as u32 + 32 == t as u32);
        if !folded {
            proof {
                assert(matches_ci_at(hay@, pat@, i as int) ==> ci_eq(hay@[i + j], pat@[j as int]));
            }
            return false;
        }
        j += 1;
    }
    true
}

/// Tests whether `pat` occurs anywhere in `hay`.
pub fn find_sub(hay: &Vec<char>, pat: &Vec<char>) -> (b: bool)
    ensures
        b == contains_seq(hay@, pat@),
{
    if pat.len() > hay.len() {
        proof {
            assert(forall|p: int| !matches_at(hay@, pat@, p));
        }
        return false;
    }
    if pat.len() == 0 {
        proof {
            assert(matches_at(hay@, pat@, 0));
        }
        return true;
    }
    let last = hay.len() - pat.len();
    let mut i: usize = 0;
    while i <= last
        invariant
            1 <= pat@.len() <= hay@.len(),
            last == hay@.len() - pat@.len(),
            last < usize::MAX,
            i <= last + 1,
            forall|p: int| 0 <= p < i ==> !matches_at(hay@, pat@, p),
        decreases last + 1 - i,
    {
        if match_at(hay, pat, i) {
            return true;
        }
        i += 1;
    }
    proof {
        assert(forall|p: int| !matches_at(hay@, pat@, p));
    }
    false
}

/// Tests whether the lower-case `pat` occurs anywhere in `hay`, ignoring
/// the ASCII case of `hay`.
pub fn find_sub_ci(hay: &Vec<char>, pat: &Vec<char>) -> (b: bool)
    ensures
        b == contains_ci(hay@, pat@),
{
    if pat.len() > hay.len() {
        proof {
            assert(forall|p: int| !matches_ci_at(hay@, pat@, p));
        }
        return false;
    }
    if pat.len() == 0 {
        proof {
            assert(matches_ci_at(hay@, pat@, 0));
        }
        return true;
    }
    let last = hay.len() - pat.len();
    let mut i: usize = 0;
    while i <= last
        invariant
            1 <= pat@.len() <= hay@.len(),
            last == hay@.len() - pat@.len(),
            last < usize::MAX,
            i <= last + 1,
            forall|p: int| 0 <= p < i ==> !matches_ci_at(hay@, pat@, p),
        decreases last + 1 - i,
    {
        if match_ci_at(hay, pat, i) {
            return true;
        }
        i += 1;
    }
    proof {
        assert(forall|p: int| !matches_ci_at(hay@, pat@, p));
    }
    false
}

/// Compares a range of `hay` against `pat`.
pub fn range_eq(hay: &Vec<char>, lo: usize, hi: usize, pat: &Vec<char>) -> (b: bool)
    requires
        lo <= hi <= hay@.len(),
    ensures
        b == (hay@.subrange(lo as int, hi as int) == pat@),
{
    if hi - lo != pat.len() {
        proof {
            assert(hay@.subrange(lo as int, hi as int).len() == hi - lo);
        }
        return false;
    }
    let mut j: usize = 0;
    while j < pat.len()
        invariant
            lo <= hi <= hay@.len(),
            hi - lo == pat@.len(),
            j <= pat@.len(),
            forall|k: int| 0 <= k < j ==> hay@[lo + k] == pat@[k],
        decreases pat.len() - j,
    {
        if hay[lo + j] != pat[j] {
            proof {
                let sub = hay@.subrange(lo as int, hi as int);
                assert(sub == pat@ ==> sub[j as int] == pat@[j as int]);
                assert(sub[j as int] == hay@[lo + j]);
            }
            return false;
        }
        j += 1;
    }
    proof {
        assert(hay@.subrange(lo as int, hi as int) =~= pat@);
    }
    true
}

/// Copies the range `lo .. hi` of `hay` into a fresh vector.
pub fn copy_range(hay: &Vec<char>, lo: usize, hi: usize) -> (r: Vec<char>)
    requires
        lo <= hi <= hay@.len(),
    ensures
        r@ == hay@.subrange(lo as int, hi as int),
{
    let mut v: Vec<char> = Vec::new();
    let mut j: usize = lo;
    while j < hi
        invariant
            lo <= j <= hi <= hay@.len(),
            v@ =~= hay@.subrange(lo as int, j as int),
        decreases hi - j,
    {
        v.push(hay[j]);
        proof {
            assert(v@ =~= hay@.subrange(lo as int, j + 1));
        }
        j += 1;
    }
    v
}

/// Compares two ranges of `hay` against each other.
pub fn ranges_eq(hay: &Vec<char>, a1: usize, b1: usize, a2: usize, b2: usize) -> (r: bool)
    requires
        a1 <= b1 <= hay@.len(),
        a2 <= b2 <= hay@.len(),
    ensures
        r == (hay@.subrange(a1 as int, b1 as int) == hay@.subrange(a2 as int, b2 as int)),
{
    let ghost s1 = hay@.subrange(a1 as int, b1 as int);
    let ghost s2 = hay@.subrange(a2 as int, b2 as int);
    if b1 - a1 != b2 - a2 {
        proof {
            assert(s1.len() != s2.len());
        }
        return false;
    }
    let len = b1 - a1;
    let mut j: usize = 0;
    while j < len
        invariant
            a1 <= b1 <= hay@.len(),
            a2 <= b2 <= hay@.len(),
            len == b1 - a1 == b2 - a2,
            j <= len,
            s1 == hay@.subrange(a1 as int, b1 as int),
            s2 == hay@.subrange(a2 as int, b2 as int),
            forall|k: int| 0 <= k < j ==> #[trigger] hay@[a1 + k] == hay@[a2 + k],
        decreases len - j,
    {
        if hay[a1 + j] != hay[a2 + j] {
            proof {
                assert(s1 == s2 ==> s1[j as int] == s2[j as int]);
                assert(s1[j as int] == hay@[a1 + j]);
                assert(s2[j as int] == hay@[a2 + j]);
            }
            return false;
        }
        j += 1;
    }
    proof {
        assert forall|k: int| 0 <= k < s1.len() implies s1[k] == s2[k] by {
            assert(hay@[a1 + k] == hay@[a2 + k]);
        }
        assert(s1 =~= s2);
    }
    true
}

/// Compares two character vectors for equality.
pub fn vec_eq(a: &Vec<char>, b: &Vec<char>) -> (r: bool)
    ensures
        r == (a@ == b@),
{
    let r = range_eq(a, 0, a.len(), b);
    proof {
        assert(a@.subrange(0, a@.len() as int) =~= a@);
    }
    r
}

/// Tests whether `hay` starts with `pat`.
pub fn starts_with(hay: &Vec<char>, pat: &Vec<char>) -> (r: bool)
    ensures
        r == matches_at(hay@, pat@, 0),
{
    match_at(hay, pat, 0)
}

/// Tests whether `hay` ends with `pat`.
pub fn ends_with(hay: &Vec<char>, pat: &Vec<char>) -> (r: bool)
    ensures
        r == matches_at(hay@, pat@, hay@.len() - pat@.len()),
{
    if pat.len() > hay.len() {
        return false;
    }
    match_at(hay, pat, hay.len() - pat.len())
}

} // verus!
