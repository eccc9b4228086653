//! Edit distance between character sequences.
//!
//! The misleading-URL check compares the domain of a link against the word
//! "discord" by Levenshtein distance.  The distance itself is computed by
//! the `levenshtein` crate; its meaning is the classic recursive definition
//! below, and the trusted wrapper promises exactly that.

use crate::scan;
use vstd::prelude::*;

verus! {

/// The Levenshtein distance between two character sequences: the least
/// number of single-character insertions, deletions and substitutions
/// that turns one into the other, defined by the standard recurrence.
pub open spec fn spec_levenshtein(a: Seq<char>, b: Seq<char>) -> nat
    decreases a.len() + b.len(),
{
    if a.len() == 0 {
        b.len()
    } else if b.len() == 0 {
        a.len()
    } else {
        let del = spec_levenshtein(a.drop_last(), b) + 1;
        let ins = spec_levenshtein(a, b.drop_last()) + 1;
        let sub = spec_levenshtein(a.drop_last(), b.drop_last()) + (if a.last() == b.last() {
            0nat
        } else {
            1nat
        });
        if del <= ins && del <= sub {
            del
        } else if ins <= sub {
            ins
        } else {
            sub
        }
    }
}

/// Relies on levenshtein::levenshtein: it returns the Levenshtein distance
/// between the two strings' character sequences (Wagner-Fischer over
/// `chars()`), which is the recurrence `spec_levenshtein` states.
#[verifier::external_body]
pub fn edit_distance(a: &Vec<char>, b: &str) -> (d: usize)
    ensures
        d == spec_levenshtein(a@, b@),
{
    let s: String = a.iter().collect();
    levenshtein::levenshtein(&s, b)
}

/// Computes the edit distance of a range of `hay` against `pat`.
pub fn range_edit_distance(hay: &Vec<char>, lo: usize, hi: usize, pat: &str) -> (d: usize)
    requires
        lo <= hi <= hay@.len(),
    ensures
        d == spec_levenshtein(hay@.subrange(lo as int, hi as int), pat@),
{
    let cap = scan::copy_range(hay, lo, hi);
    edit_distance(&cap, pat)
}

} // verus!
