//! Removing whitespace from the ends of a value.

use vstd::prelude::*;
use crate::collection::Trim;
use crate::text::copy_range;

verus! {

/// ASCII whitespace: space, tab, line feed, vertical tab, form feed,
/// carriage return.
pub open spec fn is_space(b: u8) -> bool {
    b == 32 || (9 <= b && b <= 13)
}

/// The first index in `[lo, hi)` that holds no whitespace, or `hi`.
pub open spec fn start_kept(s: Seq<u8>, lo: int, hi: int) -> int
    decreases hi - lo,
{
    if lo >= hi {
        hi
    } else if is_space(s[lo]) {
        start_kept(s, lo + 1, hi)
    } else {
        lo
    }
}

/// The end of the last run in `[lo, hi)` that does not end in whitespace,
/// or `lo`.
pub open spec fn end_kept(s: Seq<u8>, lo: int, hi: int) -> int
    decreases hi - lo,
{
    if hi <= lo {
        lo
    } else if is_space(s[hi - 1]) {
        end_kept(s, lo, hi - 1)
    } else {
        hi
    }
}

/// `s` without the whitespace at the ends that `trim` names.
pub open spec fn trimmed(s: Seq<u8>, trim: Trim) -> Seq<u8> {
    let n = s.len() as int;
    match trim {
        Trim::Neither => s,
        Trim::Start => s.subrange(start_kept(s, 0, n), n),
        Trim::End => s.subrange(0, end_kept(s, 0, n)),
        Trim::Both => s.subrange(start_kept(s, 0, n), end_kept(s, start_kept(s, 0, n), n)),
    }
}

proof fn lemma_start_kept(s: Seq<u8>, lo: int, hi: int)
    requires
        0 <= lo <= hi <= s.len(),
    ensures
        lo <= start_kept(s, lo, hi) <= hi,
        start_kept(s, lo, hi) < hi ==> !is_space(s[start_kept(s, lo, hi)]),
        forall|i: int| lo <= i < start_kept(s, lo, hi) ==> is_space(#[trigger] s[i]),
    decreases hi - lo,
{
    if lo < hi && is_space(s[lo]) {
        lemma_start_kept(s, lo + 1, hi);
    }
}

proof fn lemma_end_kept(s: Seq<u8>, lo: int, hi: int)
    requires
        0 <= lo <= hi <= s.len(),
    ensures
        lo <= end_kept(s, lo, hi) <= hi,
        end_kept(s, lo, hi) > lo ==> !is_space(s[end_kept(s, lo, hi) - 1]),
        forall|i: int| end_kept(s, lo, hi) <= i < hi ==> is_space(#[trigger] s[i]),
    decreases hi - lo,
{
    if lo < hi && is_space(s[hi - 1]) {
        lemma_end_kept(s, lo, hi - 1);
    }
}

/// What is trimmed is a part of the value, and no end that was to be
/// trimmed still holds whitespace.
pub proof fn lemma_trimmed(s: Seq<u8>, trim: Trim)
    ensures
        trimmed(s, trim).len() <= s.len(),
        exists|a: int, b: int| 0 <= a <= b <= s.len() && trimmed(s, trim) == s.subrange(a, b),
        (trim is Start || trim is Both) && trimmed(s, trim).len() > 0 ==> !is_space(
            trimmed(s, trim)[0],
        ),
        (trim is End || trim is Both) && trimmed(s, trim).len() > 0 ==> !is_space(
            trimmed(s, trim).last(),
        ),
{
    let n = s.len() as int;
    lemma_start_kept(s, 0, n);
    lemma_end_kept(s, 0, n);
    let a = start_kept(s, 0, n);
    lemma_end_kept(s, a, n);
    match trim {
        Trim::Neither => {
            assert(s == s.subrange(0, n));
        },
        Trim::Start => {
        },
        Trim::End => {
        },
        Trim::Both => {
        },
    }
}

/// Trimming what is already trimmed changes nothing.
pub proof fn lemma_trim_idempotent(s: Seq<u8>, trim: Trim)
    ensures
        trimmed(trimmed(s, trim), trim) == trimmed(s, trim),
{
    lemma_trimmed(s, trim);
    let t = trimmed(s, trim);
    let m = t.len() as int;
    lemma_start_kept(t, 0, m);
    lemma_end_kept(t, 0, m);
    lemma_end_kept(t, start_kept(t, 0, m), m);
    if m > 0 {
    }
}

fn space(b: u8) -> (r: bool)
    ensures
        r == is_space(b),
{
    b == 32 || (9 <= b && b <= 13)
}

/// Removes the whitespace at the ends that `trim` names.
pub fn apply_trim(value: &Vec<u8>, trim: Trim) -> (r: Vec<u8>)
    ensures
        r@ == trimmed(value@, trim),
{
    let n = value.len();
    let mut lo: usize = 0;
    let mut hi: usize = n;
    match trim {
        Trim::Start | Trim::Both => {
            while lo < n && space(value[lo])
                invariant
                    lo <= n,
                    n == value.len(),
                    start_kept(value@, 0, n as int) == start_kept(value@, lo as int, n as int),
                decreases n - lo,
            {
                lo += 1;
            }
        },
        _ => {},
    }
    match trim {
        Trim::End | Trim::Both => {
            while hi > lo && space(value[hi - 1])
                invariant
                    lo <= hi <= n,
                    n == value.len(),
                    end_kept(value@, lo as int, n as int) == end_kept(value@, lo as int, hi as int),
                decreases hi - lo,
            {
                hi -= 1;
            }
        },
        _ => {},
    }
    let r = copy_range(value.as_slice(), lo, hi);
    r
}

} // verus!
