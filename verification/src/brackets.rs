//! Bracket matching: where the loop that opens at a given position closes.

use vstd::prelude::*;

verus! {

/// The byte that opens a loop, `[`.
pub const OPEN: u8 = 91;

/// The byte that closes a loop, `]`.
pub const CLOSE: u8 = 93;

/// What one byte adds to the nesting depth.
pub open spec fn weight(c: u8) -> int {
    if c == OPEN {
        1
    } else if c == CLOSE {
        -1
    } else {
        0
    }
}

/// The opening brackets less the closing ones among `code[lo..hi]`.
pub open spec fn balance(code: Seq<u8>, lo: int, hi: int) -> int
    decreases hi - lo,
{
    if hi <= lo {
        0
    } else {
        balance(code, lo, hi - 1) + weight(code[hi - 1])
    }
}

/// The nesting depth once position `at` has been read, for a scan that took
/// the bracket at `start` as read and so began at depth 1.
pub open spec fn depth_after(code: Seq<u8>, start: int, at: int) -> int {
    1 + balance(code, start + 1, at + 1)
}

/// `end` is where the loop opened at `start` closes: the first position
/// behind `start` at which the depth is back to 0.
pub open spec fn is_match(code: Seq<u8>, start: int, end: int) -> bool {
    &&& 0 <= start < end < code.len()
    &&& depth_after(code, start, end) == 0
    &&& forall|j: int| start < j < end ==> depth_after(code, start, j) > 0
}

/// The loop opened at `start` closes somewhere.
pub open spec fn has_match(code: Seq<u8>, start: int) -> bool {
    exists|end: int| is_match(code, start, end)
}

/// The position at which the loop opened at `start` closes.
pub open spec fn match_of(code: Seq<u8>, start: int) -> int
    recommends
        has_match(code, start),
{
    choose|end: int| is_match(code, start, end)
}

/// A loop closes at one place only.
pub proof fn lemma_match_unique(code: Seq<u8>, start: int, a: int, b: int)
    requires
        is_match(code, start, a),
        is_match(code, start, b),
    ensures
        a == b,
{
}

/// The position that closes a loop holds a closing bracket, what lies
/// between the two brackets is balanced, and no part of it from its start
/// closes more than it has opened.
pub proof fn lemma_match_balances(code: Seq<u8>, start: int, end: int)
    requires
        is_match(code, start, end),
    ensures
        code[end] == CLOSE,
        balance(code, start + 1, end) == 0,
        ({
            let first = start + 1;
            forall|j: int| first <= j <= end ==> #[trigger] balance(code, first, j) >= 0
        }),
{
    let first = start + 1;
    assert(balance(code, first, end + 1) == balance(code, first, end) + weight(code[end]));
    if first < end {
        assert(depth_after(code, start, end - 1) > 0);
    }
    assert forall|j: int| first <= j <= end implies #[trigger] balance(code, first, j) >= 0 by {
        if first < j {
            assert(depth_after(code, start, j - 1) > 0);
        }
    }
}

/// Finds where the loop opened at `start` closes. The byte at `start` is
/// taken as read: the scan begins behind it, at depth 1, and ends at the
/// first position where the depth is 0. `None` when the depth never gets
/// there.
pub fn find_next(code: &[u8], start: usize) -> (found: Option<usize>)
    ensures
        match found {
            Some(end) => is_match(code@, start as int, end as int),
            None => !has_match(code@, start as int),
        },
{
    let n: usize = code.len();
    if start >= n {
        return None;
    }
    let mut depth: usize = 1;
    let mut j: usize = start + 1;
    while j < n
        invariant
            start < j <= n,
            n == code@.len(),
            depth == 1 + balance(code@, start + 1, j as int),
            1 <= depth <= j - start,
            forall|k: int| start < k < j ==> depth_after(code@, start as int, k) > 0,
        decreases n - j,
    {
        let c: u8 = code[j];
        assert(balance(code@, start + 1, j + 1) == balance(code@, start + 1, j as int) + weight(c));
        if c == OPEN {
            depth += 1;
        } else if c == CLOSE {
            depth -= 1;
            if depth == 0 {
                return Some(j);
            }
        }
        j += 1;
    }
    None
}

} // verus!
