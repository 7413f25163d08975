//! Deterministic integer square root.

use vstd::prelude::*;

verus! {

/// `r` is the exact floor of the square root of `y`.
pub open spec fn is_floor_sqrt(y: u64, r: u32) -> bool {
    &&& (r as int) * (r as int) <= y as int
    &&& (y as int) < (r as int + 1) * (r as int + 1)
}

/// Deterministic, precisely rounded down, integer sqrt.
///
/// `integer_sqrt(u64::MAX) == u32::MAX`, so the result always fits in `u32`.
pub fn integer_sqrt(y: u64) -> (r: u32)
    ensures
        is_floor_sqrt(y, r),
{
    let mut lo: u32 = 0;
    let mut hi: u32 = u32::MAX;
    proof {
        assert((hi as int + 1) * (hi as int + 1) > y as int) by (nonlinear_arith)
            requires hi == u32::MAX, y <= u64::MAX;
    }
    while lo < hi
        invariant
            lo <= hi,
            (lo as int) * (lo as int) <= y as int,
            (y as int) < (hi as int + 1) * (hi as int + 1),
        decreases hi - lo,
    {
        let mid: u32 = hi - (hi - lo) / 2;
        proof {
            assert((mid as int) * (mid as int) < 0x1_0000_0000_0000_0000) by (nonlinear_arith)
                requires mid as int <= 0xFFFF_FFFF;
        }
        let sq: u64 = (mid as u64) * (mid as u64);
        if sq <= y {
            lo = mid;
        } else {
            hi = mid - 1;
        }
    }
    lo
}

/// The floor square root is unique: if `k * k <= y < (k + 1) * (k + 1)`
/// then any floor square root of `y` equals `k`.
pub proof fn lemma_floor_sqrt_unique(y: u64, r: u32, k: u32)
    requires
        is_floor_sqrt(y, r),
        (k as int) * (k as int) <= y as int,
        (y as int) < (k as int + 1) * (k as int + 1),
    ensures
        r == k,
{
    if r < k {
        assert((r as int + 1) * (r as int + 1) <= (k as int) * (k as int)) by (nonlinear_arith)
            requires r as int + 1 <= k as int, 0 <= r as int;
    } else if k < r {
        assert((k as int + 1) * (k as int + 1) <= (r as int) * (r as int)) by (nonlinear_arith)
            requires k as int + 1 <= r as int, 0 <= k as int;
    }
}

/// The floor square root is monotone in its argument.
pub proof fn lemma_floor_sqrt_monotone(y1: u64, y2: u64, r1: u32, r2: u32)
    requires
        y1 <= y2,
        is_floor_sqrt(y1, r1),
        is_floor_sqrt(y2, r2),
    ensures
        r1 <= r2,
{
    if r2 < r1 {
        assert((r2 as int + 1) * (r2 as int + 1) <= (r1 as int) * (r1 as int)) by (nonlinear_arith)
            requires r2 as int + 1 <= r1 as int, 0 <= r2 as int;
    }
}

} // verus!

verus! {

/// Squaring is monotone on the nonnegative integers.
pub proof fn lemma_sq_mono(a: int, b: int)
    requires
        0 <= a <= b,
    ensures
        a * a <= b * b,
{
    assert(a * a <= b * b) by (nonlinear_arith)
        requires 0 <= a <= b;
}

} // verus!
