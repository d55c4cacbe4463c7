//! Integer geometry: absolute value, clamping into the coordinate arena,
//! and the floor of the square root, used by the separation solver.

use vstd::prelude::*;

verus! {

/// Absolute value over mathematical integers.
pub open spec fn abs_i(v: int) -> int {
    if v < 0 { -v } else { v }
}

/// Clamp a mathematical integer into `[-lim, lim]`.
pub open spec fn clamp_i(v: int, lim: int) -> int {
    if v < -lim { -lim } else if v > lim { lim } else { v }
}

/// `r` is the floor of the square root of `n`.
pub open spec fn is_sqrt_floor(n: int, r: int) -> bool {
    0 <= r && r * r <= n && n < (r + 1) * (r + 1)
}

/// The floor of the square root of a nonnegative integer.
pub open spec fn sqrt_floor(n: int) -> int {
    choose|r: int| is_sqrt_floor(n, r)
}

/// Every nonnegative integer has a square-root floor.
pub proof fn lemma_sqrt_floor_exists(n: int)
    requires
        n >= 0,
    ensures
        is_sqrt_floor(n, sqrt_floor(n)),
    decreases n,
{
    if n == 0 {
        assert(is_sqrt_floor(0, 0));
    } else {
        lemma_sqrt_floor_exists(n - 1);
        let r = sqrt_floor(n - 1);
        if (r + 1) * (r + 1) <= n {
            assert(n == (r + 1) * (r + 1));
            assert((r + 2) * (r + 2) > n) by (nonlinear_arith)
                requires
                    n == (r + 1) * (r + 1),
                    r >= 0,
            ;
            assert(is_sqrt_floor(n, r + 1));
        } else {
            assert(is_sqrt_floor(n, r));
        }
        let w = choose|w: int| is_sqrt_floor(n, w);
        assert(is_sqrt_floor(n, w));
    }
}

/// The square-root floor is unique, so any witness equals `sqrt_floor`.
pub proof fn lemma_sqrt_floor_unique(n: int, r: int)
    requires
        is_sqrt_floor(n, r),
    ensures
        r == sqrt_floor(n),
{
    assert(n >= 0) by (nonlinear_arith)
        requires
            is_sqrt_floor(n, r),
    ;
    lemma_sqrt_floor_exists(n);
    let s = sqrt_floor(n);
    assert(r == s) by (nonlinear_arith)
        requires
            is_sqrt_floor(n, r),
            is_sqrt_floor(n, s),
    ;
}

/// Largest `v` with `v * v <= i64::MAX`, the search ceiling for `isqrt`.
pub const SQRT_MAX: i64 = 3_037_000_499;

/// Floor of the square root, by binary search.
pub fn isqrt(n: i64) -> (r: i64)
    requires
        n >= 0,
    ensures
        is_sqrt_floor(n as int, r as int),
        r as int == sqrt_floor(n as int),
{
    let mut lo: i64 = 0;
    let mut hi: i64 = SQRT_MAX;
    proof {
        assert((SQRT_MAX + 1) * (SQRT_MAX + 1) > i64::MAX as int) by (nonlinear_arith);
    }
    while lo < hi
        invariant
            0 <= lo <= hi <= SQRT_MAX,
            lo * lo <= n,
            n < (hi + 1) * (hi + 1),
        decreases hi - lo,
    {
        let mid: i64 = lo + (hi - lo + 1) / 2;
        proof {
            assert(mid * mid <= SQRT_MAX * SQRT_MAX) by (nonlinear_arith)
                requires
                    0 <= mid <= SQRT_MAX,
            ;
            assert(SQRT_MAX * SQRT_MAX <= i64::MAX as int) by (nonlinear_arith);
        }
        if mid * mid <= n {
            lo = mid;
        } else {
            hi = mid - 1;
        }
    }
    proof {
        lemma_sqrt_floor_unique(n as int, lo as int);
    }
    lo
}

/// Clamp into `[-lim, lim]`; mirrors `clamp_i`.
pub fn clamp_to(v: i64, lim: i64) -> (r: i64)
    requires
        lim >= 0,
    ensures
        r as int == clamp_i(v as int, lim as int),
{
    if v < -lim {
        -lim
    } else if v > lim {
        lim
    } else {
        v
    }
}

} // verus!
