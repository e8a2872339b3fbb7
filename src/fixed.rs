//! Fixed-point scalars: integers counting units of `1 / SCALE`.

use vstd::prelude::*;

verus! {

/// Fixed-point units per whole unit (of length, time, mass or velocity).
pub const SCALE: i64 = 1_000_000_000;

/// Largest magnitude of a position or velocity component; values beyond it
/// saturate, the fixed-point counterpart of overflowing to infinity.
pub const COORD_LIMIT: i64 = 4_503_599_627_370_496;

/// Truncating division (rounds toward zero), as integer division does in Rust.
pub open spec fn div_trunc(a: int, b: int) -> int {
    if a >= 0 {
        a / b
    } else {
        -((-a) / b)
    }
}

/// The integer square root: the largest `r` with `r * r <= n`.
pub open spec fn floor_sqrt(n: int) -> int {
    choose|r: int| is_floor_sqrt(n, r)
}

pub open spec fn is_floor_sqrt(n: int, r: int) -> bool {
    0 <= r && r * r <= n && n < (r + 1) * (r + 1)
}

/// `x` saturated into `[-COORD_LIMIT, COORD_LIMIT]`.
pub open spec fn clamp(x: int) -> int {
    if x > COORD_LIMIT {
        COORD_LIMIT as int
    } else if x < -COORD_LIMIT {
        -COORD_LIMIT
    } else {
        x
    }
}

proof fn lemma_floor_sqrt_unique(n: int, r: int, s: int)
    requires
        is_floor_sqrt(n, r),
        is_floor_sqrt(n, s),
    ensures
        r == s,
{
    if r < s {
        assert((r + 1) * (r + 1) <= s * s) by (nonlinear_arith)
            requires 0 <= r, r < s;
    } else if s < r {
        assert((s + 1) * (s + 1) <= r * r) by (nonlinear_arith)
            requires 0 <= s, s < r;
    }
}

/// Any witness of the square-root property is the integer square root.
pub proof fn lemma_floor_sqrt_is(n: int, r: int)
    requires
        is_floor_sqrt(n, r),
    ensures
        floor_sqrt(n) == r,
{
    let s = floor_sqrt(n);
    assert(is_floor_sqrt(n, s));
    lemma_floor_sqrt_unique(n, r, s);
}

/// A non-negative integer has an integer square root.
pub proof fn lemma_floor_sqrt_exists(n: int)
    requires
        n >= 0,
    ensures
        is_floor_sqrt(n, floor_sqrt(n)),
{
    lemma_floor_sqrt_search(n, 0);
}

proof fn lemma_floor_sqrt_search(n: int, r: int)
    requires
        0 <= r,
        r * r <= n,
    ensures
        is_floor_sqrt(n, floor_sqrt(n)),
    decreases n - r,
{
    if n < (r + 1) * (r + 1) {
        assert(is_floor_sqrt(n, r));
    } else {
        assert(r < n) by (nonlinear_arith)
            requires (r + 1) * (r + 1) <= n, r >= 0;
        lemma_floor_sqrt_search(n, r + 1);
    }
}

/// Integer square root by bisection.
pub fn isqrt(n: u128) -> (r: u64)
    ensures
        r as int == floor_sqrt(n as int),
        is_floor_sqrt(n as int, r as int),
{
    let mut lo: u128 = 0;
    let mut hi: u128 = 0x1_0000_0000_0000_0000;
    assert(n < hi * hi) by (nonlinear_arith)
        requires hi == 0x1_0000_0000_0000_0000int, n < 0x1_0000_0000_0000_0000_0000_0000_0000_0000int;
    while lo + 1 < hi
        invariant
            lo < hi <= 0x1_0000_0000_0000_0000,
            lo * lo <= n,
            n < hi * hi,
        decreases hi - lo,
    {
        let mid: u128 = lo + (hi - lo) / 2;
        assert(mid * mid < 0x1_0000_0000_0000_0000_0000_0000_0000_0000) by (nonlinear_arith)
            requires mid < 0x1_0000_0000_0000_0000int;
        if mid * mid <= n {
            lo = mid;
        } else {
            hi = mid;
        }
    }
    proof {
        lemma_floor_sqrt_is(n as int, lo as int);
    }
    lo as u64
}

/// Truncating division of `a` by a positive `b`.
pub fn div_toward_zero(a: i128, b: i128) -> (r: i128)
    requires
        b > 0,
        a > i128::MIN,
    ensures
        r == div_trunc(a as int, b as int),
{
    if a >= 0 {
        a / b
    } else {
        -((-a) / b)
    }
}

/// `x` saturated into `[-COORD_LIMIT, COORD_LIMIT]`.
pub fn saturate(x: i128) -> (r: i64)
    ensures
        r == clamp(x as int),
{
    if x > COORD_LIMIT as i128 {
        COORD_LIMIT
    } else if x < -(COORD_LIMIT as i128) {
        -COORD_LIMIT
    } else {
        x as i64
    }
}

} // verus!
