//! Fixed-point arithmetic: the unit of length and an exact integer square root.

use vstd::prelude::*;

verus! {

/// The length of one grid cell. A coordinate `c` lies in cell `c / UNIT`.
pub const UNIT: i64 = 65536;

/// The product of two fixed-point numbers, rounded down.
pub open spec fn scaled(a: int, b: int) -> int {
    (a * b) / (UNIT as int)
}

/// `a / b` rounded towards zero, for a positive `b`.
pub open spec fn toward_zero(a: int, b: int) -> int {
    if a >= 0 {
        a / b
    } else {
        -((-a) / b)
    }
}

/// `r` is the square root of `n`, rounded down.
pub open spec fn is_floor_sqrt(n: int, r: int) -> bool {
    0 <= r && r * r <= n < (r + 1) * (r + 1)
}

/// The square root of `n`, rounded down (0 for negative `n`).
pub open spec fn floor_sqrt(n: int) -> int {
    if n < 0 {
        0
    } else {
        choose|r: int| is_floor_sqrt(n, r)
    }
}

/// Squaring is monotone on the non-negative integers.
pub proof fn lemma_square_monotone(a: int, b: int)
    requires
        0 <= a <= b,
    ensures
        a * a <= b * b,
{
    assert(a * a <= b * b) by (nonlinear_arith)
        requires
            0 <= a <= b,
    ;
}

/// At most one number is the rounded-down square root of `n`.
pub proof fn lemma_floor_sqrt_unique(n: int, r: int)
    requires
        is_floor_sqrt(n, r),
    ensures
        floor_sqrt(n) == r,
{
    assert(0 <= r * r) by (nonlinear_arith);
    let s = floor_sqrt(n);
    assert(is_floor_sqrt(n, s));
    if s < r {
        lemma_square_monotone(s + 1, r);
    } else if r < s {
        lemma_square_monotone(r + 1, s);
    }
}

/// Every non-negative number has a rounded-down square root.
pub proof fn lemma_floor_sqrt_exists(n: int)
    requires
        0 <= n,
    ensures
        is_floor_sqrt(n, floor_sqrt(n)),
    decreases n,
{
    if n == 0 {
        assert(is_floor_sqrt(0, 0));
    } else {
        lemma_floor_sqrt_exists(n - 1);
        let r = floor_sqrt(n - 1);
        if n < (r + 1) * (r + 1) {
            assert(is_floor_sqrt(n, r));
        } else {
            assert((r + 2) * (r + 2) > (r + 1) * (r + 1)) by (nonlinear_arith)
                requires
                    r >= 0,
            ;
            assert(is_floor_sqrt(n, r + 1));
        }
    }
}

/// The rounded-down square root of a number below `bound * bound` is below
/// `bound`.
pub proof fn lemma_floor_sqrt_bounds(n: int, bound: int)
    requires
        0 <= n < bound * bound,
        0 <= bound,
    ensures
        0 <= floor_sqrt(n) < bound,
{
    lemma_floor_sqrt_exists(n);
    let r = floor_sqrt(n);
    if r >= bound {
        lemma_square_monotone(bound, r);
    }
}

/// The integer square root of `n`, rounded down.
pub fn isqrt(n: u128) -> (r: u64)
    ensures
        r == floor_sqrt(n as int),
        is_floor_sqrt(n as int, r as int),
{
    let mut lo: u128 = 0;
    let mut hi: u128 = 0x1_0000_0000_0000_0000;
    proof {
        assert(0x1_0000_0000_0000_0000int * 0x1_0000_0000_0000_0000int > u128::MAX)
            by (nonlinear_arith);
    }
    while hi - lo > 1
        invariant
            lo < hi <= 0x1_0000_0000_0000_0000,
            lo * lo <= n,
            n < hi * hi,
        decreases hi - lo,
    {
        let mid: u128 = lo + (hi - lo) / 2;
        assert(mid * mid <= u128::MAX) by (nonlinear_arith)
            requires
                0 <= mid < 0x1_0000_0000_0000_0000,
        ;
        if mid * mid <= n {
            lo = mid;
        } else {
            hi = mid;
        }
    }
    proof {
        lemma_floor_sqrt_unique(n as int, lo as int);
    }
    lo as u64
}

/// `a / b` rounded down, for a positive `b`.
pub fn floor_div(a: i128, b: i128) -> (q: i128)
    requires
        b > 0,
        a > i128::MIN,
    ensures
        q == a / b,
{
    if a >= 0 {
        a / b
    } else {
        let n: i128 = -a;
        let q: i128 = n / b;
        let r: i128 = n % b;
        assert(n == q * b + r && 0 <= r < b) by (nonlinear_arith)
            requires
                n >= 0,
                b > 0,
                q == n / b,
                r == n % b,
        ;
        if r == 0 {
            assert(a == (-q) * b) by (nonlinear_arith)
                requires
                    a == -n,
                    n == q * b + r,
                    r == 0,
            ;
            assert(a / b == -q) by (nonlinear_arith)
                requires
                    a == (-q) * b,
                    b > 0,
            ;
            -q
        } else {
            assert(a == (-q - 1) * b + (b - r)) by (nonlinear_arith)
                requires
                    a == -n,
                    n == q * b + r,
            ;
            assert(a / b == -q - 1) by (nonlinear_arith)
                requires
                    a == (-q - 1) * b + (b - r),
                    0 < b - r < b,
            ;
            -q - 1
        }
    }
}

/// `a / b` rounded towards zero, for a positive `b`.
pub fn div_toward_zero(a: i128, b: i128) -> (q: i128)
    requires
        b > 0,
        a > i128::MIN,
    ensures
        q == toward_zero(a as int, b as int),
        a >= 0 ==> 0 <= q <= a,
        a <= 0 ==> a <= q <= 0,
{
    if a >= 0 {
        assert(0 <= a / b <= a) by (nonlinear_arith)
            requires
                a >= 0,
                b > 0,
        ;
        a / b
    } else {
        let n: i128 = -a;
        assert(0 <= n / b <= n) by (nonlinear_arith)
            requires
                n >= 0,
                b > 0,
        ;
        -(n / b)
    }
}

} // verus!
