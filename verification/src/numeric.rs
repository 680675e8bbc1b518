//! Integer helpers shared by the physics code: rounding division, clamping
//! and the integer square root.

use vstd::arithmetic::div_mod::{lemma_fundamental_div_mod, lemma_hoist_over_denominator};
use vstd::prelude::*;

verus! {

/// Quotient of `a` by a positive `b`, rounded toward zero.
pub open spec fn div_trunc(a: int, b: int) -> int {
    if a >= 0 {
        a / b
    } else {
        -((-a) / b)
    }
}

/// `v` limited to the interval `[lo, hi]`.
pub open spec fn clamp_to(v: int, lo: int, hi: int) -> int {
    if v < lo {
        lo
    } else if v > hi {
        hi
    } else {
        v
    }
}

/// `v` limited to the symmetric interval `[-bound, bound]`.
pub open spec fn saturate(v: int, bound: int) -> int {
    clamp_to(v, -bound, bound)
}

/// Whether `r` is the largest integer whose square does not exceed `n`.
pub open spec fn is_floor_sqrt(n: int, r: int) -> bool {
    &&& 0 <= r
    &&& r * r <= n
    &&& n < (r + 1) * (r + 1)
}

/// The largest integer whose square does not exceed `n` (0 for negative `n`).
pub open spec fn floor_sqrt(n: int) -> int
    decreases n,
{
    if n <= 0 {
        0
    } else {
        let r = floor_sqrt(n - 1);
        if (r + 1) * (r + 1) <= n {
            r + 1
        } else {
            r
        }
    }
}

/// `floor_sqrt` meets its defining property on every non-negative number.
pub proof fn lemma_floor_sqrt_correct(n: int)
    requires
        0 <= n,
    ensures
        is_floor_sqrt(n, floor_sqrt(n)),
    decreases n,
{
    if n > 0 {
        lemma_floor_sqrt_correct(n - 1);
        let r = floor_sqrt(n - 1);
        assert((r + 2) * (r + 2) == (r + 1) * (r + 1) + 2 * r + 3) by (nonlinear_arith);
        assert(r * r <= (r + 1) * (r + 1)) by (nonlinear_arith)
            requires
                0 <= r,
        ;
    }
}

/// Squaring keeps the order of non-negative integers.
pub proof fn lemma_square_monotonic(a: int, b: int)
    requires
        0 <= a <= b,
    ensures
        a * a <= b * b,
{
    assert(a * a <= b * b) by (nonlinear_arith)
        requires
            0 <= a <= b,
    ;
}

/// At most one integer is the floor of the square root of `n`.
pub proof fn lemma_floor_sqrt_unique(n: int, r: int)
    requires
        is_floor_sqrt(n, r),
    ensures
        floor_sqrt(n) == r,
{
    lemma_floor_sqrt_correct(n);
    let s = floor_sqrt(n);
    if s < r {
        lemma_square_monotonic(s + 1, r);
    } else if r < s {
        lemma_square_monotonic(r + 1, s);
    }
}

/// A product of two bounded factors is bounded by the product of the bounds.
pub proof fn lemma_product_bound(a: int, b: int, a_max: int, b_max: int)
    requires
        -a_max <= a <= a_max,
        -b_max <= b <= b_max,
    ensures
        -(a_max * b_max) <= a * b <= a_max * b_max,
{
    assert(-(a_max * b_max) <= a * b <= a_max * b_max) by (nonlinear_arith)
        requires
            -a_max <= a <= a_max,
            -b_max <= b <= b_max,
    ;
}

/// Rounding division by a positive number keeps a symmetric bound that is a
/// multiple of the divisor.
pub proof fn lemma_div_trunc_bound(a: int, d: int, q_max: int)
    requires
        0 < d,
        0 <= q_max,
        -(q_max * d) <= a <= q_max * d,
    ensures
        -q_max <= div_trunc(a, d) <= q_max,
{
    if a >= 0 {
        assert(a / d <= q_max) by (nonlinear_arith)
            requires
                0 < d,
                0 <= a <= q_max * d,
        ;
        assert(0 <= a / d) by (nonlinear_arith)
            requires
                0 < d,
                0 <= a,
        ;
    } else {
        let m = -a;
        assert(m / d <= q_max) by (nonlinear_arith)
            requires
                0 < d,
                0 <= m <= q_max * d,
        ;
        assert(0 <= m / d) by (nonlinear_arith)
            requires
                0 < d,
                0 <= m,
        ;
    }
}

/// Rounding division is odd: negating the dividend negates the quotient.
pub proof fn lemma_div_trunc_odd(a: int, d: int)
    requires
        0 < d,
    ensures
        div_trunc(-a, d) == -div_trunc(a, d),
{
    if a == 0 {
        assert(0int / d == 0) by (nonlinear_arith)
            requires
                0 < d,
        ;
    }
}

/// The rounded quotient of a product with a non-negative factor by a
/// positive divisor has the sign of the other factor, or is zero.
pub proof fn lemma_div_trunc_sign(f: int, c: int, d: int)
    requires
        0 <= f,
        0 < d,
    ensures
        c >= 0 ==> div_trunc(f * c, d) >= 0,
        c <= 0 ==> div_trunc(f * c, d) <= 0,
{
    if c >= 0 {
        assert(0 <= f * c) by (nonlinear_arith)
            requires
                0 <= f,
                0 <= c,
        ;
        assert(0 <= (f * c) / d) by (nonlinear_arith)
            requires
                0 <= f * c,
                0 < d,
        ;
    }
    if c <= 0 {
        assert(f * c <= 0) by (nonlinear_arith)
            requires
                0 <= f,
                c <= 0,
        ;
        assert(0 <= (-(f * c)) / d) by (nonlinear_arith)
            requires
                0 <= -(f * c),
                0 < d,
        ;
        if f * c == 0 {
            assert(0int / d == 0) by (nonlinear_arith)
                requires
                    0 < d,
            ;
        }
    }
}

/// A number whose square does not exceed `n` is at most the floor of the
/// square root of `n` in absolute value.
pub proof fn lemma_component_below_sqrt(c: int, n: int, r: int)
    requires
        c * c <= n,
        is_floor_sqrt(n, r),
    ensures
        -r <= c <= r,
{
    if c > r {
        lemma_square_monotonic(r + 1, c);
    } else if c < -r {
        lemma_square_monotonic(r + 1, -c);
        assert((-c) * (-c) == c * c) by (nonlinear_arith);
    }
}

/// A scaled quotient splits into the scaled whole part and the scaled
/// remainder's quotient.
pub proof fn lemma_scaled_quotient(g: int, p: int, d: int)
    requires
        0 <= g,
        0 <= p,
        0 < d,
    ensures
        (g * p) / d == g * (p / d) + (g * (p % d)) / d,
{
    lemma_fundamental_div_mod(p, d);
    let q = p / d;
    let rem = p % d;
    assert(g * p == g * rem + (g * q) * d) by (nonlinear_arith)
        requires
            p == d * q + rem,
    ;
    lemma_hoist_over_denominator(g * rem, g * q, d as nat);
}

/// Integer square root, rounded down.
pub fn isqrt(n: u128) -> (r: u64)
    ensures
        r == floor_sqrt(n as int),
        is_floor_sqrt(n as int, r as int),
{
    let mut lo: u128 = 0;
    let mut hi: u128 = 18446744073709551616;
    proof {
        assert(18446744073709551616int * 18446744073709551616int > u128::MAX) by (nonlinear_arith);
    }
    while hi - lo > 1
        invariant
            lo < hi <= 18446744073709551616,
            lo * lo <= n,
            n < hi * hi,
        decreases hi - lo,
    {
        let mid: u128 = lo + (hi - lo) / 2;
        proof {
            lemma_square_monotonic(mid as int, 18446744073709551615int);
            assert(18446744073709551615int * 18446744073709551615int <= u128::MAX)
                by (nonlinear_arith);
        }
        if mid * mid <= n {
            lo = mid;
        } else {
            hi = mid;
        }
    }
    proof {
        lemma_floor_sqrt_unique(n as int, lo as int);
    }
    lo as u64
}

/// Narrows `v` to the symmetric interval `[-bound, bound]`.
pub fn saturate_i64(v: i128, bound: i64) -> (r: i64)
    requires
        0 <= bound,
    ensures
        r == saturate(v as int, bound as int),
{
    if v < -(bound as i128) {
        -bound
    } else if v > bound as i128 {
        bound
    } else {
        v as i64
    }
}

} // verus!
