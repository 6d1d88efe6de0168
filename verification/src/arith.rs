//! Integer arithmetic kernel for the geometry layer: truncating division,
//! integer square root and range clamping, each tied to a spec-level
//! definition.

use vstd::prelude::*;

verus! {

/// Division by a positive divisor that rounds toward zero.
pub open spec fn tdiv(a: int, b: int) -> int
    recommends
        b > 0,
{
    if a >= 0 {
        a / b
    } else {
        -((-a) / b)
    }
}

/// Floor of the square root of a natural number.
pub open spec fn sqrt_floor(x: nat) -> nat
    decreases x,
{
    if x == 0 {
        0
    } else {
        let p = sqrt_floor((x - 1) as nat);
        if (p + 1) * (p + 1) <= x {
            (p + 1) as nat
        } else {
            p
        }
    }
}

pub proof fn lemma_sqrt_floor_bounds(x: nat)
    ensures
        sqrt_floor(x) * sqrt_floor(x) <= x,
        x < (sqrt_floor(x) + 1) * (sqrt_floor(x) + 1),
    decreases x,
{
    if x == 0 {
        let s = sqrt_floor(x);
        assert(s == 0);
        assert(s * s <= x && x < (s + 1) * (s + 1)) by (nonlinear_arith)
            requires
                s == 0,
                x == 0,
        ;
    } else {
        lemma_sqrt_floor_bounds((x - 1) as nat);
        let p = sqrt_floor((x - 1) as nat);
        assert(p * p <= x - 1);
        assert(x - 1 < (p + 1) * (p + 1));
        if (p + 1) * (p + 1) <= x {
            assert(sqrt_floor(x) == (p + 1) as nat);
            assert(((p + 1) + 1) * ((p + 1) + 1) > x) by (nonlinear_arith)
                requires
                    x - 1 < (p + 1) * (p + 1),
                    (p + 1) * (p + 1) <= x,
                    p >= 0,
            ;
            assert(sqrt_floor(x) * sqrt_floor(x) <= x);
            assert(x < (sqrt_floor(x) + 1) * (sqrt_floor(x) + 1));
        } else {
            assert(sqrt_floor(x) == p);
            assert(p * p <= x);
            assert(x < (p + 1) * (p + 1));
            assert(sqrt_floor(x) * sqrt_floor(x) <= x);
            assert(x < (sqrt_floor(x) + 1) * (sqrt_floor(x) + 1));
        }
    }
}

pub proof fn lemma_sqrt_floor_unique(x: nat, r: nat)
    requires
        r * r <= x,
        x < (r + 1) * (r + 1),
    ensures
        r == sqrt_floor(x),
{
    lemma_sqrt_floor_bounds(x);
    let s = sqrt_floor(x);
    if r < s {
        assert(false) by (nonlinear_arith)
            requires
                r < s,
                s * s <= x,
                x < (r + 1) * (r + 1),
        ;
    }
    if s < r {
        assert(false) by (nonlinear_arith)
            requires
                s < r,
                r * r <= x,
                x < (s + 1) * (s + 1),
        ;
    }
}

/// Magnitude bound of a product from magnitude bounds of its factors.
pub proof fn lemma_mul_bound(a: int, b: int, ca: int, cb: int)
    requires
        -ca <= a <= ca,
        -cb <= b <= cb,
    ensures
        -(ca * cb) <= a * b <= ca * cb,
{
    assert(-(ca * cb) <= a * b <= ca * cb) by (nonlinear_arith)
        requires
            -ca <= a <= ca,
            -cb <= b <= cb,
    ;
}

/// A truncating quotient never exceeds the numerator in magnitude.
pub proof fn lemma_tdiv_magnitude(a: int, b: int)
    requires
        b >= 1,
    ensures
        a >= 0 ==> 0 <= tdiv(a, b) <= a,
        a < 0 ==> a <= tdiv(a, b) <= 0,
{
    if a >= 0 {
        assert(0 <= a / b <= a) by (nonlinear_arith)
            requires
                a >= 0,
                b >= 1,
        ;
    } else {
        assert(0 <= (-a) / b <= -a) by (nonlinear_arith)
            requires
                -a > 0,
                b >= 1,
        ;
    }
}

/// A truncating quotient of a sum of `n` addends from `[lo, hi]` stays in
/// `[lo, hi]`.
pub proof fn lemma_tdiv_range(s: int, n: int, lo: int, hi: int)
    requires
        n >= 1,
        lo <= 0 <= hi,
        n * lo <= s <= n * hi,
    ensures
        lo <= tdiv(s, n) <= hi,
{
    if s >= 0 {
        assert(0 <= s / n <= hi) by (nonlinear_arith)
            requires
                n >= 1,
                hi >= 0,
                0 <= s <= n * hi,
        ;
    } else {
        assert(-(n * lo) == n * (-lo)) by (nonlinear_arith);
        assert(0 <= (-s) / n <= -lo) by (nonlinear_arith)
            requires
                n >= 1,
                lo <= 0,
                0 < -s <= n * (-lo),
        ;
    }
}

/// Truncating quotients are unchanged by scaling numerator and denominator
/// by one positive factor.
pub proof fn lemma_tdiv_cancel(a: int, b: int, c: int)
    requires
        b > 0,
        c > 0,
    ensures
        tdiv(c * a, c * b) == tdiv(a, b),
{
    assert(c * b > 0) by (nonlinear_arith)
        requires
            b > 0,
            c > 0,
    ;
    if a >= 0 {
        assert(c * a >= 0) by (nonlinear_arith)
            requires
                c > 0,
                a >= 0,
        ;
        assert((c * a) / (c * b) == a / b) by (nonlinear_arith)
            requires
                b > 0,
                c > 0,
                a >= 0,
        ;
    } else {
        assert(c * a < 0) by (nonlinear_arith)
            requires
                c > 0,
                a < 0,
        ;
        assert((c * (-a)) / (c * b) == (-a) / b) by (nonlinear_arith)
            requires
                b > 0,
                c > 0,
                -a > 0,
        ;
        assert(-(c * a) == c * (-a)) by (nonlinear_arith);
        assert(tdiv(c * a, c * b) == -((-(c * a)) / (c * b)));
        assert(-((c * (-a)) / (c * b)) == -((-a) / b));
    }
}

/// Truncating division that rounds toward zero; mirrors `tdiv`.
pub fn div_trunc(a: i128, b: i128) -> (r: i128)
    requires
        b > 0,
    ensures
        r as int == tdiv(a as int, b as int),
{
    proof {
        if a >= 0 {
            assert(0 <= a as int / b as int <= a as int) by (nonlinear_arith)
                requires
                    a >= 0,
                    b >= 1,
            ;
        } else {
            assert(0 <= (-(a as int)) / (b as int) <= -(a as int)) by (nonlinear_arith)
                requires
                    a < 0,
                    b >= 1,
            ;
        }
    }
    a.checked_div(b).unwrap()
}

/// Floor of the square root, by bisection over the result.
pub fn isqrt(x: u128) -> (r: u128)
    ensures
        r == sqrt_floor(x as nat),
        r * r <= x,
        x < (r + 1) * (r + 1),
{
    let mut lo: u128 = 0;
    let mut hi: u128 = 0xFFFF_FFFF_FFFF_FFFF;
    proof {
        assert((hi as int + 1) * (hi as int + 1) > u128::MAX as int);
    }
    while lo < hi
        invariant
            lo <= hi <= 0xFFFF_FFFF_FFFF_FFFF,
            lo as int * lo as int <= x as int,
            (hi as int + 1) * (hi as int + 1) > x as int,
        decreases hi - lo,
    {
        let mid: u128 = lo + (hi - lo + 1) / 2;
        proof {
            assert(mid as int * mid as int <= 0xFFFF_FFFF_FFFF_FFFF * 0xFFFF_FFFF_FFFF_FFFF)
                by (nonlinear_arith)
                requires
                    0 <= mid <= 0xFFFF_FFFF_FFFF_FFFFu128,
            ;
            assert(0xFFFF_FFFF_FFFF_FFFF * 0xFFFF_FFFF_FFFF_FFFF <= u128::MAX as int);
        }
        if mid * mid <= x {
            lo = mid;
        } else {
            hi = mid - 1;
        }
    }
    proof {
        lemma_sqrt_floor_unique(x as nat, lo as nat);
    }
    lo
}

/// The nearest value to `v` within `[lo, hi]`.
pub open spec fn clamp_spec(v: int, lo: int, hi: int) -> int
    recommends
        lo <= hi,
{
    if v < lo {
        lo
    } else if v > hi {
        hi
    } else {
        v
    }
}

/// Clamps a wide intermediate result into the coordinate component range.
pub fn clamp_to_i32(v: i128) -> (r: i32)
    ensures
        r as int == clamp_spec(v as int, i32::MIN as int, i32::MAX as int),
{
    if v < i32::MIN as i128 {
        i32::MIN
    } else if v > i32::MAX as i128 {
        i32::MAX
    } else {
        v as i32
    }
}

/// Clamps a distance sample into `[lo, hi]`.
pub fn clamp_i64(v: i64, lo: i64, hi: i64) -> (r: i64)
    requires
        lo <= hi,
    ensures
        r as int == clamp_spec(v as int, lo as int, hi as int),
{
    if v < lo {
        lo
    } else if v > hi {
        hi
    } else {
        v
    }
}

} // verus!
