//! Fixed-point scalars: an `i64` holds a real number scaled by [`FP_ONE`]
//! (millionths of a unit), and [`fpdiv`] is the truncating division used by
//! every fixed-point computation in the crate.

use vstd::prelude::*;

verus! {

use vstd::arithmetic::div_mod::lemma_div_is_ordered;
use vstd::arithmetic::div_mod::lemma_div_multiples_vanish;
use vstd::arithmetic::div_mod::lemma_div_nonincreasing;
use vstd::arithmetic::div_mod::lemma_div_of0;

/// One unit in fixed-point form: values are counts of millionths.
pub const FP_ONE: i64 = 1_000_000;

/// Division truncated toward zero, the rounding used by all fixed-point
/// arithmetic here.  For `a >= 0` (and `b > 0`) it agrees with the
/// mathematical `a / b`.
pub open spec fn fpdiv(a: int, b: int) -> int
    recommends
        b > 0,
{
    if a >= 0 {
        a / b
    } else {
        -((-a) / b)
    }
}

/// `fpdiv` of zero is zero.
pub proof fn lemma_fpdiv_of0(b: int)
    requires
        b > 0,
    ensures
        fpdiv(0, b) == 0,
{
    lemma_div_of0(b);
}

/// Dividing `x * m` by `m` gives back `x`, whatever the sign of `x`.
pub proof fn lemma_fpdiv_cancel(x: int, m: int)
    requires
        m > 0,
    ensures
        fpdiv(x * m, m) == x,
{
    if x >= 0 {
        assert(x * m >= 0) by (nonlinear_arith)
            requires
                x >= 0,
                m > 0,
        ;
        assert(x * m == m * x) by (nonlinear_arith);
        lemma_div_multiples_vanish(x, m);
    } else {
        assert(x * m < 0) by (nonlinear_arith)
            requires
                x < 0,
                m > 0,
        ;
        assert(-(x * m) == m * (-x)) by (nonlinear_arith);
        lemma_div_multiples_vanish(-x, m);
    }
}

/// The magnitude of a truncating quotient never exceeds the magnitude of
/// the dividend (for a positive divisor).
pub proof fn lemma_fpdiv_bound(a: int, b: int)
    requires
        b > 0,
    ensures
        a >= 0 ==> 0 <= fpdiv(a, b) <= a,
        a < 0 ==> a <= fpdiv(a, b) <= 0,
{
    if a >= 0 {
        lemma_div_nonincreasing(a, b);
        assert(a / b >= 0) by (nonlinear_arith)
            requires
                a >= 0,
                b > 0,
        ;
    } else {
        lemma_div_nonincreasing(-a, b);
        assert((-a) / b >= 0) by (nonlinear_arith)
            requires
                -a >= 0,
                b > 0,
        ;
    }
}

/// A quotient is bounded by `c` whenever the dividend is bounded by
/// `c * b`.
pub proof fn lemma_fpdiv_ratio_bound(a: int, b: int, c: int)
    requires
        b > 0,
        0 <= c,
        -(c * b) <= a <= c * b,
    ensures
        -c <= fpdiv(a, b) <= c,
{
    assert(c * b == b * c) by (nonlinear_arith);
    lemma_div_multiples_vanish(c, b);
    if a >= 0 {
        lemma_div_is_ordered(a, b * c, b);
        assert(a / b >= 0) by (nonlinear_arith)
            requires
                a >= 0,
                b > 0,
        ;
    } else {
        lemma_div_is_ordered(-a, b * c, b);
        assert((-a) / b >= 0) by (nonlinear_arith)
            requires
                -a >= 0,
                b > 0,
        ;
    }
}

/// A product of bounded factors is bounded by the product of the bounds.
pub proof fn lemma_mul_bound(a: int, b: int, ab: int, bb: int) by (nonlinear_arith)
    requires
        -ab <= a <= ab,
        -bb <= b <= bb,
        0 <= ab,
        0 <= bb,
    ensures
        -(ab * bb) <= a * b <= ab * bb,
{
}

/// Truncating division of `i64` values, matching [`fpdiv`] exactly.
pub fn div_trunc(a: i64, b: i64) -> (r: i64)
    requires
        b >= 1,
        a > i64::MIN,
    ensures
        r == fpdiv(a as int, b as int),
        a >= 0 ==> 0 <= r <= a,
        a < 0 ==> a <= r <= 0,
{
    proof {
        lemma_fpdiv_bound(a as int, b as int);
    }
    if a >= 0 {
        ((a as u64) / (b as u64)) as i64
    } else {
        let neg: i64 = -a;
        -(((neg as u64) / (b as u64)) as i64)
    }
}

} // verus!
