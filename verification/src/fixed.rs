//! Fixed-point arithmetic: analog quantities are whole numbers of
//! thousandths, and every division rounds toward zero.

use vstd::arithmetic::div_mod::{lemma_fundamental_div_mod, lemma_fundamental_div_mod_converse};
use vstd::prelude::*;

verus! {

/// The number of fixed-point units in one: a stored `1500` means 1.5.
pub const MILLI: i32 = 1000;

/// The quotient of `a` by `b` rounded toward zero: the floor for a
/// non-negative quotient, the ceiling for a negative one.
pub open spec fn trunc_div(a: int, b: int) -> int
    recommends
        b != 0,
{
    if a >= 0 && b > 0 {
        a / b
    } else if a < 0 && b > 0 {
        -((-a) / b)
    } else if a >= 0 && b < 0 {
        -(a / (-b))
    } else {
        (-a) / (-b)
    }
}

/// What is left of `a` after `trunc_div(a, b)` times `b`: it has the sign of
/// `a` and is smaller than `b` in magnitude.
pub open spec fn trunc_rem(a: int, b: int) -> int
    recommends
        b != 0,
{
    a - trunc_div(a, b) * b
}

/// `v` held into the range from `lo` to `hi`.
pub open spec fn clamp(v: int, lo: int, hi: int) -> int {
    if v < lo {
        lo
    } else if v > hi {
        hi
    } else {
        v
    }
}

/// For a positive divisor the remainder lies strictly between `-b` and `b`
/// and never has the opposite sign of `a`.
pub proof fn lemma_trunc_rem_bounds(a: int, b: int)
    requires
        b > 0,
    ensures
        -b < trunc_rem(a, b) < b,
        a >= 0 ==> trunc_rem(a, b) >= 0,
        a <= 0 ==> trunc_rem(a, b) <= 0,
        trunc_div(a, b) * b + trunc_rem(a, b) == a,
{
    if a >= 0 {
        assert(a == (a / b) * b + a % b) by (nonlinear_arith)
            requires
                b > 0,
        ;
    } else {
        let m = -a;
        assert(m == (m / b) * b + m % b) by (nonlinear_arith)
            requires
                b > 0,
        ;
        assert((-(m / b)) * b == -((m / b) * b)) by (nonlinear_arith);
    }
}

/// A product of two bounded numbers is bounded by the product of the bounds.
pub proof fn lemma_product_bound(a: int, b: int, la: int, lb: int)
    requires
        -la <= a <= la,
        -lb <= b <= lb,
    ensures
        -(la * lb) <= a * b <= la * lb,
{
    assert(-(la * lb) <= a * b <= la * lb) by (nonlinear_arith)
        requires
            -la <= a <= la,
            -lb <= b <= lb,
    ;
}

/// Dividing by a positive number moves no number away from zero.
pub proof fn lemma_trunc_div_shrinks(a: int, b: int)
    requires
        b > 0,
    ensures
        a >= 0 ==> 0 <= trunc_div(a, b) <= a,
        a <= 0 ==> a <= trunc_div(a, b) <= 0,
{
    if a >= 0 {
        assert(0 <= a / b <= a) by (nonlinear_arith)
            requires
                a >= 0,
                b > 0,
        ;
    } else {
        let m = -a;
        assert(0 <= m / b <= m) by (nonlinear_arith)
            requires
                m >= 0,
                b > 0,
        ;
    }
}

/// Division rounding toward zero, on machine integers.
pub fn div_toward_zero(a: i128, b: i128) -> (q: i128)
    requires
        b != 0,
        a > i128::MIN,
        b > i128::MIN,
    ensures
        q == trunc_div(a as int, b as int),
{
    if a >= 0 && b > 0 {
        a / b
    } else if a < 0 && b > 0 {
        -((-a) / b)
    } else if a >= 0 {
        -(a / (-b))
    } else {
        (-a) / (-b)
    }
}

/// Division by a positive number, rounding toward zero, with what is left:
/// defined for every dividend.
pub fn split_toward_zero(a: i128, b: i128) -> (parts: (i128, i128))
    requires
        b > 0,
    ensures
        parts.0 == trunc_div(a as int, b as int),
        parts.1 == trunc_rem(a as int, b as int),
{
    if a >= 0 {
        proof {
            lemma_fundamental_div_mod(a as int, b as int);
            assert(b * (a / b) == (a / b) * b) by (nonlinear_arith);
        }
        (a / b, a % b)
    } else {
        // the magnitude of `a` may not fit, that of `a + 1` always does
        let m: i128 = -(a + 1);
        let q: i128 = m / b;
        let r: i128 = m % b;
        proof {
            lemma_fundamental_div_mod(m as int, b as int);
            assert(b * (m / b) == (m / b) * b) by (nonlinear_arith);
            if r == b - 1 {
                assert(-a == (q + 1) * b + 0) by (nonlinear_arith)
                    requires
                        m == q * b + r,
                        r == b - 1,
                        m == -(a + 1),
                ;
                lemma_fundamental_div_mod_converse(-a, b as int, q + 1, 0);
                assert((-(q + 1)) * b == -((q + 1) * b)) by (nonlinear_arith);
            } else {
                assert(-a == q * b + (r + 1)) by (nonlinear_arith)
                    requires
                        m == q * b + r,
                        m == -(a + 1),
                ;
                lemma_fundamental_div_mod_converse(-a, b as int, q as int, r + 1);
                assert((-q) * b == -(q * b)) by (nonlinear_arith);
            }
        }
        if r == b - 1 {
            (-q - 1, 0)
        } else {
            (-q, -(r + 1))
        }
    }
}

} // verus!
