//! Saturating fixed-point arithmetic.
//!
//! A scalar is an `i64` counting millionths of a unit. Every operation
//! computes the exact integer result, rounds a quotient towards zero, and
//! then saturates at `±LIMIT`, so no operation here can overflow or panic.

use vstd::arithmetic::div_mod::{lemma_fundamental_div_mod, lemma_mod_pos_bound};
use vstd::arithmetic::mul::{lemma_mul_is_commutative, lemma_mul_unary_negation};
use vstd::prelude::*;

verus! {

/// Raw steps in one whole unit.
pub const UNIT: i64 = 1_000_000;

/// Largest magnitude that an edge of an obstacle may have.
pub const COORD_MAX: i64 = 1_000_000_000_000_000;

/// Magnitude at which every scalar saturates: twice `COORD_MAX`, so that a
/// box resting against any side of an obstacle is still in range.
pub const LIMIT: i64 = 2_000_000_000_000_000;

/// `v` lies in the range that scalars saturate to.
pub open spec fn in_range(v: int) -> bool {
    -LIMIT <= v <= LIMIT
}

/// `v`, or the end of the range nearest to it.
pub open spec fn saturate(v: int) -> int {
    if v < -LIMIT {
        -LIMIT as int
    } else if v > LIMIT {
        LIMIT as int
    } else {
        v
    }
}

/// The quotient of `a` by `b`, rounded towards zero.
pub open spec fn trunc_div(a: int, b: int) -> int {
    if a >= 0 {
        a / b
    } else {
        -((-a) / b)
    }
}

/// Sum of two scalars.
pub open spec fn sat_add(a: int, b: int) -> int {
    saturate(a + b)
}

/// Difference of two scalars.
pub open spec fn sat_sub(a: int, b: int) -> int {
    saturate(a - b)
}

/// Product of two scalars.
pub open spec fn sat_mul(a: int, b: int) -> int {
    saturate(trunc_div(a * b, UNIT as int))
}

/// Quotient of two scalars; meaningful for `b != 0`.
pub open spec fn sat_div(a: int, b: int) -> int {
    saturate(trunc_div(a * UNIT, b))
}

/// Magnitude of a scalar.
pub open spec fn sat_abs(a: int) -> int {
    saturate(if a < 0 { -a } else { a })
}

/// The mean of two scalars, rounded towards zero.
pub open spec fn midpoint(a: int, b: int) -> int {
    trunc_div(a + b, 2)
}

/// A quotient rounded towards zero is no larger in magnitude than the
/// dividend.
pub proof fn lemma_trunc_div_bound(a: int, b: int)
    requires
        b != 0,
    ensures
        a >= 0 ==> -a <= trunc_div(a, b) <= a,
        a < 0 ==> a <= trunc_div(a, b) <= -a,
{
    let m = if a >= 0 { a } else { -a };
    assert(-m <= m / b <= m) by (nonlinear_arith)
        requires
            m >= 0,
            b != 0,
    ;
}

/// Brings an exact intermediate result back into range.
pub fn clamp(v: i128) -> (r: i64)
    ensures
        r == saturate(v as int),
        in_range(r as int),
{
    if v < -(LIMIT as i128) {
        -LIMIT
    } else if v > LIMIT as i128 {
        LIMIT
    } else {
        v as i64
    }
}

/// `a + b`, saturating.
pub fn fx_add(a: i64, b: i64) -> (r: i64)
    ensures
        r == sat_add(a as int, b as int),
        in_range(r as int),
{
    clamp(a as i128 + b as i128)
}

/// `a - b`, saturating.
pub fn fx_sub(a: i64, b: i64) -> (r: i64)
    ensures
        r == sat_sub(a as int, b as int),
        in_range(r as int),
{
    clamp(a as i128 - b as i128)
}

/// `a * b` in units, rounded towards zero and saturating.
pub fn fx_mul(a: i64, b: i64) -> (r: i64)
    ensures
        r == sat_mul(a as int, b as int),
        in_range(r as int),
{
    assert(-0x4000_0000_0000_0000_0000_0000_0000_0000 <= a * b
        <= 0x4000_0000_0000_0000_0000_0000_0000_0000) by (nonlinear_arith)
        requires
            -0x8000_0000_0000_0000 <= a <= 0x8000_0000_0000_0000,
            -0x8000_0000_0000_0000 <= b <= 0x8000_0000_0000_0000,
    ;
    let p: i128 = a as i128 * b as i128;
    clamp(p / (UNIT as i128))
}

/// `a / b` in units, rounded towards zero and saturating.
pub fn fx_div(a: i64, b: i64) -> (r: i64)
    requires
        b != 0,
    ensures
        r == sat_div(a as int, b as int),
        in_range(r as int),
{
    let n: i128 = a as i128 * (UNIT as i128);
    proof {
        lemma_trunc_div_bound(n as int, b as int);
        assert(n == a * 1_000_000);
    }
    clamp(n / (b as i128))
}

/// `|a|`, saturating.
pub fn fx_abs(a: i64) -> (r: i64)
    ensures
        r == sat_abs(a as int),
        in_range(r as int),
{
    if a < 0 {
        clamp(-(a as i128))
    } else {
        clamp(a as i128)
    }
}

/// The mean of `a` and `b`, rounded towards zero.
pub fn fx_midpoint(a: i64, b: i64) -> (r: i64)
    ensures
        r == midpoint(a as int, b as int),
{
    let s: i128 = a as i128 + b as i128;
    (s / 2) as i64
}

/// A quotient by a positive divisor, rounded towards zero, misses the
/// exact quotient by less than one: `q * b` lies within `b` of `a`, on the
/// side of zero.
pub proof fn lemma_trunc_div_is_close(a: int, b: int)
    requires
        b > 0,
    ensures
        a >= 0 ==> a - b < trunc_div(a, b) * b <= a,
        a < 0 ==> a <= trunc_div(a, b) * b < a + b,
{
    let n = if a < 0 { -a } else { a };
    let q = n / b;
    lemma_fundamental_div_mod(n, b);
    lemma_mod_pos_bound(n, b);
    lemma_mul_is_commutative(b, q);
    lemma_mul_unary_negation(q, b);
}

/// As long as a product stays in range, it is the exact product rounded
/// towards zero to a whole number of raw steps: it is off by less than one
/// step.
pub proof fn lemma_mul_is_close(a: int, b: int)
    requires
        in_range(trunc_div(a * b, UNIT as int)),
    ensures
        a * b >= 0 ==> a * b - UNIT < sat_mul(a, b) * UNIT <= a * b,
        a * b < 0 ==> a * b <= sat_mul(a, b) * UNIT < a * b + UNIT,
{
    lemma_trunc_div_is_close(a * b, UNIT as int);
}

/// As long as a quotient by a positive divisor stays in range, it is the
/// exact quotient rounded towards zero to a whole number of raw steps.
pub proof fn lemma_div_is_close(a: int, b: int)
    requires
        b > 0,
        in_range(trunc_div(a * UNIT, b)),
    ensures
        a >= 0 ==> a * UNIT - b < sat_div(a, b) * b <= a * UNIT,
        a < 0 ==> a * UNIT <= sat_div(a, b) * b < a * UNIT + b,
{
    lemma_trunc_div_is_close(a * UNIT, b);
}

/// Sums and differences are exact as long as they stay in range.
pub proof fn lemma_add_sub_exact(a: int, b: int)
    ensures
        in_range(a + b) ==> sat_add(a, b) == a + b,
        in_range(a - b) ==> sat_sub(a, b) == a - b,
{
}

} // verus!
