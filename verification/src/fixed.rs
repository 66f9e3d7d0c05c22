//! Fixed-point scalars for the field values of the solver.
//!
//! A cell value is an `i64` holding a multiple of `1 / SCALE`, so `FX_ONE`
//! stands for the real number one. Every arithmetic operation divides out the
//! scale with truncating (round-toward-zero) division and saturates into
//! `[FX_MIN, FX_MAX]`; the range is symmetric so that negation is always
//! exact. The `*_s` spec functions give the exact value of each operation
//! and are what the contracts of the solver passes are written over.

use vstd::prelude::*;

verus! {

/// Number of fixed-point steps per unit value.
pub const SCALE: i64 = 1_000_000;

/// The value one.
pub const FX_ONE: i64 = 1_000_000;

/// The value one half.
pub const FX_HALF: i64 = 500_000;

/// The value minus one half.
pub const FX_NEG_HALF: i64 = -500_000;

/// The value four.
pub const FX_FOUR: i64 = 4_000_000;

/// The value six, the diagonal coefficient of the discrete Poisson stencil.
pub const FX_SIX: i64 = 6_000_000;

/// The grid-scale constant by which diffusion coefficients are multiplied,
/// the value ten thousand.
pub const FX_DIFF_SCALE: i64 = 10_000_000_000;

/// The constant by which `dt` is multiplied for the backward advection trace,
/// the value one hundred.
pub const FX_ADVECT_SCALE: i64 = 100_000_000;

/// Largest representable value.
pub const FX_MAX: i64 = 9_223_372_036_854_775_807;

/// Smallest representable value; `-FX_MAX`, so the range is symmetric.
pub const FX_MIN: i64 = -9_223_372_036_854_775_807;

/// Truncating (round-toward-zero) division, meaningful for `d > 0`.
pub open spec fn tdiv(n: int, d: int) -> int {
    if n >= 0 {
        n / d
    } else {
        -((-n) / d)
    }
}

/// Saturate an unbounded integer into the representable range.
pub open spec fn fx_clip(n: int) -> i64 {
    if n > FX_MAX {
        FX_MAX
    } else if n < FX_MIN {
        FX_MIN
    } else {
        n as i64
    }
}

/// A value the fixed-point operations can produce: everything but `i64::MIN`.
pub open spec fn fx_ok(v: i64) -> bool {
    FX_MIN <= v
}

/// Saturating addition.
pub open spec fn fx_add_s(a: i64, b: i64) -> i64 {
    fx_clip(a + b)
}

/// Saturating subtraction.
pub open spec fn fx_sub_s(a: i64, b: i64) -> i64 {
    fx_clip(a - b)
}

/// Saturating negation; exact on every value the operations produce.
pub open spec fn fx_neg_s(a: i64) -> i64 {
    fx_clip(-a)
}

/// Saturating fixed-point multiplication: `a * b / SCALE`, truncated.
pub open spec fn fx_mul_s(a: i64, b: i64) -> i64 {
    fx_clip(tdiv(a * b, SCALE as int))
}

/// Saturating fixed-point division by a positive divisor:
/// `a * SCALE / b`, truncated.
pub open spec fn fx_div_s(a: i64, b: i64) -> i64 {
    fx_clip(tdiv(a * SCALE, b as int))
}

/// The average of two values, written the way the corner stencil computes
/// it: the saturated sum, halved.
pub open spec fn fx_avg_s(a: i64, b: i64) -> i64 {
    fx_mul_s(fx_add_s(a, b), FX_HALF)
}

/// Every cell of a field buffer holds a representable value.
pub open spec fn fx_seq_ok(v: Seq<i64>) -> bool {
    forall|i: int| 0 <= i < v.len() ==> fx_ok(#[trigger] v[i])
}

/// The fixed-point value of the whole number `n` (a cell coordinate).
pub open spec fn fx_of_cell(n: int) -> i64 {
    fx_clip(n * SCALE)
}

/// `x` clamped into `[lo, hi]`.
pub open spec fn fx_clamp_s(x: i64, lo: i64, hi: i64) -> i64 {
    if x < lo {
        lo
    } else if x > hi {
        hi
    } else {
        x
    }
}

/// Exact identities of the fixed-point operations on representable values:
/// multiplying or dividing by one and adding zero change nothing, and
/// multiplying by zero gives zero.
pub proof fn lemma_fx_identities(r: i64)
    requires
        fx_ok(r),
    ensures
        fx_div_s(r, FX_ONE) == r,
        fx_mul_s(r, FX_ONE) == r,
        fx_mul_s(FX_ONE, r) == r,
        fx_add_s(r, 0) == r,
        fx_add_s(0, r) == r,
        fx_mul_s(r, 0) == 0,
        fx_mul_s(0, r) == 0,
{
    vstd::arithmetic::div_mod::lemma_div_multiples_vanish(r as int, SCALE as int);
    vstd::arithmetic::div_mod::lemma_div_multiples_vanish(-(r as int), SCALE as int);
    assert(tdiv(r * SCALE, SCALE as int) == r);
    assert(r * 0 == 0);
}

/// The product of two non-negative values is non-negative.
pub proof fn lemma_fx_mul_nonneg(a: i64, b: i64)
    requires
        a >= 0,
        b >= 0,
    ensures
        fx_mul_s(a, b) >= 0,
{
    vstd::arithmetic::mul::lemma_mul_nonnegative(a as int, b as int);
    vstd::arithmetic::div_mod::lemma_div_pos_is_pos(a * b, SCALE as int);
}

fn clip128(n: i128) -> (r: i64)
    ensures
        r == fx_clip(n as int),
{
    if n > FX_MAX as i128 {
        FX_MAX
    } else if n < FX_MIN as i128 {
        FX_MIN
    } else {
        n as i64
    }
}

fn tdiv128(n: i128, d: i128) -> (r: i128)
    requires
        d > 0,
    ensures
        r == tdiv(n as int, d as int),
{
    match n.checked_div(d) {
        Some(q) => q,
        None => {
            proof {
                assert(false);
            }
            0
        },
    }
}

/// Saturating addition.
pub fn fx_add(a: i64, b: i64) -> (r: i64)
    ensures
        r == fx_add_s(a, b),
{
    clip128(a as i128 + b as i128)
}

/// Saturating subtraction.
pub fn fx_sub(a: i64, b: i64) -> (r: i64)
    ensures
        r == fx_sub_s(a, b),
{
    clip128(a as i128 - b as i128)
}

/// Saturating negation.
pub fn fx_neg(a: i64) -> (r: i64)
    ensures
        r == fx_neg_s(a),
{
    clip128(-(a as i128))
}

/// Saturating fixed-point multiplication.
pub fn fx_mul(a: i64, b: i64) -> (r: i64)
    ensures
        r == fx_mul_s(a, b),
{
    proof {
        assert(i128::MIN <= (a as int) * (b as int) <= i128::MAX) by (nonlinear_arith)
            requires
                i64::MIN <= a <= i64::MAX,
                i64::MIN <= b <= i64::MAX,
        ;
    }
    let p: i128 = (a as i128) * (b as i128);
    clip128(tdiv128(p, SCALE as i128))
}

/// Saturating fixed-point division by a positive divisor.
pub fn fx_div(a: i64, b: i64) -> (r: i64)
    requires
        b > 0,
    ensures
        r == fx_div_s(a, b),
{
    proof {
        assert(i128::MIN <= (a as int) * (SCALE as int) <= i128::MAX) by (nonlinear_arith)
            requires
                i64::MIN <= a <= i64::MAX,
        ;
    }
    let p: i128 = (a as i128) * (SCALE as i128);
    clip128(tdiv128(p, b as i128))
}

/// The average of two values.
pub fn fx_avg(a: i64, b: i64) -> (r: i64)
    ensures
        r == fx_avg_s(a, b),
{
    fx_mul(fx_add(a, b), FX_HALF)
}

/// The fixed-point value of a non-negative whole number.
pub fn fx_from_cell(n: i64) -> (r: i64)
    requires
        n >= 0,
    ensures
        r == fx_of_cell(n as int),
{
    proof {
        assert((n as int) * (SCALE as int) <= i128::MAX) by (nonlinear_arith)
            requires
                0 <= n <= i64::MAX,
        ;
    }
    clip128((n as i128) * (SCALE as i128))
}

/// `x` clamped into `[lo, hi]`.
pub fn fx_clamp(x: i64, lo: i64, hi: i64) -> (r: i64)
    ensures
        r == fx_clamp_s(x, lo, hi),
{
    if x < lo {
        lo
    } else if x > hi {
        hi
    } else {
        x
    }
}

/// The whole number of cells in a non-negative value: the floor of
/// `x / SCALE`.
pub fn fx_floor(x: i64) -> (r: i64)
    requires
        x >= 0,
    ensures
        r == tdiv(x as int, SCALE as int),
        0 <= r <= x,
        r <= FX_MAX as int / SCALE as int,
{
    proof {
        vstd::arithmetic::div_mod::lemma_div_pos_is_pos(x as int, SCALE as int);
        vstd::arithmetic::div_mod::lemma_div_nonincreasing(x as int, SCALE as int);
        vstd::arithmetic::div_mod::lemma_div_is_ordered(x as int, FX_MAX as int, SCALE as int);
    }
    let q = tdiv128(x as i128, SCALE as i128);
    q as i64
}

} // verus!
