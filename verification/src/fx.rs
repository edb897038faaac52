//! Saturating fixed-point arithmetic.
//!
//! A value of `i64` stands for the real number `v / FX_SCALE`. Every
//! operation computes through `i128`, truncates toward zero where it divides,
//! and saturates into `[-FX_MAX, FX_MAX]`, so no operation here has a
//! precondition and no operation can overflow. Each executable operation is
//! pinned to a spec-level twin (`fx_clip`, `fx_tdiv`) that states its result
//! exactly.

use vstd::prelude::*;

verus! {

/// Number of fixed-point units in 1.0.
pub const FX_SCALE: i64 = 1048576;

/// Saturation bound of every fixed-point value: 2^62.
pub const FX_MAX: i64 = 4611686018427387904;

/// Absolute value over the mathematical integers.
pub open spec fn fx_iabs(x: int) -> int {
    if x < 0 {
        -x
    } else {
        x
    }
}

/// Saturation into `[-FX_MAX, FX_MAX]`.
pub open spec fn fx_clip(x: int) -> int {
    if x > FX_MAX {
        FX_MAX as int
    } else if x < -FX_MAX {
        -FX_MAX as int
    } else {
        x
    }
}

/// Division of `n` by `d`, truncating toward zero.
pub open spec fn fx_tdiv(n: int, d: int) -> int
    recommends
        d != 0,
{
    let q = fx_iabs(n) / fx_iabs(d);
    if (n < 0) != (d < 0) {
        -q
    } else {
        q
    }
}

/// The result of multiplying two fixed-point values, before saturation.
pub open spec fn fx_mul_raw(a: int, b: int) -> int {
    fx_tdiv(a * b, FX_SCALE as int)
}

/// The result of dividing two fixed-point values, before saturation.
pub open spec fn fx_div_raw(a: int, b: int) -> int
    recommends
        b != 0,
{
    fx_tdiv(a * FX_SCALE, b)
}

/// Saturates an `i128` intermediate back into the fixed-point range.
pub fn fx_clamp_wide(x: i128) -> (r: i64)
    ensures
        r as int == fx_clip(x as int),
{
    if x > FX_MAX as i128 {
        FX_MAX
    } else if x < -FX_MAX as i128 {
        -FX_MAX
    } else {
        x as i64
    }
}

/// Saturating fixed-point addition.
pub fn fx_add(a: i64, b: i64) -> (r: i64)
    ensures
        r as int == fx_clip(a + b),
{
    fx_clamp_wide(a as i128 + b as i128)
}

/// Saturating fixed-point subtraction.
pub fn fx_sub(a: i64, b: i64) -> (r: i64)
    ensures
        r as int == fx_clip(a - b),
{
    fx_clamp_wide(a as i128 - b as i128)
}

/// Saturating fixed-point negation.
pub fn fx_neg(a: i64) -> (r: i64)
    ensures
        r as int == fx_clip(-a),
{
    fx_clamp_wide(-(a as i128))
}

/// Truncating unsigned division of magnitudes, with the sign put back on.
fn fx_signed_div_wide(n: i128, d: i128) -> (r: i128)
    requires
        d != 0,
        n != i128::MIN,
        d != i128::MIN,
    ensures
        r as int == fx_tdiv(n as int, d as int),
        fx_iabs(r as int) <= fx_iabs(n as int),
{
    let nm: u128 = if n < 0 {
        (-n) as u128
    } else {
        n as u128
    };
    let dm: u128 = if d < 0 {
        (-d) as u128
    } else {
        d as u128
    };
    let q: u128 = nm / dm;
    proof {
        assert(nm as int == fx_iabs(n as int));
        assert(dm as int == fx_iabs(d as int));
        assert(q as int == fx_iabs(n as int) / fx_iabs(d as int));
        assert(q <= nm) by {
            vstd::arithmetic::div_mod::lemma_div_is_ordered_by_denominator(
                nm as int,
                1,
                dm as int,
            );
        }
    }
    if (n < 0) != (d < 0) {
        -(q as i128)
    } else {
        q as i128
    }
}

/// Saturating fixed-point multiplication.
pub fn fx_mul(a: i64, b: i64) -> (r: i64)
    ensures
        r as int == fx_clip(fx_mul_raw(a as int, b as int)),
{
    proof {
        assert((-0x40000000000000000000000000000000) <= (a as int) * (b as int)
            && (a as int) * (b as int) <= 0x40000000000000000000000000000000) by (nonlinear_arith)
            requires
                -0x8000000000000000 <= a as int <= 0x7fffffffffffffff,
                -0x8000000000000000 <= b as int <= 0x7fffffffffffffff;
    }
    let p: i128 = (a as i128) * (b as i128);
    let q: i128 = fx_signed_div_wide(p, FX_SCALE as i128);
    fx_clamp_wide(q)
}

/// Saturating fixed-point division. The caller keeps the divisor away from
/// zero; the library's epsilon floors do exactly that.
pub fn fx_div(a: i64, b: i64) -> (r: i64)
    requires
        b != 0,
    ensures
        r as int == fx_clip(fx_div_raw(a as int, b as int)),
{
    proof {
        assert((-0x40000000000000000000000000000000) <= (a as int) * 1048576
            && (a as int) * 1048576 <= 0x40000000000000000000000000000000) by (nonlinear_arith)
            requires
                -0x8000000000000000 <= a as int <= 0x7fffffffffffffff;
    }
    let n: i128 = (a as i128) * (FX_SCALE as i128);
    let q: i128 = fx_signed_div_wide(n, b as i128);
    fx_clamp_wide(q)
}

/// The spec-level linear interpolation from `a` toward `b` by `t`.
pub open spec fn fx_lerp_spec(a: int, b: int, t: int) -> int {
    fx_clip(a + fx_clip(fx_mul_raw(fx_clip(b - a), t)))
}

/// Linear interpolation from `a` toward `b` by the fraction `t`.
pub fn fx_lerp(a: i64, b: i64, t: i64) -> (r: i64)
    ensures
        r as int == fx_lerp_spec(a as int, b as int, t as int),
{
    let d: i64 = fx_sub(b, a);
    let s: i64 = fx_mul(d, t);
    fx_add(a, s)
}

/// With the full response the blend is exact: interpolating by one reaches
/// the target.
pub proof fn lemma_fx_lerp_full(a: int, b: int)
    requires
        fx_iabs(b - a) <= FX_MAX,
        fx_iabs(b) <= FX_MAX,
    ensures
        fx_lerp_spec(a, b, FX_SCALE as int) == b,
{
    let d = b - a;
    assert(fx_iabs(d * FX_SCALE) == fx_iabs(d) * FX_SCALE) by (nonlinear_arith)
        requires
            FX_SCALE == 1048576;
    vstd::arithmetic::div_mod::lemma_div_multiples_vanish(fx_iabs(d), FX_SCALE as int);
    assert(fx_iabs(d) * FX_SCALE == FX_SCALE * fx_iabs(d)) by (nonlinear_arith);
}

/// With a zero response the blend stands still, and a blend toward the
/// current value changes nothing.
pub proof fn lemma_fx_lerp_still(a: int, b: int, t: int)
    requires
        fx_iabs(a) <= FX_MAX,
        fx_iabs(b - a) <= FX_MAX,
    ensures
        fx_lerp_spec(a, b, 0) == a,
        fx_lerp_spec(a, a, t) == a,
{
    assert((b - a) * 0 == 0) by (nonlinear_arith);
    assert(fx_iabs((b - a) * 0) == 0);
    assert(fx_iabs(0 * t) == 0) by {
        assert(0 * t == 0) by (nonlinear_arith);
    }
}

/// Executable absolute value, saturated like everything else.
pub fn fx_abs(a: i64) -> (r: i64)
    ensures
        r as int == fx_clip(fx_iabs(a as int)),
{
    if a < 0 {
        fx_neg(a)
    } else {
        fx_clamp_wide(a as i128)
    }
}

/// Spec-level saturating multiplication, the twin of [`fx_mul`].
pub open spec fn fxs_mul(a: int, b: int) -> int {
    fx_clip(fx_mul_raw(a, b))
}

/// Spec-level saturating division, the twin of [`fx_div`].
pub open spec fn fxs_div(a: int, b: int) -> int
    recommends
        b != 0,
{
    fx_clip(fx_div_raw(a, b))
}

/// Spec-level saturating addition, the twin of [`fx_add`].
pub open spec fn fxs_add(a: int, b: int) -> int {
    fx_clip(a + b)
}

/// Spec-level saturating subtraction, the twin of [`fx_sub`].
pub open spec fn fxs_sub(a: int, b: int) -> int {
    fx_clip(a - b)
}

/// A divisor floored away from zero: zero becomes the smallest positive
/// value, everything else is left alone.
pub open spec fn nonzero_spec(d: int) -> int {
    if d == 0 {
        1
    } else {
        d
    }
}

/// Epsilon floor for divisors: flooring a zero divisor to one unit makes
/// the quotient saturate instead of trapping, which is how this engine
/// absorbs numerically degenerate configurations.
pub fn fx_nonzero(d: i64) -> (r: i64)
    ensures
        r as int == nonzero_spec(d as int),
        r != 0,
{
    if d == 0 {
        1
    } else {
        d
    }
}

/// A saturating quotient of a nonnegative value by a positive one is
/// nonnegative, and bounded by `FX_MAX`.
pub proof fn lemma_fxs_div_nonneg(a: int, b: int)
    requires
        a >= 0,
        b >= 1,
    ensures
        0 <= fxs_div(a, b) <= FX_MAX,
{
    assert(a * FX_SCALE >= 0) by (nonlinear_arith)
        requires
            a >= 0;
    assert(fx_iabs(a * FX_SCALE) == a * FX_SCALE);
    assert(a * FX_SCALE / b >= 0) by (nonlinear_arith)
        requires
            a * FX_SCALE >= 0,
            b >= 1;
}

/// One divided by anything at least one stays within `[0, 1]`.
pub proof fn lemma_fxs_div_le_one(d: int)
    requires
        d >= FX_SCALE,
    ensures
        0 <= fxs_div(FX_SCALE as int, d) <= FX_SCALE,
{
    lemma_fxs_div_nonneg(FX_SCALE as int, d);
    assert(fx_iabs((FX_SCALE as int) * FX_SCALE) == (FX_SCALE as int) * FX_SCALE);
    vstd::arithmetic::div_mod::lemma_div_is_ordered_by_denominator(
        (FX_SCALE as int) * FX_SCALE,
        FX_SCALE as int,
        d,
    );
    assert((FX_SCALE as int) * FX_SCALE / (FX_SCALE as int) == FX_SCALE as int);
}

/// A saturating square is nonnegative.
pub proof fn lemma_fxs_square_nonneg(a: int)
    ensures
        0 <= fxs_mul(a, a) <= FX_MAX,
{
    assert(a * a >= 0) by (nonlinear_arith);
    assert(fx_iabs(a * a) == a * a);
}

/// A saturating product of nonnegative factors is nonnegative, and bounded
/// by `FX_MAX`.
pub proof fn lemma_fxs_mul_nonneg(a: int, b: int)
    requires
        a >= 0,
        b >= 0,
    ensures
        0 <= fxs_mul(a, b) <= FX_MAX,
{
    assert(a * b >= 0) by (nonlinear_arith)
        requires
            a >= 0,
            b >= 0;
    assert(fx_iabs(a * b) == a * b);
}

} // verus!
