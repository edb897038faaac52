//! Fixed-point angle wrapping, sine, cosine and square root.
//!
//! The sine is the classic parabolic approximation `sin x ~= B*x - C*x*|x|`
//! on `[-pi, pi]` (exact at `0`, `+-pi/2` and `+-pi` in the reals), clamped
//! into `[-1, 1]`; the cosine is the sine shifted by a quarter turn. The
//! square root is exact integer square root of the value brought to scale.

use vstd::prelude::*;

use crate::fx::{
    fx_abs, fx_clamp_wide, fx_clip, fx_iabs, fx_mul, fx_mul_raw, fx_sub, FX_MAX, FX_SCALE,
};

verus! {

/// `pi` in fixed-point units.
pub const FX_PI: i64 = 3294199;

/// `2*pi` in fixed-point units.
pub const FX_TWO_PI: i64 = 6588397;

/// `pi/2` in fixed-point units.
pub const FX_HALF_PI: i64 = 1647099;

/// `4/pi` in fixed-point units, the linear sine coefficient.
pub const SIN_B: i64 = 1335088;

/// `4/pi^2` in fixed-point units, the quadratic sine coefficient.
pub const SIN_C: i64 = 424972;

/// The signed remainder of an angle modulo `2*pi`: same sign as the input,
/// magnitude strictly below `2*pi`.
pub open spec fn wrap_spec(t: int) -> int {
    if t >= 0 {
        t % (FX_TWO_PI as int)
    } else {
        -((-t) % (FX_TWO_PI as int))
    }
}

/// Reduces an angle to `(-2*pi, 2*pi)` by the signed remainder modulo `2*pi`.
pub fn wrap_angle(t: i64) -> (r: i64)
    ensures
        r as int == wrap_spec(t as int),
        -FX_TWO_PI < r < FX_TWO_PI,
{
    let m: u128 = if t < 0 {
        (-(t as i128)) as u128
    } else {
        t as u128
    };
    let w: u128 = m % (FX_TWO_PI as u128);
    if t < 0 {
        -(w as i64)
    } else {
        w as i64
    }
}

/// Saturation into `[-1, 1]`, the range of a sine or of an audio sample.
pub open spec fn clip_one(x: int) -> int {
    if x > FX_SCALE {
        FX_SCALE as int
    } else if x < -FX_SCALE {
        -FX_SCALE as int
    } else {
        x
    }
}

/// Clamps a fixed-point value into `[-1, 1]`.
pub fn fx_clamp_one(x: i64) -> (r: i64)
    ensures
        r as int == clip_one(x as int),
{
    if x > FX_SCALE {
        FX_SCALE
    } else if x < -FX_SCALE {
        -FX_SCALE
    } else {
        x
    }
}

/// The wrapped angle folded into `[-pi, pi]`.
pub open spec fn fold_to_pi(w: int) -> int {
    if w > FX_PI {
        w - FX_TWO_PI
    } else if w < -FX_PI {
        w + FX_TWO_PI
    } else {
        w
    }
}

/// The fixed-point sine: parabolic approximation on the folded angle.
pub open spec fn sin_spec(x: int) -> int {
    let r = fold_to_pi(wrap_spec(x));
    let t1 = fx_clip(fx_mul_raw(SIN_B as int, r));
    let t2 = fx_clip(fx_mul_raw(SIN_C as int, r));
    let t3 = fx_clip(fx_mul_raw(t2, fx_clip(fx_iabs(r))));
    clip_one(fx_clip(t1 - t3))
}

/// Fixed-point sine of an angle, in `[-1, 1]`.
pub fn fx_sin(x: i64) -> (r: i64)
    ensures
        r as int == sin_spec(x as int),
        -FX_SCALE <= r <= FX_SCALE,
        x == 0 ==> r == 0,
{
    let w: i64 = wrap_angle(x);
    let f: i64 = if w > FX_PI {
        w - FX_TWO_PI
    } else if w < -FX_PI {
        w + FX_TWO_PI
    } else {
        w
    };
    let t1: i64 = fx_mul(SIN_B, f);
    let t2: i64 = fx_mul(SIN_C, f);
    let t3: i64 = fx_mul(t2, fx_abs(f));
    let s: i64 = fx_sub(t1, t3);
    proof {
        if x == 0 {
            lemma_sin_spec_zero();
        }
    }
    fx_clamp_one(s)
}

/// Sine and cosine stay within `[-1, 1]`.
pub proof fn lemma_trig_bounds()
    ensures
        forall|x: int| -FX_SCALE <= #[trigger] sin_spec(x) <= FX_SCALE,
        forall|x: int| -FX_SCALE <= #[trigger] cos_spec(x) <= FX_SCALE,
{
}

/// The sine of a zero angle is zero.
pub proof fn lemma_sin_spec_zero()
    ensures
        sin_spec(0) == 0,
{
    assert(0int % (FX_TWO_PI as int) == 0);
    assert(wrap_spec(0) == 0);
    assert(fold_to_pi(0) == 0);
    assert(fx_iabs((SIN_B as int) * 0) == 0);
    assert(fx_mul_raw(SIN_B as int, 0) == 0);
    assert(fx_mul_raw(SIN_C as int, 0) == 0);
    assert(fx_mul_raw(0, fx_clip(fx_iabs(0))) == 0);
    assert(clip_one(fx_clip(0 - 0)) == 0);
}

/// The fixed-point cosine: the sine a quarter turn ahead.
pub open spec fn cos_spec(x: int) -> int {
    sin_spec(fx_clip(x + FX_HALF_PI))
}

/// Fixed-point cosine of an angle, in `[-1, 1]`.
pub fn fx_cos(x: i64) -> (r: i64)
    ensures
        r as int == cos_spec(x as int),
        -FX_SCALE <= r <= FX_SCALE,
{
    let y: i64 = fx_clamp_wide(x as i128 + FX_HALF_PI as i128);
    fx_sin(y)
}

/// The integer square root, defined by counting up.
pub open spec fn sqrt_nat(v: nat) -> nat
    decreases v,
{
    if v == 0 {
        0
    } else {
        let r = sqrt_nat((v - 1) as nat);
        if (r + 1) * (r + 1) <= v {
            r + 1
        } else {
            r
        }
    }
}

/// `sqrt_nat` is the integer square root: it is the largest natural number
/// whose square does not exceed the argument.
pub proof fn lemma_sqrt_nat_is_sqrt(v: nat)
    ensures
        sqrt_nat(v) * sqrt_nat(v) <= v,
        v < (sqrt_nat(v) + 1) * (sqrt_nat(v) + 1),
    decreases v,
{
    if v > 0 {
        lemma_sqrt_nat_is_sqrt((v - 1) as nat);
        let r = sqrt_nat((v - 1) as nat);
        assert(r * r <= v - 1);
        assert(v - 1 < (r + 1) * (r + 1));
        if (r + 1) * (r + 1) <= v {
            assert(sqrt_nat(v) == r + 1);
            assert(sqrt_nat(v) * sqrt_nat(v) == (r + 1) * (r + 1));
            assert((sqrt_nat(v) + 1) * (sqrt_nat(v) + 1) == (r + 2) * (r + 2));
            assert(v < (r + 2) * (r + 2)) by (nonlinear_arith)
                requires
                    v <= (r + 1) * (r + 1);
        } else {
            assert(sqrt_nat(v) == r);
            assert(sqrt_nat(v) * sqrt_nat(v) == r * r);
            assert((sqrt_nat(v) + 1) * (sqrt_nat(v) + 1) == (r + 1) * (r + 1));
        }
    } else {
        assert(sqrt_nat(0nat) == 0);
        assert(v < (sqrt_nat(v) + 1) * (sqrt_nat(v) + 1)) by (nonlinear_arith)
            requires
                v == 0,
                sqrt_nat(v) == 0;
    }
}

/// Two integer square roots of the same value are equal.
proof fn lemma_sqrt_unique(v: nat, a: nat, b: nat)
    requires
        a * a <= v < (a + 1) * (a + 1),
        b * b <= v < (b + 1) * (b + 1),
    ensures
        a == b,
{
    assert(a == b) by (nonlinear_arith)
        requires
            a * a <= v < (a + 1) * (a + 1),
            b * b <= v < (b + 1) * (b + 1);
}

/// Integer square root of a `u128`, by binary search.
fn isqrt_u128(v: u128) -> (r: u128)
    ensures
        r as nat == sqrt_nat(v as nat),
        r <= 0xffffffffffffffff,
{
    let mut lo: u128 = 0;
    let mut hi: u128 = 0x10000000000000000;
    proof {
        assert((0x10000000000000000 as int) * (0x10000000000000000 as int) > v as int);
    }
    while lo + 1 < hi
        invariant
            (lo as int) * (lo as int) <= v as int,
            (hi as int) * (hi as int) > v as int,
            lo < hi <= 0x10000000000000000,
        decreases hi - lo,
    {
        let mid: u128 = lo + (hi - lo) / 2;
        if mid > 0xffffffffffffffff {
            proof {
                assert((mid as int) * (mid as int) > v as int) by (nonlinear_arith)
                    requires
                        mid as int > 0xffffffffffffffff,
                        v as int <= 0xffffffffffffffffffffffffffffffff;
            }
            hi = mid;
        } else {
            proof {
                assert((mid as int) * (mid as int) <= 0xffffffffffffffffffffffffffffffff)
                    by (nonlinear_arith)
                    requires
                        0 <= mid as int <= 0xffffffffffffffff;
            }
            let sq: u128 = mid * mid;
            if sq <= v {
                lo = mid;
            } else {
                hi = mid;
            }
        }
    }
    proof {
        lemma_sqrt_nat_is_sqrt(v as nat);
        lemma_sqrt_unique(v as nat, lo as nat, sqrt_nat(v as nat));
    }
    lo
}

/// The fixed-point square root: zero on everything at or below zero, else
/// the integer square root of the value brought to scale.
pub open spec fn sqrt_fx_spec(v: int) -> int {
    if v <= 0 {
        0
    } else {
        sqrt_nat((v * FX_SCALE) as nat) as int
    }
}

/// Fixed-point square root. Negative arguments (which only truncation noise
/// can produce where the reals are nonnegative) are floored to zero.
pub fn fx_sqrt(v: i64) -> (r: i64)
    ensures
        r as int == sqrt_fx_spec(v as int),
        r >= 0,
{
    if v <= 0 {
        0
    } else {
        let u: u128 = (v as u128) * 1048576;
        let r: u128 = isqrt_u128(u);
        proof {
            lemma_sqrt_nat_is_sqrt(u as nat);
            assert(r as int <= 0x7fffffffffffffff) by (nonlinear_arith)
                requires
                    (r as int) * (r as int) <= u as int,
                    u as int <= 0x800000000000000000000,
                    r as int >= 0;
        }
        r as i64
    }
}

} // verus!
