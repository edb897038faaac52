use pistolhot::filter::LowPass;
use pistolhot::fx::{fx_add, fx_div, fx_lerp, fx_mul, fx_nonzero, fx_sub, FX_MAX, FX_SCALE};
use pistolhot::trig::{fx_cos, fx_sin, fx_sqrt, wrap_angle, FX_HALF_PI, FX_PI, FX_TWO_PI};

#[test]
fn fixed_point_arithmetic_basics() {
    assert_eq!(fx_mul(3 * FX_SCALE, 2 * FX_SCALE), 6 * FX_SCALE);
    assert_eq!(fx_mul(-3 * FX_SCALE, 2 * FX_SCALE), -6 * FX_SCALE);
    assert_eq!(fx_div(6 * FX_SCALE, 2 * FX_SCALE), 3 * FX_SCALE);
    assert_eq!(fx_div(-6 * FX_SCALE, 2 * FX_SCALE), -3 * FX_SCALE);
    assert_eq!(fx_add(FX_MAX, FX_MAX), FX_MAX);
    assert_eq!(fx_sub(-FX_MAX, FX_MAX), -FX_MAX);
    assert_eq!(fx_mul(FX_MAX, FX_MAX), FX_MAX);
    assert_eq!(fx_nonzero(0), 1);
    assert_eq!(fx_nonzero(-7), -7);
    // truncation is toward zero on both signs
    assert_eq!(fx_div(1, 3), FX_SCALE / 3);
    assert_eq!(fx_div(-1, 3), -(FX_SCALE / 3));
}

#[test]
fn lerp_moves_toward_target() {
    assert_eq!(fx_lerp(0, 1000, FX_SCALE), 1000);
    assert_eq!(fx_lerp(0, 1000, 0), 0);
    assert_eq!(fx_lerp(0, 1000, FX_SCALE / 2), 500);
    assert_eq!(fx_lerp(400, 400, 12345), 400);
}

#[test]
fn angle_wrapping_is_signed_remainder() {
    assert_eq!(wrap_angle(FX_TWO_PI + 5), 5);
    assert_eq!(wrap_angle(-FX_TWO_PI - 5), -5);
    assert_eq!(wrap_angle(3 * FX_TWO_PI), 0);
    assert_eq!(wrap_angle(100), 100);
    assert!(wrap_angle(i64::MAX) < FX_TWO_PI);
    assert!(wrap_angle(i64::MIN + 1) > -FX_TWO_PI);
}

#[test]
fn sine_matches_known_points() {
    assert_eq!(fx_sin(0), 0);
    // one unit short of 1.0 at the quarter turn, from the coefficient rounding
    assert_eq!(fx_sin(FX_HALF_PI), 1048575);
    assert_eq!(fx_sin(-FX_HALF_PI), -1048575);
    assert_eq!(fx_sin(FX_PI), -3);
    assert_eq!(fx_cos(0), 1048575);
    for k in 0..100 {
        let x = k * 131072 - 6553600;
        let s = fx_sin(x);
        assert!(-FX_SCALE <= s && s <= FX_SCALE);
    }
}

#[test]
fn square_root_is_exact_integer_root() {
    assert_eq!(fx_sqrt(0), 0);
    assert_eq!(fx_sqrt(-5), 0);
    assert_eq!(fx_sqrt(4 * FX_SCALE), 2 * FX_SCALE);
    assert_eq!(fx_sqrt(FX_SCALE), FX_SCALE);
    let r = fx_sqrt(2 * FX_SCALE);
    // sqrt(2) to fixed-point precision
    assert!((r - 1482910).abs() <= 1);
}

#[test]
fn lowpass_design_and_run() {
    let mut lp = LowPass::design(44100);
    assert_eq!(
        (lp.b0, lp.b1, lp.b2, lp.a1, lp.a2),
        (253577, 507154, 253577, -218589, 184322)
    );
    // silence in, silence out
    assert_eq!(lp.run(0), 0);
    assert_eq!(lp.run(0), 0);
    // a unit step starts rising through the filter
    assert_eq!(lp.run(FX_SCALE), 253577);
    let y2 = lp.run(FX_SCALE);
    assert!(y2 > 253577);
}
