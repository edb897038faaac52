//! A fixed-point low-pass biquad filter (direct form 1).
//!
//! The coefficients follow the standard second-order low-pass design at
//! Butterworth quality (`Q = 1/sqrt(2)`), with the cutoff at `10 kHz` or
//! just under half the sample rate, whichever is lower. The filter smooths
//! the pendulum's raw displacement before it is clamped and written out.

use vstd::prelude::*;

use crate::fx::{
    fx_add, fx_div, fx_mul, fx_neg, fx_nonzero, fx_sub, fxs_add, fxs_div, fxs_mul, fxs_sub,
    nonzero_spec, FX_SCALE,
};
use crate::pendulum::fx_clip_neg;
use crate::trig::{cos_spec, fx_cos, fx_sin, sin_spec, FX_TWO_PI};

verus! {

/// The low-pass cutoff ceiling, `10 kHz` in fixed-point units.
pub const CUTOFF_MAX: i64 = 10000 * 1048576;

/// `2.001` in fixed-point units: the cutoff stays just under the Nyquist
/// frequency.
pub const FX_NYQUIST_DIV: i64 = 2098201;

/// `1/sqrt(2)` in fixed-point units: half the reciprocal of the Butterworth
/// quality factor.
pub const FX_INV_SQRT2: i64 = 741455;

/// A direct-form-1 biquad: five normalized coefficients, the sample rate
/// they were designed for, and the last two inputs and outputs.
#[derive(Clone, Copy, Debug, PartialEq, Eq, Structural)]
pub struct LowPass {
    /// The sample rate the coefficients were designed for.
    pub sample_rate: u32,
    /// Feed-forward coefficient of the current input.
    pub b0: i64,
    /// Feed-forward coefficient of the previous input.
    pub b1: i64,
    /// Feed-forward coefficient of the input before that.
    pub b2: i64,
    /// Feedback coefficient of the previous output.
    pub a1: i64,
    /// Feedback coefficient of the output before that.
    pub a2: i64,
    /// Previous input.
    pub x1: i64,
    /// Input before the previous one.
    pub x2: i64,
    /// Previous output.
    pub y1: i64,
    /// Output before the previous one.
    pub y2: i64,
}

/// The filter coefficients for a sample rate, written exactly as
/// [`LowPass::design`] computes them, with history zeroed.
pub open spec fn design_spec(sample_rate: u32) -> LowPass {
    let sr = (sample_rate as int) * (FX_SCALE as int);
    let fc_raw = fxs_div(sr, FX_NYQUIST_DIV as int);
    let fc = if fc_raw < CUTOFF_MAX { fc_raw } else { CUTOFF_MAX as int };
    let w0 = fxs_div(fxs_mul(FX_TWO_PI as int, fc), nonzero_spec(sr));
    let cosw = cos_spec(w0);
    let sinw = sin_spec(w0);
    let alpha = fxs_mul(sinw, FX_INV_SQRT2 as int);
    let b1_raw = fxs_sub(FX_SCALE as int, cosw);
    let b0_raw = fxs_mul(b1_raw, 524288);
    let a0 = nonzero_spec(fxs_add(FX_SCALE as int, alpha));
    LowPass {
        sample_rate,
        b0: fxs_div(b0_raw, a0) as i64,
        b1: fxs_div(b1_raw, a0) as i64,
        b2: fxs_div(b0_raw, a0) as i64,
        a1: fxs_div(fx_clip_neg(fxs_add(cosw, cosw)), a0) as i64,
        a2: fxs_div(fxs_sub(FX_SCALE as int, alpha), a0) as i64,
        x1: 0,
        x2: 0,
        y1: 0,
        y2: 0,
    }
}

/// One filter step: the output
/// `b0*x + b1*x1 + b2*x2 - a1*y1 - a2*y2` and the shifted history, written
/// exactly as [`LowPass::run`] computes them.
pub open spec fn run_spec(f: LowPass, x: int) -> (LowPass, int) {
    let y = fxs_sub(
        fxs_sub(
            fxs_add(
                fxs_add(fxs_mul(f.b0 as int, x), fxs_mul(f.b1 as int, f.x1 as int)),
                fxs_mul(f.b2 as int, f.x2 as int),
            ),
            fxs_mul(f.a1 as int, f.y1 as int),
        ),
        fxs_mul(f.a2 as int, f.y2 as int),
    );
    (
        LowPass { x1: x as i64, x2: f.x1, y1: y as i64, y2: f.y1, ..f },
        y,
    )
}

impl LowPass {
    /// The filter history is all zero.
    pub open spec fn quiescent(self) -> bool {
        self.x1 == 0 && self.x2 == 0 && self.y1 == 0 && self.y2 == 0
    }

    /// Designs the low-pass coefficients for a sample rate, with cutoff
    /// `min(10 kHz, rate/2.001)` and Butterworth quality, and zeroes the
    /// history.
    pub fn design(sample_rate: u32) -> (r: LowPass)
        ensures
            r == design_spec(sample_rate),
            r.quiescent(),
            r.sample_rate == sample_rate,
    {
        let sr: i64 = (sample_rate as i64) * FX_SCALE;
        let fc_raw: i64 = fx_div(sr, FX_NYQUIST_DIV);
        let fc: i64 = if fc_raw < CUTOFF_MAX {
            fc_raw
        } else {
            CUTOFF_MAX
        };
        let w0: i64 = fx_div(fx_mul(FX_TWO_PI, fc), fx_nonzero(sr));
        let cosw: i64 = fx_cos(w0);
        let sinw: i64 = fx_sin(w0);
        let alpha: i64 = fx_mul(sinw, FX_INV_SQRT2);
        let b1_raw: i64 = fx_sub(FX_SCALE, cosw);
        let b0_raw: i64 = fx_mul(b1_raw, 524288);
        let a0: i64 = fx_nonzero(fx_add(FX_SCALE, alpha));
        LowPass {
            sample_rate,
            b0: fx_div(b0_raw, a0),
            b1: fx_div(b1_raw, a0),
            b2: fx_div(b0_raw, a0),
            a1: fx_div(fx_neg(fx_add(cosw, cosw)), a0),
            a2: fx_div(fx_sub(FX_SCALE, alpha), a0),
            x1: 0,
            x2: 0,
            y1: 0,
            y2: 0,
        }
    }

    /// Runs one sample through the filter and shifts the history.
    pub fn run(&mut self, x: i64) -> (y: i64)
        ensures
            (*final(self), y as int) == run_spec(*old(self), x as int),
    {
        let y: i64 = fx_sub(
            fx_sub(
                fx_add(
                    fx_add(fx_mul(self.b0, x), fx_mul(self.b1, self.x1)),
                    fx_mul(self.b2, self.x2),
                ),
                fx_mul(self.a1, self.y1),
            ),
            fx_mul(self.a2, self.y2),
        );
        self.x2 = self.x1;
        self.x1 = x;
        self.y2 = self.y1;
        self.y1 = y;
        y
    }
}

/// A quiescent filter maps a zero sample to a zero sample and stays
/// quiescent: silence in, silence out.
pub proof fn lemma_run_spec_quiescent(f: LowPass)
    requires
        f.quiescent(),
    ensures
        run_spec(f, 0).1 == 0,
        run_spec(f, 0).0 == f,
{
    crate::pendulum::lemma_fxs_zero();
}

} // verus!
