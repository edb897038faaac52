//! The double pendulum: physical state and one integration step.
//!
//! The state is the pair of segment angles and their conjugate (generalized)
//! momenta, in Hamiltonian form. [`Pendulum::update`] advances it by one
//! 4th-order Runge-Kutta step over the elapsed time the caller hands in; the
//! caller keeps that step small. Each derivative component is clamped before
//! it enters the weighted sum, to bound transient blow-ups near singular
//! configurations, and both angles are reduced modulo `2*pi` after the step
//! so their magnitude stays bounded over arbitrarily long notes.

use vstd::prelude::*;

use crate::fx::{
    fx_add, fx_div, fx_mul, fx_neg, fx_nonzero, fx_sub, fxs_add, fxs_div, fxs_mul, fxs_sub,
    nonzero_spec, FX_MAX, FX_SCALE,
};
use crate::trig::{fx_cos, fx_sin, cos_spec, sin_spec, wrap_angle, wrap_spec, FX_TWO_PI};

verus! {

/// Clamp bound for each derivative component: `999999` brought to scale.
pub const DERIV_MAX: i64 = 999999 * 1048576;

/// Spec-level clamp of a derivative component into `[-DERIV_MAX, DERIV_MAX]`.
pub open spec fn clip_deriv(x: int) -> int {
    if x > DERIV_MAX {
        DERIV_MAX as int
    } else if x < -DERIV_MAX {
        -DERIV_MAX as int
    } else {
        x
    }
}

/// Clamps a derivative component into `[-DERIV_MAX, DERIV_MAX]`.
fn fx_clamp_deriv(x: i64) -> (r: i64)
    ensures
        r as int == clip_deriv(x as int),
{
    if x > DERIV_MAX {
        DERIV_MAX
    } else if x < -DERIV_MAX {
        -DERIV_MAX
    } else {
        x
    }
}

/// A double pendulum in fixed-point units: gravity, the two bob masses, the
/// two segment lengths, and the integrable state `(theta0, theta1, p0, p1)`.
#[derive(Clone, Copy, Debug, PartialEq, Eq, Structural)]
pub struct Pendulum {
    /// Gravity constant of the simulation.
    pub g: i64,
    /// Mass of the first bob.
    pub mass0: i64,
    /// Mass of the second bob.
    pub mass1: i64,
    /// Length of the first segment.
    pub length0: i64,
    /// Length of the second segment.
    pub length1: i64,
    /// Angle of the first segment.
    pub theta0: i64,
    /// Angle of the second segment.
    pub theta1: i64,
    /// Generalized momentum conjugate to `theta0`.
    pub p0: i64,
    /// Generalized momentum conjugate to `theta1`.
    pub p1: i64,
}

/// The derivative of the state under the double-pendulum Hamiltonian,
/// written exactly as [`Pendulum::deriv`] computes it: every product and
/// quotient saturates, every divisor is floored away from zero, and each
/// component is clamped into `[-DERIV_MAX, DERIV_MAX]`.
#[verifier::opaque]
pub open spec fn deriv_spec(p: Pendulum, t0: int, t1: int, p0: int, p1: int) -> (int, int, int, int) {
    let g = p.g as int;
    let m0 = p.mass0 as int;
    let m1 = p.mass1 as int;
    let l0 = p.length0 as int;
    let l1 = p.length1 as int;
    let tdiff = fxs_sub(t0, t1);
    let sd = sin_spec(tdiff);
    let cd = cos_spec(tdiff);
    let msum = fxs_add(m0, m1);
    let mden = fxs_add(m0, fxs_mul(m1, fxs_mul(sd, sd)));
    let l0sq = fxs_mul(l0, l0);
    let l1sq = fxs_mul(l1, l1);
    let num0 = fxs_sub(fxs_mul(l1, p0), fxs_mul(fxs_mul(l0, p1), cd));
    let den0 = nonzero_spec(fxs_mul(fxs_mul(l0sq, l1), mden));
    let dt0 = clip_deriv(fxs_div(num0, den0));
    let num1 = fxs_sub(fxs_mul(fxs_mul(l0, msum), p1), fxs_mul(fxs_mul(fxs_mul(l1, m1), p0), cd));
    let den1 = nonzero_spec(fxs_mul(fxs_mul(fxs_mul(l0, l1sq), m1), mden));
    let dt1 = clip_deriv(fxs_div(num1, den1));
    let cnum0 = fxs_mul(fxs_mul(p0, p1), sd);
    let cden0 = nonzero_spec(fxs_mul(fxs_mul(l0, l1), mden));
    let c0 = fxs_div(cnum0, cden0);
    let a1 = fxs_mul(fxs_mul(l1sq, m1), fxs_mul(p0, p0));
    let a2 = fxs_mul(fxs_mul(l0sq, msum), fxs_mul(p1, p1));
    let a3 = fxs_mul(fxs_mul(fxs_mul(l0, l1), m1), fxs_mul(fxs_mul(p0, p1), cd));
    let cnum1 = fxs_sub(fxs_add(a1, a2), a3);
    let cden1 = nonzero_spec(fxs_mul(fxs_mul(fxs_add(l0sq, l0sq), l1sq), fxs_mul(mden, mden)));
    let c1 = fxs_mul(fxs_div(cnum1, cden1), sin_spec(fxs_add(tdiff, tdiff)));
    let b0 = fxs_mul(fxs_mul(fxs_mul(msum, g), l0), sin_spec(t0));
    let dp0 = clip_deriv(fxs_add(fxs_sub(fx_clip_neg(b0), c0), c1));
    let b1 = fxs_mul(fxs_mul(fxs_mul(m1, g), l1), sin_spec(t1));
    let dp1 = clip_deriv(fxs_sub(fxs_add(fx_clip_neg(b1), c0), c1));
    (dt0, dt1, dp0, dp1)
}

/// Spec-level saturating negation.
pub open spec fn fx_clip_neg(a: int) -> int {
    crate::fx::fx_clip(-a)
}

/// One half, in fixed-point units.
pub const FX_HALF: i64 = 524288;

/// Six, in fixed-point units.
pub const FX_SIX: i64 = 6 * 1048576;

/// The Runge-Kutta weighted sum `(k1 + 2*k2 + 2*k3 + k4) / 6` of one
/// component, written exactly as the executable step computes it.
pub open spec fn rk4_mix(k1: int, k2: int, k3: int, k4: int) -> int {
    fxs_div(fxs_add(fxs_add(k1, fxs_add(k2, k2)), fxs_add(fxs_add(k3, k3), k4)), FX_SIX as int)
}

/// One 4th-order Runge-Kutta step of length `elapsed` over the pendulum
/// state, with both angles wrapped afterwards; gravity, masses and lengths
/// are untouched. This is the exact twin of [`Pendulum::update`].
#[verifier::opaque]
pub open spec fn step_spec(p: Pendulum, elapsed: int) -> Pendulum {
    let h2 = fxs_mul(elapsed, FX_HALF as int);
    let k1 = deriv_spec(p, p.theta0 as int, p.theta1 as int, p.p0 as int, p.p1 as int);
    let k2 = deriv_spec(
        p,
        fxs_add(p.theta0 as int, fxs_mul(h2, k1.0)),
        fxs_add(p.theta1 as int, fxs_mul(h2, k1.1)),
        fxs_add(p.p0 as int, fxs_mul(h2, k1.2)),
        fxs_add(p.p1 as int, fxs_mul(h2, k1.3)),
    );
    let k3 = deriv_spec(
        p,
        fxs_add(p.theta0 as int, fxs_mul(h2, k2.0)),
        fxs_add(p.theta1 as int, fxs_mul(h2, k2.1)),
        fxs_add(p.p0 as int, fxs_mul(h2, k2.2)),
        fxs_add(p.p1 as int, fxs_mul(h2, k2.3)),
    );
    let k4 = deriv_spec(
        p,
        fxs_add(p.theta0 as int, fxs_mul(elapsed, k3.0)),
        fxs_add(p.theta1 as int, fxs_mul(elapsed, k3.1)),
        fxs_add(p.p0 as int, fxs_mul(elapsed, k3.2)),
        fxs_add(p.p1 as int, fxs_mul(elapsed, k3.3)),
    );
    Pendulum {
        theta0: wrap_spec(
            fxs_add(p.theta0 as int, fxs_mul(elapsed, rk4_mix(k1.0, k2.0, k3.0, k4.0))),
        ) as i64,
        theta1: wrap_spec(
            fxs_add(p.theta1 as int, fxs_mul(elapsed, rk4_mix(k1.1, k2.1, k3.1, k4.1))),
        ) as i64,
        p0: fxs_add(p.p0 as int, fxs_mul(elapsed, rk4_mix(k1.2, k2.2, k3.2, k4.2))) as i64,
        p1: fxs_add(p.p1 as int, fxs_mul(elapsed, rk4_mix(k1.3, k2.3, k3.3, k4.3))) as i64,
        ..p
    }
}

impl Pendulum {
    /// The default pendulum: at rest, unit masses and lengths, unscaled
    /// gravity `9.81` brought to scale.
    pub open spec fn default_spec() -> Pendulum {
        Pendulum {
            g: 10286531,
            mass0: FX_SCALE,
            mass1: FX_SCALE,
            length0: FX_SCALE,
            length1: FX_SCALE,
            theta0: 0,
            theta1: 0,
            p0: 0,
            p1: 0,
        }
    }

    /// A pendulum at rest with unit masses and lengths, under unscaled
    /// gravity `9.81`, in fixed-point units.
    pub fn default() -> (r: Pendulum)
        ensures
            r == Pendulum::default_spec(),
            r.at_rest(),
            r.params_nonneg(),
    {
        Pendulum {
            g: 10286531,
            mass0: FX_SCALE,
            mass1: FX_SCALE,
            length0: FX_SCALE,
            length1: FX_SCALE,
            theta0: 0,
            theta1: 0,
            p0: 0,
            p1: 0,
        }
    }

    /// Both angles and both momenta are exactly zero.
    pub open spec fn at_rest(self) -> bool {
        self.theta0 == 0 && self.theta1 == 0 && self.p0 == 0 && self.p1 == 0
    }

    /// Gravity, masses and lengths are nonnegative. Constructors establish
    /// this and every step preserves it; it keeps the potential energy
    /// nonnegative.
    pub open spec fn params_nonneg(self) -> bool {
        self.g >= 0 && self.mass0 >= 0 && self.mass1 >= 0 && self.length0 >= 0 && self.length1
            >= 0
    }

    /// Both angles lie strictly inside `(-2*pi, 2*pi)`.
    pub open spec fn angles_wrapped(self) -> bool {
        -FX_TWO_PI < self.theta0 < FX_TWO_PI && -FX_TWO_PI < self.theta1 < FX_TWO_PI
    }

    /// The state derivative at `(t0, t1, p0, p1)`, with this pendulum's
    /// gravity, masses and lengths.
    fn deriv(&self, t0: i64, t1: i64, p0: i64, p1: i64) -> (r: (i64, i64, i64, i64))
        ensures
            (r.0 as int, r.1 as int, r.2 as int, r.3 as int) == deriv_spec(
                *self,
                t0 as int,
                t1 as int,
                p0 as int,
                p1 as int,
            ),
    {
        proof {
            reveal(deriv_spec);
        }
        let tdiff: i64 = fx_sub(t0, t1);
        let sd: i64 = fx_sin(tdiff);
        let cd: i64 = fx_cos(tdiff);
        let msum: i64 = fx_add(self.mass0, self.mass1);
        let mden: i64 = fx_add(self.mass0, fx_mul(self.mass1, fx_mul(sd, sd)));
        let l0: i64 = self.length0;
        let l1: i64 = self.length1;
        let l0sq: i64 = fx_mul(l0, l0);
        let l1sq: i64 = fx_mul(l1, l1);
        let num0: i64 = fx_sub(fx_mul(l1, p0), fx_mul(fx_mul(l0, p1), cd));
        let den0: i64 = fx_nonzero(fx_mul(fx_mul(l0sq, l1), mden));
        let dt0: i64 = fx_clamp_deriv(fx_div(num0, den0));
        let num1: i64 = fx_sub(
            fx_mul(fx_mul(l0, msum), p1),
            fx_mul(fx_mul(fx_mul(l1, self.mass1), p0), cd),
        );
        let den1: i64 = fx_nonzero(fx_mul(fx_mul(fx_mul(l0, l1sq), self.mass1), mden));
        let dt1: i64 = fx_clamp_deriv(fx_div(num1, den1));
        let cnum0: i64 = fx_mul(fx_mul(p0, p1), sd);
        let cden0: i64 = fx_nonzero(fx_mul(fx_mul(l0, l1), mden));
        let c0: i64 = fx_div(cnum0, cden0);
        let a1: i64 = fx_mul(fx_mul(l1sq, self.mass1), fx_mul(p0, p0));
        let a2: i64 = fx_mul(fx_mul(l0sq, msum), fx_mul(p1, p1));
        let a3: i64 = fx_mul(
            fx_mul(fx_mul(l0, l1), self.mass1),
            fx_mul(fx_mul(p0, p1), cd),
        );
        let cnum1: i64 = fx_sub(fx_add(a1, a2), a3);
        let cden1: i64 = fx_nonzero(
            fx_mul(fx_mul(fx_add(l0sq, l0sq), l1sq), fx_mul(mden, mden)),
        );
        let c1: i64 = fx_mul(fx_div(cnum1, cden1), fx_sin(fx_add(tdiff, tdiff)));
        let b0: i64 = fx_mul(fx_mul(fx_mul(msum, self.g), l0), fx_sin(t0));
        let dp0: i64 = fx_clamp_deriv(fx_add(fx_sub(fx_neg(b0), c0), c1));
        let b1: i64 = fx_mul(fx_mul(fx_mul(self.mass1, self.g), l1), fx_sin(t1));
        let dp1: i64 = fx_clamp_deriv(fx_sub(fx_add(fx_neg(b1), c0), c1));
        (dt0, dt1, dp0, dp1)
    }

    /// Advances the state by one 4th-order Runge-Kutta step over `elapsed`,
    /// then wraps both angles into `(-2*pi, 2*pi)`.
    pub fn update(&mut self, elapsed: i64)
        ensures
            *final(self) == step_spec(*old(self), elapsed as int),
            final(self).angles_wrapped(),
            final(self).g == old(self).g,
            final(self).mass0 == old(self).mass0,
            final(self).mass1 == old(self).mass1,
            final(self).length0 == old(self).length0,
            final(self).length1 == old(self).length1,
    {
        proof {
            reveal(step_spec);
        }
        let h2: i64 = fx_mul(elapsed, FX_HALF);
        let k1: (i64, i64, i64, i64) = self.deriv(self.theta0, self.theta1, self.p0, self.p1);
        let k2: (i64, i64, i64, i64) = self.deriv(
            fx_add(self.theta0, fx_mul(h2, k1.0)),
            fx_add(self.theta1, fx_mul(h2, k1.1)),
            fx_add(self.p0, fx_mul(h2, k1.2)),
            fx_add(self.p1, fx_mul(h2, k1.3)),
        );
        let k3: (i64, i64, i64, i64) = self.deriv(
            fx_add(self.theta0, fx_mul(h2, k2.0)),
            fx_add(self.theta1, fx_mul(h2, k2.1)),
            fx_add(self.p0, fx_mul(h2, k2.2)),
            fx_add(self.p1, fx_mul(h2, k2.3)),
        );
        let k4: (i64, i64, i64, i64) = self.deriv(
            fx_add(self.theta0, fx_mul(elapsed, k3.0)),
            fx_add(self.theta1, fx_mul(elapsed, k3.1)),
            fx_add(self.p0, fx_mul(elapsed, k3.2)),
            fx_add(self.p1, fx_mul(elapsed, k3.3)),
        );
        let d0: i64 = fx_div(
            fx_add(fx_add(k1.0, fx_add(k2.0, k2.0)), fx_add(fx_add(k3.0, k3.0), k4.0)),
            FX_SIX,
        );
        let d1: i64 = fx_div(
            fx_add(fx_add(k1.1, fx_add(k2.1, k2.1)), fx_add(fx_add(k3.1, k3.1), k4.1)),
            FX_SIX,
        );
        let d2: i64 = fx_div(
            fx_add(fx_add(k1.2, fx_add(k2.2, k2.2)), fx_add(fx_add(k3.2, k3.2), k4.2)),
            FX_SIX,
        );
        let d3: i64 = fx_div(
            fx_add(fx_add(k1.3, fx_add(k2.3, k2.3)), fx_add(fx_add(k3.3, k3.3), k4.3)),
            FX_SIX,
        );
        self.theta0 = wrap_angle(fx_add(self.theta0, fx_mul(elapsed, d0)));
        self.theta1 = wrap_angle(fx_add(self.theta1, fx_mul(elapsed, d1)));
        self.p0 = fx_add(self.p0, fx_mul(elapsed, d2));
        self.p1 = fx_add(self.p1, fx_mul(elapsed, d3));
    }
}

/// A zero factor annihilates a saturating product, and a zero numerator a
/// saturating quotient.
pub proof fn lemma_fxs_zero()
    ensures
        forall|a: int| #[trigger] fxs_mul(a, 0) == 0,
        forall|a: int| #[trigger] fxs_mul(0, a) == 0,
        forall|d: int| d != 0 ==> #[trigger] fxs_div(0, d) == 0,
{
    assert forall|a: int| #[trigger] fxs_mul(a, 0) == 0 by {
        assert(a * 0 == 0) by (nonlinear_arith);
        assert(crate::fx::fx_iabs(a * 0) == 0);
    }
    assert forall|a: int| #[trigger] fxs_mul(0, a) == 0 by {
        assert(0 * a == 0) by (nonlinear_arith);
        assert(crate::fx::fx_iabs(0 * a) == 0);
    }
    assert forall|d: int| d != 0 implies #[trigger] fxs_div(0, d) == 0 by {
        assert(crate::fx::fx_iabs(0 * FX_SCALE) == 0);
    }
}

/// At rest the state derivative vanishes: with zero angles and momenta every
/// numerator above is a product with a zero factor.
pub proof fn lemma_deriv_spec_rest(p: Pendulum)
    ensures
        deriv_spec(p, 0, 0, 0, 0) == (0int, 0int, 0int, 0int),
{
    reveal(deriv_spec);
    crate::trig::lemma_sin_spec_zero();
    lemma_fxs_zero();
    assert(fxs_sub(0, 0) == 0);
    assert(sin_spec(fxs_sub(0, 0)) == 0);
}

/// A pendulum at rest stays exactly at rest through an integration step:
/// the step is a fixed point of the dynamics.
pub proof fn lemma_step_spec_rest(p: Pendulum, elapsed: int)
    requires
        p.at_rest(),
    ensures
        step_spec(p, elapsed) == p,
{
    reveal(step_spec);
    lemma_deriv_spec_rest(p);
    lemma_fxs_zero();
    assert(0int % (FX_TWO_PI as int) == 0);
    assert(wrap_spec(0) == 0);
    assert(rk4_mix(0, 0, 0, 0) == 0);
}

} // verus!
