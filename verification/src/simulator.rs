//! The simulator: fixed-step time accounting and energy injection.
//!
//! A simulator wraps a pendulum with a fixed physics step size and a
//! fractional time-debt accumulator, so the physics step rate is decoupled
//! from whatever buffer and sample rate the host uses. Each
//! [`Simulator::update`] adds the elapsed time to the debt and, while the
//! debt is positive, nudges the pendulum toward the target energy
//! ([`Simulator::adjust_energy`]) and integrates one fixed step.

use vstd::prelude::*;

use crate::fx::{
    fx_add, fx_div, fx_lerp, fx_lerp_spec, fx_mul, fx_neg, fx_nonzero, fx_sub, fxs_add, fxs_div,
    fxs_mul, fxs_sub, fx_clip, lemma_fxs_mul_nonneg, nonzero_spec, FX_MAX, FX_SCALE,
};
use crate::pendulum::{step_spec, Pendulum};
use crate::trig::{cos_spec, fx_cos, fx_sin, fx_sqrt, lemma_trig_bounds, sin_spec, sqrt_fx_spec};

verus! {

/// The fixed physics step size, `1/44100` s in fixed-point units: the
/// simulation always advances in steps of this length, whatever the output
/// sample rate is.
pub const STEP_SIZE: i64 = 23;

/// `sqrt(2)` in fixed-point units.
pub const FX_SQRT2: i64 = 1482910;

/// Targets below this are treated as silence: one fixed-point unit, the
/// epsilon of the representation.
pub const FX_EPS: i64 = 1;

/// A pendulum together with fixed-step time accounting.
#[derive(Clone, Copy, Debug, PartialEq, Eq, Structural)]
pub struct Simulator {
    /// The pendulum being driven.
    pub pendulum: Pendulum,
    /// Length of one physics step, in fixed-point seconds.
    pub step_size: i64,
    /// Accumulated fractional time debt, in fixed-point seconds.
    pub time_error: i64,
}

/// The pendulum's potential energy,
/// `g * (mass_sum*l0*(1 - cos theta0) + m1*l1*(1 - cos theta1))`,
/// written exactly as the executable code computes it.
#[verifier::opaque]
pub open spec fn potential_spec(p: Pendulum) -> int {
    let msum = fxs_add(p.mass0 as int, p.mass1 as int);
    let omc0 = fxs_sub(FX_SCALE as int, cos_spec(p.theta0 as int));
    let omc1 = fxs_sub(FX_SCALE as int, cos_spec(p.theta1 as int));
    fxs_mul(
        p.g as int,
        fxs_add(
            fxs_mul(fxs_mul(msum, p.length0 as int), omc0),
            fxs_mul(fxs_mul(p.mass1 as int, p.length1 as int), omc1),
        ),
    )
}

/// The pendulum's kinetic energy in the Hamiltonian form,
/// `(m1*l1^2*p0^2 + (m0+m1)*l0^2*p1^2 - 2*m1*l0*l1*p0*p1*cos(td))
///  / (2*m1*l0^2*l1^2*(m0 + m1*sin(td)^2))`,
/// written exactly as [`Simulator::kinetic_energy`] computes it.
pub open spec fn kinetic_spec(p: Pendulum) -> int {
    let msum = fxs_add(p.mass0 as int, p.mass1 as int);
    let thetadiff = fxs_sub(p.theta0 as int, p.theta1 as int);
    let cd = cos_spec(thetadiff);
    let sd = sin_spec(thetadiff);
    let l0sq = fxs_mul(p.length0 as int, p.length0 as int);
    let l1sq = fxs_mul(p.length1 as int, p.length1 as int);
    let num = fxs_sub(
        fxs_add(
            fxs_mul(fxs_mul(p.mass1 as int, l1sq), fxs_mul(p.p0 as int, p.p0 as int)),
            fxs_mul(fxs_mul(msum, l0sq), fxs_mul(p.p1 as int, p.p1 as int)),
        ),
        fxs_mul(
            fxs_add(
                fxs_mul(p.mass1 as int, p.length0 as int),
                fxs_mul(p.mass1 as int, p.length0 as int),
            ),
            fxs_mul(
                p.length1 as int,
                fxs_mul(fxs_mul(p.p0 as int, p.p1 as int), cd),
            ),
        ),
    );
    let den = nonzero_spec(
        fxs_mul(
            fxs_mul(fxs_add(p.mass1 as int, p.mass1 as int), fxs_mul(l0sq, l1sq)),
            fxs_add(p.mass0 as int, fxs_mul(p.mass1 as int, fxs_mul(sd, sd))),
        ),
    );
    fxs_div(num, den)
}

/// The momentum pair that gives the required kinetic energy while keeping
/// the current momentum ratio and swing direction, written exactly as
/// [`Simulator::adjust_energy`] computes it: first the ratio `c = p1/p0`
/// (with the denominator floored away from zero), then the analytic solution
/// of the kinetic-energy quadratic form for the magnitude of `p0`.
#[verifier::opaque]
pub open spec fn energize_spec(p: Pendulum, kinetic: int) -> (int, int) {
    let msum = fxs_add(p.mass0 as int, p.mass1 as int);
    let l0 = p.length0 as int;
    let l1 = p.length1 as int;
    let m0 = p.mass0 as int;
    let m1 = p.mass1 as int;
    let thetadiff = fxs_sub(p.theta0 as int, p.theta1 as int);
    let c = fxs_div(p.p1 as int, nonzero_spec(p.p0 as int));
    let pdet = sqrt_fx_spec(
        fxs_add(
            fxs_sub(
                fxs_mul(fxs_mul(fxs_mul(c, c), fxs_mul(l0, l0)), msum),
                fxs_mul(fxs_mul(fxs_add(c, c), fxs_mul(l1, l0)), fxs_mul(m1, cos_spec(thetadiff))),
            ),
            fxs_mul(fxs_mul(l1, l1), m1),
        ),
    );
    let sd = sin_spec(thetadiff);
    let p_theta = fxs_div(
        fxs_mul(
            fxs_mul(FX_SQRT2 as int, sqrt_fx_spec(kinetic)),
            fxs_mul(
                fxs_mul(l0, l1),
                fxs_mul(sqrt_fx_spec(m1), sqrt_fx_spec(fxs_add(fxs_mul(m1, fxs_mul(sd, sd)), m0))),
            ),
        ),
        nonzero_spec(pdet),
    );
    let new_p0 = if p.p0 >= 0 {
        p_theta
    } else {
        fx_clip(-p_theta)
    };
    (new_p0, fxs_mul(c, new_p0))
}

/// The state after one energy adjustment toward `energy` with response `t`,
/// written exactly as [`Simulator::adjust_energy`] computes it: pick a
/// target state, then interpolate every component toward it by `t`.
#[verifier::opaque]
pub open spec fn adjust_spec(p: Pendulum, energy: int, t: int) -> Pendulum {
    let potential = potential_spec(p);
    let target = if energy > potential {
        let m = energize_spec(p, fxs_sub(energy, potential));
        (p.theta0 as int, p.theta1 as int, m.0, m.1)
    } else if energy < FX_EPS {
        (0int, 0int, 0int, 0int)
    } else {
        (p.theta0 as int, p.theta1 as int, p.p0 as int, p.p1 as int)
    };
    Pendulum {
        theta0: fx_lerp_spec(p.theta0 as int, target.0, t) as i64,
        theta1: fx_lerp_spec(p.theta1 as int, target.1, t) as i64,
        p0: fx_lerp_spec(p.p0 as int, target.2, t) as i64,
        p1: fx_lerp_spec(p.p1 as int, target.3, t) as i64,
        ..p
    }
}

/// The pendulum after `n` rounds of one energy adjustment followed by one
/// fixed integration step.
#[verifier::opaque]
pub open spec fn advance_n_spec(p: Pendulum, step: int, energy: int, t: int, n: nat) -> Pendulum
    decreases n,
{
    if n == 0 {
        p
    } else {
        step_spec(adjust_spec(advance_n_spec(p, step, energy, t, (n - 1) as nat), energy, t), step)
    }
}

/// How many whole physics steps a positive time debt covers: the ceiling of
/// `debt / step`.
pub open spec fn iterations_spec(debt: int, step: int) -> int
    recommends
        step >= 1,
{
    (debt + step - 1) / step
}

/// The simulator after one update: the elapsed time joins the debt and, if
/// the debt is positive, the pendulum advances by the covering number of
/// fixed steps, which are then paid off the debt.
pub open spec fn sim_update_spec(s: Simulator, elapsed: int, energy: int, t: int) -> Simulator {
    let debt = fxs_add(s.time_error as int, elapsed);
    if debt > 0 {
        let n = iterations_spec(debt, s.step_size as int);
        Simulator {
            pendulum: advance_n_spec(s.pendulum, s.step_size as int, energy, t, n as nat),
            time_error: (debt - n * s.step_size) as i64,
            ..s
        }
    } else {
        Simulator { time_error: debt as i64, ..s }
    }
}

/// The pendulum tip's normalized horizontal displacement,
/// `(sin theta0 * l0 + sin theta1 * l1) / (l0 + l1)`, written exactly as
/// [`Simulator::get_normalized_x`] computes it.
pub open spec fn normalized_x_spec(s: Simulator) -> int {
    let p = s.pendulum;
    fxs_div(
        fxs_add(
            fxs_mul(sin_spec(p.theta0 as int), p.length0 as int),
            fxs_mul(sin_spec(p.theta1 as int), p.length1 as int),
        ),
        nonzero_spec(fxs_add(p.length0 as int, p.length1 as int)),
    )
}

/// With nonnegative gravity, masses and lengths the potential energy is
/// nonnegative: every factor in it is.
pub proof fn lemma_potential_nonneg(p: Pendulum)
    requires
        p.params_nonneg(),
    ensures
        0 <= potential_spec(p) <= FX_MAX,
{
    reveal(potential_spec);
    lemma_trig_bounds();
    let msum = fxs_add(p.mass0 as int, p.mass1 as int);
    let omc0 = fxs_sub(FX_SCALE as int, cos_spec(p.theta0 as int));
    let omc1 = fxs_sub(FX_SCALE as int, cos_spec(p.theta1 as int));
    assert(msum >= 0);
    assert(omc0 >= 0);
    assert(omc1 >= 0);
    lemma_fxs_mul_nonneg(msum, p.length0 as int);
    lemma_fxs_mul_nonneg(fxs_mul(msum, p.length0 as int), omc0);
    lemma_fxs_mul_nonneg(p.mass1 as int, p.length1 as int);
    lemma_fxs_mul_nonneg(fxs_mul(p.mass1 as int, p.length1 as int), omc1);
    lemma_fxs_mul_nonneg(
        p.g as int,
        fxs_add(
            fxs_mul(fxs_mul(msum, p.length0 as int), omc0),
            fxs_mul(fxs_mul(p.mass1 as int, p.length1 as int), omc1),
        ),
    );
}

/// A zero energy target leaves a resting pendulum exactly at rest: the
/// target state is zero and the blend starts from zero.
pub proof fn lemma_adjust_spec_rest(p: Pendulum, t: int)
    requires
        p.at_rest(),
        p.params_nonneg(),
    ensures
        adjust_spec(p, 0, t) == p,
{
    reveal(adjust_spec);
    lemma_potential_nonneg(p);
    crate::pendulum::lemma_fxs_zero();
    assert(fx_clip(0 - 0) == 0);
    assert(fx_lerp_spec(0, 0, t) == 0) by {
        assert(0 * t == 0) by (nonlinear_arith);
        assert(crate::fx::fx_iabs(0 * t) == 0);
    }
}

/// Any number of zero-energy rounds leaves a resting pendulum at rest.
pub proof fn lemma_advance_n_spec_rest(p: Pendulum, step: int, t: int, n: nat)
    requires
        p.at_rest(),
        p.params_nonneg(),
    ensures
        advance_n_spec(p, step, 0, t, n) == p,
    decreases n,
{
    reveal(advance_n_spec);
    if n > 0 {
        lemma_advance_n_spec_rest(p, step, t, (n - 1) as nat);
        lemma_adjust_spec_rest(p, t);
        crate::pendulum::lemma_step_spec_rest(p, step);
    }
}

/// A resting pendulum reads as zero displacement.
pub proof fn lemma_normalized_x_rest(s: Simulator)
    requires
        s.pendulum.at_rest(),
    ensures
        normalized_x_spec(s) == 0,
{
    crate::trig::lemma_sin_spec_zero();
    crate::pendulum::lemma_fxs_zero();
}

/// All four state components are within the saturation bound; every state
/// the fixed-point operations produce satisfies this.
pub open spec fn state_bounded(p: Pendulum) -> bool {
    &&& crate::fx::fx_iabs(p.theta0 as int) <= FX_MAX
    &&& crate::fx::fx_iabs(p.theta1 as int) <= FX_MAX
    &&& crate::fx::fx_iabs(p.p0 as int) <= FX_MAX
    &&& crate::fx::fx_iabs(p.p1 as int) <= FX_MAX
}

/// With the full response, a silence target is reached in a single
/// adjustment: the whole state snaps to zero at once.
pub proof fn lemma_adjust_spec_snaps_to_silence(p: Pendulum)
    requires
        p.params_nonneg(),
        state_bounded(p),
    ensures
        adjust_spec(p, 0, FX_SCALE as int).at_rest(),
{
    reveal(adjust_spec);
    lemma_potential_nonneg(p);
    crate::fx::lemma_fx_lerp_full(p.theta0 as int, 0);
    crate::fx::lemma_fx_lerp_full(p.theta1 as int, 0);
    crate::fx::lemma_fx_lerp_full(p.p0 as int, 0);
    crate::fx::lemma_fx_lerp_full(p.p1 as int, 0);
}

/// The energy blend leaves the angles untouched whenever the target is not
/// silence: only the momenta are steered.
pub proof fn lemma_adjust_spec_preserves_angles(p: Pendulum, energy: int, t: int)
    requires
        energy >= FX_EPS,
        state_bounded(p),
    ensures
        adjust_spec(p, energy, t).theta0 == p.theta0,
        adjust_spec(p, energy, t).theta1 == p.theta1,
{
    reveal(adjust_spec);
    crate::fx::lemma_fx_lerp_still(p.theta0 as int, p.theta0 as int, t);
    crate::fx::lemma_fx_lerp_still(p.theta1 as int, p.theta1 as int, t);
}

/// Energy convergence from rest: with the full response and a target above
/// the resting potential, one adjustment reaches the analytic momentum state
/// (pure first-bob momentum, angles untouched), and that state is a fixed
/// point of further adjustments with the same target. The iteration
/// converges in a single step.
pub proof fn lemma_adjust_from_rest_fixpoint(p: Pendulum, energy: int)
    requires
        p.at_rest(),
        p.params_nonneg(),
        energy > potential_spec(p),
    ensures
        ({
            let q = adjust_spec(p, energy, FX_SCALE as int);
            &&& q.theta0 == 0
            &&& q.theta1 == 0
            &&& q.p1 == 0
            &&& q.p0 >= 0
            &&& adjust_spec(q, energy, FX_SCALE as int) == q
        }),
{
    reveal(adjust_spec);
    reveal(energize_spec);
    crate::pendulum::lemma_fxs_zero();
    let m = energize_spec(p, fxs_sub(energy, potential_spec(p)));
    assert(fxs_div(0, nonzero_spec(0)) == 0);
    assert(m.1 == 0);
    assert(m.0 >= 0) by {
        lemma_sqrt_fx_spec_nonneg();
        let kin = fxs_sub(energy, potential_spec(p));
        let sd = sin_spec(fxs_sub(0, 0));
        let f1 = fxs_mul(FX_SQRT2 as int, sqrt_fx_spec(kin));
        let f2a = fxs_mul(p.length0 as int, p.length1 as int);
        let f2b = fxs_mul(
            sqrt_fx_spec(p.mass1 as int),
            sqrt_fx_spec(fxs_add(fxs_mul(p.mass1 as int, fxs_mul(sd, sd)), p.mass0 as int)),
        );
        lemma_fxs_mul_nonneg(FX_SQRT2 as int, sqrt_fx_spec(kin));
        lemma_fxs_mul_nonneg(p.length0 as int, p.length1 as int);
        lemma_fxs_mul_nonneg(
            sqrt_fx_spec(p.mass1 as int),
            sqrt_fx_spec(fxs_add(fxs_mul(p.mass1 as int, fxs_mul(sd, sd)), p.mass0 as int)),
        );
        lemma_fxs_mul_nonneg(f2a, f2b);
        lemma_fxs_mul_nonneg(f1, fxs_mul(f2a, f2b));
        crate::fx::lemma_fxs_div_nonneg(
            fxs_mul(f1, fxs_mul(f2a, f2b)),
            nonzero_spec(
                sqrt_fx_spec(
                    fxs_add(
                        fxs_sub(
                            fxs_mul(fxs_mul(fxs_mul(0, 0), fxs_mul(p.length0 as int, p.length0 as int)), fxs_add(p.mass0 as int, p.mass1 as int)),
                            fxs_mul(
                                fxs_mul(fxs_add(0, 0), fxs_mul(p.length1 as int, p.length0 as int)),
                                fxs_mul(p.mass1 as int, cos_spec(fxs_sub(0, 0))),
                            ),
                        ),
                        fxs_mul(fxs_mul(p.length1 as int, p.length1 as int), p.mass1 as int),
                    ),
                ),
            ),
        );
    }
    crate::fx::lemma_fx_lerp_full(0, 0);
    crate::fx::lemma_fx_lerp_full(0, m.0);
    let q = adjust_spec(p, energy, FX_SCALE as int);
    assert(q.theta0 == 0 && q.theta1 == 0 && q.p1 == 0 && q.p0 == m.0);
    // the second adjustment recomputes the same target: the potential reads
    // only the angles and physical parameters, which are unchanged, and the
    // momentum ratio of the new state is again zero
    assert(potential_spec(q) == potential_spec(p)) by {
        reveal(potential_spec);
    }
    let m2 = energize_spec(q, fxs_sub(energy, potential_spec(q)));
    assert(fxs_div(q.p1 as int, nonzero_spec(q.p0 as int)) == 0) by {
        assert(nonzero_spec(q.p0 as int) != 0);
    }
    assert(m2.0 == m.0 && m2.1 == 0);
    crate::fx::lemma_fx_lerp_full(m.0, m.0);
}

/// The fixed-point square root never goes negative.
proof fn lemma_sqrt_fx_spec_nonneg()
    ensures
        forall|v: int| #[trigger] sqrt_fx_spec(v) >= 0,
{
}

/// An update with a zero energy target leaves a resting pendulum at rest;
/// only the time debt moves.
pub proof fn lemma_sim_update_spec_rest(s: Simulator, elapsed: int, t: int)
    requires
        s.wf(),
        s.pendulum.at_rest(),
    ensures
        sim_update_spec(s, elapsed, 0, t).pendulum == s.pendulum,
        sim_update_spec(s, elapsed, 0, t).wf(),
        sim_update_spec(s, elapsed, 0, t).step_size == s.step_size,
{
    let debt = fxs_add(s.time_error as int, elapsed);
    if debt > 0 {
        let n = iterations_spec(debt, s.step_size as int);
        lemma_ceil_div(debt, s.step_size as int);
        lemma_advance_n_spec_rest(s.pendulum, s.step_size as int, t, n as nat);
    }
}

/// Rounds of adjustment and integration compose: `a + b` rounds are `a`
/// rounds followed by `b` rounds.
pub proof fn lemma_advance_n_spec_add(p: Pendulum, step: int, energy: int, t: int, a: nat, b: nat)
    ensures
        advance_n_spec(p, step, energy, t, a + b) == advance_n_spec(
            advance_n_spec(p, step, energy, t, a),
            step,
            energy,
            t,
            b,
        ),
    decreases b,
{
    reveal(advance_n_spec);
    if b > 0 {
        lemma_advance_n_spec_add(p, step, energy, t, a, (b - 1) as nat);
    }
}

/// Adding whole multiples of the divisor shifts a Euclidean quotient by as
/// much.
proof fn lemma_div_shift(x: int, k: int, s: int)
    requires
        s >= 1,
    ensures
        (x + k * s) / s == x / s + k,
{
    let q = x / s;
    let r = x % s;
    vstd::arithmetic::div_mod::lemma_fundamental_div_mod(x, s);
    vstd::arithmetic::div_mod::lemma_mod_bound(x, s);
    assert(x + k * s == s * (q + k) + r) by (nonlinear_arith)
        requires
            x == s * q + r;
    vstd::arithmetic::div_mod::lemma_div_multiples_vanish_fancy(q + k, r, s);
}

/// Fixed-step accounting is robust to how the elapsed time is sliced: two
/// updates with the same target and response compose into one update over
/// the summed elapsed time, so the simulation does not depend on the host's
/// buffer size.
pub proof fn lemma_update_slices_compose(s: Simulator, e1: int, e2: int, energy: int, t: int)
    requires
        s.wf(),
        s.step_size <= FX_MAX,
        0 <= e1,
        0 <= e2,
        -FX_MAX <= s.time_error as int,
        s.time_error + e1 + e2 <= FX_MAX,
    ensures
        sim_update_spec(sim_update_spec(s, e1, energy, t), e2, energy, t) == sim_update_spec(
            s,
            e1 + e2,
            energy,
            t,
        ),
{
    let te = s.time_error as int;
    let step = s.step_size as int;
    let d1 = te + e1;
    let total = te + e1 + e2;
    assert(fxs_add(te, e1) == d1);
    assert(fxs_add(te, e1 + e2) == total);
    if d1 <= 0 {
        let s1 = sim_update_spec(s, e1, energy, t);
        assert(s1 == (Simulator { time_error: d1 as i64, ..s }));
        assert(fxs_add(d1, e2) == total);
    } else {
        lemma_ceil_div(d1, step);
        let n1 = iterations_spec(d1, step);
        let te1 = d1 - n1 * step;
        let s1 = sim_update_spec(s, e1, energy, t);
        assert(s1 == (Simulator {
            pendulum: advance_n_spec(s.pendulum, step, energy, t, n1 as nat),
            time_error: te1 as i64,
            ..s
        }));
        assert(-step < te1 <= 0);
        let d2 = te1 + e2;
        assert(d2 == total - n1 * step);
        assert(n1 * step >= d1);
        assert(d2 < total);
        assert(fxs_add(te1, e2) == d2);
        assert(total == d2 + n1 * step);
        assert(total > 0);
        lemma_div_shift(d2 + step - 1, n1, step);
        assert(total + step - 1 == (d2 + step - 1) + n1 * step);
        assert(iterations_spec(total, step) == (d2 + step - 1) / step + n1);
        if d2 <= 0 {
            assert(0 <= d2 + step - 1 < step);
            assert((d2 + step - 1) / step == 0) by {
                vstd::arithmetic::div_mod::lemma_basic_div(d2 + step - 1, step);
            }
            assert(iterations_spec(total, step) == n1);
            assert(total - n1 * step == d2);
        } else {
            lemma_ceil_div(d2, step);
            let n2 = iterations_spec(d2, step);
            assert(iterations_spec(total, step) == n1 + n2);
            lemma_advance_n_spec_add(s.pendulum, step, energy, t, n1 as nat, n2 as nat);
            assert((n1 + n2) as nat == n1 as nat + n2 as nat);
            assert(total - (n1 + n2) * step == d2 - n2 * step) by (nonlinear_arith)
                requires
                    total == d2 + n1 * step;
        }
    }
}

/// The ceiling division `(a + b - 1) / b` covers `a` and overshoots by less
/// than one step.
proof fn lemma_ceil_div(a: int, b: int)
    requires
        a > 0,
        b >= 1,
    ensures
        1 <= iterations_spec(a, b) <= a,
        iterations_spec(a, b) * b >= a,
        iterations_spec(a, b) * b - b < a,
{
    let q = (a + b - 1) / b;
    vstd::arithmetic::div_mod::lemma_fundamental_div_mod(a + b - 1, b);
    let r = (a + b - 1) % b;
    assert(a + b - 1 == b * q + r);
    vstd::arithmetic::div_mod::lemma_mod_bound(a + b - 1, b);
    assert(0 <= r < b);
    assert(b * q >= a);
    assert(b * q - b < a);
    assert(q * b == b * q) by (nonlinear_arith);
    if q < 1 {
        assert(b * q <= 0) by (nonlinear_arith)
            requires
                q <= 0,
                b >= 1;
    }
    assert((q - 1) * b <= b * q - b) by (nonlinear_arith);
    assert(q - 1 <= (q - 1) * b) by (nonlinear_arith)
        requires
            q >= 1,
            b >= 1;
}

impl Simulator {
    /// A simulator at the fixed physics step size with a pendulum at rest.
    pub fn default() -> (r: Simulator)
        ensures
            r.pendulum == Pendulum::default_spec(),
            r.step_size == STEP_SIZE,
            r.time_error == 0,
            r.wf(),
            r.pendulum.at_rest(),
    {
        Simulator { pendulum: Pendulum::default(), step_size: STEP_SIZE, time_error: 0 }
    }

    /// The step size is positive and the pendulum's physical parameters are
    /// nonnegative.
    pub open spec fn wf(self) -> bool {
        self.step_size >= 1 && self.pendulum.params_nonneg()
    }

    /// The pendulum tip's normalized horizontal displacement.
    pub fn get_normalized_x(&self) -> (r: i64)
        ensures
            r as int == normalized_x_spec(*self),
    {
        let p = &self.pendulum;
        fx_div(
            fx_add(
                fx_mul(fx_sin(p.theta0), p.length0),
                fx_mul(fx_sin(p.theta1), p.length1),
            ),
            fx_nonzero(fx_add(p.length0, p.length1)),
        )
    }

    /// The pendulum's potential energy.
    pub fn potential_energy(pendulum: &Pendulum) -> (r: i64)
        ensures
            r as int == potential_spec(*pendulum),
    {
        proof {
            reveal(potential_spec);
        }
        let msum: i64 = fx_add(pendulum.mass0, pendulum.mass1);
        let omc0: i64 = fx_sub(FX_SCALE, fx_cos(pendulum.theta0));
        let omc1: i64 = fx_sub(FX_SCALE, fx_cos(pendulum.theta1));
        fx_mul(
            pendulum.g,
            fx_add(
                fx_mul(fx_mul(msum, pendulum.length0), omc0),
                fx_mul(fx_mul(pendulum.mass1, pendulum.length1), omc1),
            ),
        )
    }

    /// The pendulum's kinetic energy in terms of the angles and the
    /// generalized momenta.
    pub fn kinetic_energy(pendulum: &Pendulum) -> (r: i64)
        ensures
            r as int == kinetic_spec(*pendulum),
    {
        let p = pendulum;
        let msum: i64 = fx_add(p.mass0, p.mass1);
        let thetadiff: i64 = fx_sub(p.theta0, p.theta1);
        let cd: i64 = fx_cos(thetadiff);
        let sd: i64 = fx_sin(thetadiff);
        let l0sq: i64 = fx_mul(p.length0, p.length0);
        let l1sq: i64 = fx_mul(p.length1, p.length1);
        let num: i64 = fx_sub(
            fx_add(
                fx_mul(fx_mul(p.mass1, l1sq), fx_mul(p.p0, p.p0)),
                fx_mul(fx_mul(msum, l0sq), fx_mul(p.p1, p.p1)),
            ),
            fx_mul(
                fx_add(fx_mul(p.mass1, p.length0), fx_mul(p.mass1, p.length0)),
                fx_mul(p.length1, fx_mul(fx_mul(p.p0, p.p1), cd)),
            ),
        );
        let den: i64 = fx_nonzero(
            fx_mul(
                fx_mul(fx_add(p.mass1, p.mass1), fx_mul(l0sq, l1sq)),
                fx_add(p.mass0, fx_mul(p.mass1, fx_mul(sd, sd))),
            ),
        );
        fx_div(num, den)
    }

    /// Sets the pendulum's energy by changing its kinetic energy only: if
    /// the target exceeds the potential energy, solve for momenta that make
    /// up the difference while keeping the current momentum ratio and swing
    /// direction; if the target is effectively silence, aim for the zero
    /// state; otherwise leave the state alone. The new state is then blended
    /// toward that target by the response coefficient `t`.
    pub fn adjust_energy(pendulum: &mut Pendulum, energy: i64, t: i64)
        requires
            energy >= 0,
            0 <= t <= FX_SCALE,
        ensures
            *final(pendulum) == adjust_spec(*old(pendulum), energy as int, t as int),
    {
        proof {
            reveal(adjust_spec);
            reveal(potential_spec);
            reveal(energize_spec);
        }
        let msum: i64 = fx_add(pendulum.mass0, pendulum.mass1);
        let omc0: i64 = fx_sub(FX_SCALE, fx_cos(pendulum.theta0));
        let omc1: i64 = fx_sub(FX_SCALE, fx_cos(pendulum.theta1));
        let potential: i64 = fx_mul(
            pendulum.g,
            fx_add(
                fx_mul(fx_mul(msum, pendulum.length0), omc0),
                fx_mul(fx_mul(pendulum.mass1, pendulum.length1), omc1),
            ),
        );
        let l0: i64 = pendulum.length0;
        let l1: i64 = pendulum.length1;
        let m0: i64 = pendulum.mass0;
        let m1: i64 = pendulum.mass1;
        let target: (i64, i64, i64, i64) = if energy > potential {
            let kinetic: i64 = fx_sub(energy, potential);
            let thetadiff: i64 = fx_sub(pendulum.theta0, pendulum.theta1);
            let c: i64 = fx_div(pendulum.p1, fx_nonzero(pendulum.p0));
            let pdet: i64 = fx_sqrt(
                fx_add(
                    fx_sub(
                        fx_mul(fx_mul(fx_mul(c, c), fx_mul(l0, l0)), msum),
                        fx_mul(
                            fx_mul(fx_add(c, c), fx_mul(l1, l0)),
                            fx_mul(m1, fx_cos(thetadiff)),
                        ),
                    ),
                    fx_mul(fx_mul(l1, l1), m1),
                ),
            );
            let sd: i64 = fx_sin(thetadiff);
            let p_theta: i64 = fx_div(
                fx_mul(
                    fx_mul(FX_SQRT2, fx_sqrt(kinetic)),
                    fx_mul(
                        fx_mul(l0, l1),
                        fx_mul(fx_sqrt(m1), fx_sqrt(fx_add(fx_mul(m1, fx_mul(sd, sd)), m0))),
                    ),
                ),
                fx_nonzero(pdet),
            );
            let new_p0: i64 = if pendulum.p0 >= 0 {
                p_theta
            } else {
                fx_neg(p_theta)
            };
            (pendulum.theta0, pendulum.theta1, new_p0, fx_mul(c, new_p0))
        } else if energy < FX_EPS {
            (0, 0, 0, 0)
        } else {
            (pendulum.theta0, pendulum.theta1, pendulum.p0, pendulum.p1)
        };
        pendulum.theta0 = fx_lerp(pendulum.theta0, target.0, t);
        pendulum.theta1 = fx_lerp(pendulum.theta1, target.1, t);
        pendulum.p0 = fx_lerp(pendulum.p0, target.2, t);
        pendulum.p1 = fx_lerp(pendulum.p1, target.3, t);
    }

    /// Advances physical time by `elapsed`: the elapsed time joins the time
    /// debt, and while a whole physics step of debt remains, one energy
    /// adjustment and one fixed integration step are performed.
    #[verifier::rlimit(100)]
    pub fn update(&mut self, elapsed: i64, energy: i64, t: i64)
        requires
            old(self).wf(),
            energy >= 0,
            0 <= t <= FX_SCALE,
        ensures
            *final(self) == sim_update_spec(*old(self), elapsed as int, energy as int, t as int),
            final(self).wf(),
            final(self).step_size == old(self).step_size,
    {
        proof {
            reveal(advance_n_spec);
        }
        self.time_error = fx_add(self.time_error, elapsed);
        if self.time_error > 0 {
            let debt: i64 = self.time_error;
            let step: i64 = self.step_size;
            let nu: u128 = ((debt as u128) + (step as u128) - 1) / (step as u128);
            proof {
                lemma_ceil_div(debt as int, step as int);
                assert(nu as int == iterations_spec(debt as int, step as int));
            }
            let n: i64 = nu as i64;
            let mut i: i64 = 0;
            while i < n
                invariant
                    0 <= i <= n,
                    n as int == iterations_spec(debt as int, step as int),
                    self.pendulum == advance_n_spec(
                        old(self).pendulum,
                        step as int,
                        energy as int,
                        t as int,
                        i as nat,
                    ),
                    self.step_size == step,
                    self.time_error == debt,
                    step >= 1,
                    energy >= 0,
                    0 <= t <= FX_SCALE,
                    self.pendulum.params_nonneg(),
                decreases n - i,
            {
                proof {
                    reveal(advance_n_spec);
                    reveal(adjust_spec);
                }
                Simulator::adjust_energy(&mut self.pendulum, energy, t);
                self.pendulum.update(step);
                i = i + 1;
            }
            proof {
                lemma_ceil_div(debt as int, step as int);
            }
            let paid: i128 = (debt as i128) - (n as i128) * (step as i128);
            self.time_error = paid as i64;
        }
    }
}

} // verus!
