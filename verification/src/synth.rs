//! The synth facade: note events in, audio samples out.
//!
//! [`Synth::render`] latches the pending note events once per buffer,
//! derives the pendulum segment lengths from the active note's pitch and the
//! chaoticity parameter, and then, for every output frame, asks the envelope
//! for an energy target, advances the simulator by one sample period, and
//! writes the filtered, clamped pendulum displacement to every channel.

use vstd::prelude::*;

use crate::envelope::{
    clamp_spec, note_state_update_spec, NoteEvent, NoteState, Params, CHAOTICITY_MAX,
    CHAOTICITY_MIN, DECAY_DELAY_MAX,
};
use crate::filter::{design_spec, run_spec, LowPass};
use crate::fx::{
    fx_add, fx_div, fx_mul, fx_nonzero, fx_sub, fxs_add, fxs_div, fxs_mul, fxs_sub,
    lemma_fxs_div_le_one, lemma_fxs_div_nonneg, lemma_fxs_mul_nonneg, lemma_fxs_square_nonneg,
    nonzero_spec, FX_MAX, FX_SCALE,
};
use crate::simulator::{normalized_x_spec, sim_update_spec, Simulator};
use crate::trig::{clip_one, fx_clamp_one, FX_TWO_PI};

verus! {

/// Gravity scaled up from the physical `9.81` by `100000`, to increase the
/// numerical resolution of small-amplitude motion, in fixed-point units.
pub const GRAVITY_SCALED: i64 = 981000 * 1048576;

/// The envelope's velocity weight: one half in fixed-point units.
pub const VELOCITY_WEIGHT: i64 = 524288;

/// The divisor family of the response coefficients: a smoothing parameter
/// `p` gives the response `1 / (p * 10000 + 1)`.
pub const PARAM_DIV: i64 = 10000;

/// The controller number of the modulation wheel.
pub const MOD_WHEEL: u8 = 1;

/// The frequency of the lowest note (number zero), in fixed-point Hz.
pub const BASE_FREQ: i64 = 8573158;

/// A decoded note message, already validated to seven-bit values by the
/// host's reader.
#[derive(Clone, Copy, Debug, PartialEq, Eq, Structural)]
pub enum MidiEvent {
    /// A key went down, with its velocity.
    NoteOn {
        /// The note number, `0..=127`.
        note: u8,
        /// The raw velocity, `0..=127`.
        velocity: u8,
    },
    /// A key came up.
    NoteOff {
        /// The note number, `0..=127`.
        note: u8,
    },
    /// A continuous controller moved.
    ControlChange {
        /// The controller number, `0..=127`.
        controller: u8,
        /// The raw controller value, `0..=127`.
        value: u8,
    },
}

impl MidiEvent {
    /// All payload bytes are seven-bit values.
    pub open spec fn wf(self) -> bool {
        match self {
            MidiEvent::NoteOn { note, velocity } => note <= 127 && velocity <= 127,
            MidiEvent::NoteOff { note } => note <= 127,
            MidiEvent::ControlChange { controller, value } => controller <= 127 && value <= 127,
        }
    }
}

/// A seven-bit value brought to a normalized fixed-point fraction of `127`.
pub open spec fn norm_u7_spec(v: int) -> int {
    v * FX_SCALE / 127
}

/// Normalizes a seven-bit value into `[0, 1]` fixed-point units.
pub fn norm_u7(v: u8) -> (r: i64)
    requires
        v <= 127,
    ensures
        r as int == norm_u7_spec(v as int),
        0 <= r <= FX_SCALE,
{
    let r: u64 = ((v as u64) * 1048576) / 127;
    proof {
        vstd::arithmetic::div_mod::lemma_div_is_ordered(
            (v as int) * FX_SCALE,
            127 * (FX_SCALE as int),
            127,
        );
        assert((v as int) * FX_SCALE <= 127 * (FX_SCALE as int)) by (nonlinear_arith)
            requires
                v <= 127;
        assert((v as int) * FX_SCALE >= 0) by (nonlinear_arith)
            requires
                v >= 0;
        assert(0 * FX_SCALE / 127 == 0);
        vstd::arithmetic::div_mod::lemma_div_is_ordered(0, (v as int) * FX_SCALE, 127);
    }
    r as i64
}

/// The pitch ratio of the semitone index within an octave, in fixed-point
/// units: the twelfth roots of two.
pub open spec fn semitone_spec(i: int) -> int {
    if i == 0 {
        1048576
    } else if i == 1 {
        1110928
    } else if i == 2 {
        1176987
    } else if i == 3 {
        1246974
    } else if i == 4 {
        1321123
    } else if i == 5 {
        1399681
    } else if i == 6 {
        1482910
    } else if i == 7 {
        1571089
    } else if i == 8 {
        1664511
    } else if i == 9 {
        1763488
    } else if i == 10 {
        1868350
    } else {
        1979448
    }
}

/// The plain doubling factor of an octave index.
pub open spec fn octave_factor_spec(o: int) -> int {
    if o <= 0 {
        1
    } else if o == 1 {
        2
    } else if o == 2 {
        4
    } else if o == 3 {
        8
    } else if o == 4 {
        16
    } else if o == 5 {
        32
    } else if o == 6 {
        64
    } else if o == 7 {
        128
    } else if o == 8 {
        256
    } else if o == 9 {
        512
    } else {
        1024
    }
}

/// The frequency of a note number: the base frequency raised by the
/// semitone's ratio and doubled per octave.
pub open spec fn note_freq_spec(note: int) -> int {
    fxs_mul(
        fxs_mul(BASE_FREQ as int, semitone_spec(note % 12)),
        octave_factor_spec(note / 12) * FX_SCALE,
    )
}

/// The frequency of a note number in fixed-point Hz (equal temperament,
/// note 69 near 440 Hz).
pub fn note_frequency(note: u8) -> (r: i64)
    requires
        note <= 127,
    ensures
        r as int == note_freq_spec(note as int),
        r >= 0,
{
    let s: u8 = note % 12;
    let semi: i64 = if s == 0 {
        1048576
    } else if s == 1 {
        1110928
    } else if s == 2 {
        1176987
    } else if s == 3 {
        1246974
    } else if s == 4 {
        1321123
    } else if s == 5 {
        1399681
    } else if s == 6 {
        1482910
    } else if s == 7 {
        1571089
    } else if s == 8 {
        1664511
    } else if s == 9 {
        1763488
    } else if s == 10 {
        1868350
    } else {
        1979448
    };
    let o: u8 = note / 12;
    let factor: i64 = if o == 0 {
        1
    } else if o == 1 {
        2
    } else if o == 2 {
        4
    } else if o == 3 {
        8
    } else if o == 4 {
        16
    } else if o == 5 {
        32
    } else if o == 6 {
        64
    } else if o == 7 {
        128
    } else if o == 8 {
        256
    } else if o == 9 {
        512
    } else {
        1024
    };
    let base: i64 = fx_mul(BASE_FREQ, semi);
    proof {
        lemma_fxs_mul_nonneg(BASE_FREQ as int, semi as int);
        lemma_fxs_mul_nonneg(base as int, (factor as int) * (FX_SCALE as int));
    }
    fx_mul(base, factor * FX_SCALE)
}

/// The two segment lengths for a total length budget and a chaoticity,
/// written exactly as [`get_lengths`] computes them:
/// `l0 = center_length / (1 + chaoticity/2)` and `l1 = l0 * chaoticity`.
pub open spec fn lengths_spec(cl: int, ch: int) -> (int, int) {
    let den = nonzero_spec(fxs_add(FX_SCALE as int, fxs_mul(ch, 524288)));
    let l0 = fxs_div(cl, den);
    (l0, fxs_mul(l0, ch))
}

/// Splits the pendulum length budget between the two segments: the
/// chaoticity shrinks the first segment and scales the second relative to
/// it, so a higher chaoticity gives a more even split and richer motion.
pub fn get_lengths(center_length: i64, chaoticity: i64) -> (r: (i64, i64))
    ensures
        (r.0 as int, r.1 as int) == lengths_spec(center_length as int, chaoticity as int),
        center_length >= 0 && chaoticity >= 0 ==> r.0 >= 0 && r.1 >= 0,
{
    let den: i64 = fx_nonzero(fx_add(FX_SCALE, fx_mul(chaoticity, 524288)));
    let l0: i64 = fx_div(center_length, den);
    let l1: i64 = fx_mul(l0, chaoticity);
    proof {
        if center_length >= 0 && chaoticity >= 0 {
            lemma_fxs_mul_nonneg(chaoticity as int, 524288);
            lemma_fxs_div_nonneg(center_length as int, den as int);
            lemma_fxs_mul_nonneg(l0 as int, chaoticity as int);
        }
    }
    (l0, l1)
}

/// The top-level instrument: the simulator, the active note if any, the
/// parameters, the cached low-pass filter, the pendulum length budget
/// derived from the active pitch, and the sample rate last seen.
#[derive(Clone, Copy, Debug, PartialEq, Eq, Structural)]
pub struct Synth {
    /// The physics and its time accounting.
    pub simulator: Simulator,
    /// The active note, if one was ever delivered.
    pub note_event: Option<NoteEvent>,
    /// The shared parameter block, clamped on every read.
    pub params: Params,
    /// The output low-pass filter, keyed by the rate it was designed for.
    pub lowpass: LowPass,
    /// The pendulum length budget, derived from the active note's pitch.
    pub center_length: i64,
    /// The sample rate observed on the last render call.
    pub sample_rate: u32,
}

/// Whether a pressed note at `elapsed` samples is still in its attack
/// phase: its elapsed seconds are below the decay delay. Exact integer
/// comparison of `elapsed / rate < delay` by cross-multiplication.
pub open spec fn in_attack_spec(elapsed: int, decay_delay: int, sample_rate: int) -> bool {
    elapsed * FX_SCALE < decay_delay * sample_rate
}

/// The response coefficient of a smoothing parameter `p` in `[0, 1]`:
/// `1 / (p * 10000 + 1)`. A larger parameter means a slower response.
pub open spec fn response_spec(p: int) -> int {
    fxs_div(FX_SCALE as int, p * (PARAM_DIV as int) + FX_SCALE)
}

/// The desired potential energy at full envelope: the scaled gravity, the
/// velocity weight and the normalized velocity, against the mass-weighted
/// length budget `mass_sum*l0 + m1*l1`.
pub open spec fn desired_potential_spec(s: Synth, velocity: int) -> int {
    let ch = clamp_spec(s.params.chaoticity as int, CHAOTICITY_MIN as int, CHAOTICITY_MAX as int);
    let lengths = lengths_spec(s.center_length as int, ch);
    let msum = fxs_add(s.simulator.pendulum.mass0 as int, s.simulator.pendulum.mass1 as int);
    fxs_mul(
        fxs_mul(fxs_mul(s.simulator.pendulum.g as int, VELOCITY_WEIGHT as int), velocity),
        fxs_add(
            fxs_mul(msum, lengths.0),
            fxs_mul(s.simulator.pendulum.mass1 as int, lengths.1),
        ),
    )
}

/// The energy target and response coefficient of the envelope, written
/// exactly as [`Synth::calculate_energy`] computes them. A pressed note
/// aims at the velocity-weighted desired potential while the decay delay
/// lasts, then at its sustain fraction; a released note aims at zero; with
/// no note at all the target is zero with the response `1 - release`.
/// NOTE: the no-note response deliberately differs from the released case's
/// `1/(release*10000 + 1)`; unifying the two would change how fast the
/// engine settles between notes, so the asymmetry is kept.
#[verifier::opaque]
pub open spec fn calc_energy_spec(s: Synth) -> (int, int) {
    match s.note_event {
        Some(ev) => {
            let desired = desired_potential_spec(s, ev.velocity as int);
            match ev.state {
                NoteState::Pressed(elapsed) => {
                    let dd = clamp_spec(s.params.decay_delay as int, 0, DECAY_DELAY_MAX as int);
                    if in_attack_spec(elapsed as int, dd, s.sample_rate as int) {
                        (desired, response_spec(clamp_spec(s.params.attack as int, 0, FX_SCALE as int)))
                    } else {
                        (
                            fxs_mul(desired, clamp_spec(s.params.sustain as int, 0, FX_SCALE as int)),
                            response_spec(clamp_spec(s.params.decay as int, 0, FX_SCALE as int)),
                        )
                    }
                },
                NoteState::Released => (
                    0,
                    response_spec(clamp_spec(s.params.release as int, 0, FX_SCALE as int)),
                ),
            }
        },
        None => (
            0,
            fxs_sub(FX_SCALE as int, clamp_spec(s.params.release as int, 0, FX_SCALE as int)),
        ),
    }
}

impl Synth {
    /// The state invariant: the simulator is well formed, the length budget
    /// is nonnegative, and any active note carries a normalized velocity.
    pub open spec fn wf(self) -> bool {
        &&& self.simulator.wf()
        &&& self.center_length >= 0
        &&& match self.note_event {
            Some(ev) => 0 <= ev.velocity <= FX_SCALE,
            None => true,
        }
    }

    /// The complete initial state: a resting pendulum with unit masses and
    /// lengths under the scaled gravity, no time debt at the fixed step
    /// size, no note, the default parameters, a unit length budget, and the
    /// filter designed for 44100 Hz but keyed to rate zero, which forces a
    /// redesign on the first render.
    pub open spec fn new_spec() -> Synth {
        Synth {
            simulator: Simulator {
                pendulum: (crate::pendulum::Pendulum {
                    g: GRAVITY_SCALED,
                    ..crate::pendulum::Pendulum::default_spec()
                }),
                step_size: crate::simulator::STEP_SIZE,
                time_error: 0,
            },
            note_event: None,
            params: Params::default_spec(),
            lowpass: (LowPass { sample_rate: 0, ..design_spec(44100) }),
            center_length: FX_SCALE,
            sample_rate: 44100,
        }
    }

    /// A fresh synth: simulator at rest under scaled gravity, no note, the
    /// default parameters, and a filter that will be redesigned on the first
    /// render because its recorded rate is zero.
    pub fn new() -> (r: Synth)
        ensures
            r == Synth::new_spec(),
            r.wf(),
            r.note_event is None,
            r.simulator.pendulum.at_rest(),
            r.lowpass.quiescent(),
            r.sample_rate == 44100,
            r.params == Params::default_spec(),
    {
        let mut lowpass: LowPass = LowPass::design(44100);
        lowpass.sample_rate = 0;
        let mut simulator: Simulator = Simulator::default();
        simulator.pendulum.g = GRAVITY_SCALED;
        Synth {
            simulator,
            note_event: None,
            params: Params::default(),
            lowpass,
            center_length: FX_SCALE,
            sample_rate: 44100,
        }
    }

    /// A copy of the parameter block.
    pub fn get_params(&self) -> (r: Params)
        ensures
            r == self.params,
    {
        self.params
    }

    /// Replaces the parameter block; a host calls this when its interface
    /// moves a control.
    pub fn set_params(&mut self, params: Params)
        ensures
            *final(self) == (Synth { params, ..*old(self) }),
    {
        self.params = params;
    }

    /// The envelope's energy target and response coefficient for the
    /// current state, once per output sample.
    pub fn calculate_energy(&self) -> (r: (i64, i64))
        requires
            self.wf(),
        ensures
            (r.0 as int, r.1 as int) == calc_energy_spec(*self),
            r.0 >= 0,
            0 <= r.1 <= FX_SCALE,
    {
        proof {
            reveal(calc_energy_spec);
        }
        match &self.note_event {
            Some(ev) => {
                let ch: i64 = self.params.get_chaoticity();
                let lengths: (i64, i64) = get_lengths(self.center_length, ch);
                let msum: i64 = fx_add(
                    self.simulator.pendulum.mass0,
                    self.simulator.pendulum.mass1,
                );
                let desired: i64 = fx_mul(
                    fx_mul(
                        fx_mul(self.simulator.pendulum.g, VELOCITY_WEIGHT),
                        ev.velocity,
                    ),
                    fx_add(
                        fx_mul(msum, lengths.0),
                        fx_mul(self.simulator.pendulum.mass1, lengths.1),
                    ),
                );
                proof {
                    lemma_fxs_mul_nonneg(self.simulator.pendulum.g as int, VELOCITY_WEIGHT as int);
                    lemma_fxs_mul_nonneg(
                        fxs_mul(self.simulator.pendulum.g as int, VELOCITY_WEIGHT as int),
                        ev.velocity as int,
                    );
                    lemma_fxs_mul_nonneg(msum as int, lengths.0 as int);
                    lemma_fxs_mul_nonneg(self.simulator.pendulum.mass1 as int, lengths.1 as int);
                    lemma_fxs_mul_nonneg(
                        fxs_mul(
                            fxs_mul(self.simulator.pendulum.g as int, VELOCITY_WEIGHT as int),
                            ev.velocity as int,
                        ),
                        fxs_add(
                            fxs_mul(msum as int, lengths.0 as int),
                            fxs_mul(self.simulator.pendulum.mass1 as int, lengths.1 as int),
                        ),
                    );
                }
                match ev.state {
                    NoteState::Pressed(elapsed) => {
                        let dd: i64 = self.params.get_decay_delay();
                        proof {
                            assert((dd as int) * (self.sample_rate as int)
                                <= 0xffffffffffffffffffffffffffffffff) by (nonlinear_arith)
                                requires
                                    0 <= dd as int <= 0xa00000,
                                    0 <= self.sample_rate as int <= 0xffffffff;
                            assert((elapsed as int) * (FX_SCALE as int)
                                <= 0xffffffffffffffffffffffffffffffff) by (nonlinear_arith)
                                requires
                                    0 <= elapsed as int <= 0xffffffff,
                                    FX_SCALE == 1048576;
                        }
                        let in_attack: bool = ((elapsed as u128) * (FX_SCALE as u128)) < ((dd
                            as u128) * (self.sample_rate as u128));
                        if in_attack {
                            let attack: i64 = self.params.get_attack();
                            let resp: i64 = fx_div(FX_SCALE, attack * PARAM_DIV + FX_SCALE);
                            proof {
                                lemma_fxs_div_le_one(attack as int * (PARAM_DIV as int) + FX_SCALE);
                            }
                            (desired, resp)
                        } else {
                            let sustain: i64 = self.params.get_sustain();
                            let decay: i64 = self.params.get_decay();
                            let resp: i64 = fx_div(FX_SCALE, decay * PARAM_DIV + FX_SCALE);
                            proof {
                                lemma_fxs_mul_nonneg(desired as int, sustain as int);
                                lemma_fxs_div_le_one(decay as int * (PARAM_DIV as int) + FX_SCALE);
                            }
                            (fx_mul(desired, sustain), resp)
                        }
                    },
                    NoteState::Released => {
                        let release: i64 = self.params.get_release();
                        let resp: i64 = fx_div(FX_SCALE, release * PARAM_DIV + FX_SCALE);
                        proof {
                            lemma_fxs_div_le_one(release as int * (PARAM_DIV as int) + FX_SCALE);
                        }
                        (0, resp)
                    },
                }
            },
            None => {
                let release: i64 = self.params.get_release();
                (0, fx_sub(FX_SCALE, release))
            },
        }
    }
}

/// The synth after one note event, written exactly as the drain in
/// [`Synth::render`] handles it: a note-on derives the length budget from
/// the pitch and replaces the active note; a matching note-off releases a
/// still-pressed note; the modulation wheel maps linearly into the
/// chaoticity range; everything else is ignored.
pub open spec fn apply_event_spec(s: Synth, e: MidiEvent) -> Synth {
    match e {
        MidiEvent::NoteOn { note, velocity } => {
            let f = note_freq_spec(note as int);
            let w = fxs_mul(FX_TWO_PI as int, f);
            let cl = fxs_div(s.simulator.pendulum.g as int, nonzero_spec(fxs_mul(w, w)));
            Synth {
                center_length: cl as i64,
                note_event: Some(
                    NoteEvent {
                        note,
                        state: NoteState::Pressed(0),
                        velocity: norm_u7_spec(velocity as int) as i64,
                    },
                ),
                ..s
            }
        },
        MidiEvent::NoteOff { note } => match s.note_event {
            Some(ev) => {
                if ev.note == note && (ev.state is Pressed) {
                    Synth {
                        note_event: Some(NoteEvent { state: NoteState::Released, ..ev }),
                        ..s
                    }
                } else {
                    s
                }
            },
            None => s,
        },
        MidiEvent::ControlChange { controller, value } => {
            if controller == MOD_WHEEL {
                let norm = norm_u7_spec(value as int);
                let ch = fxs_add(
                    CHAOTICITY_MIN as int,
                    fxs_mul(norm, CHAOTICITY_MAX - CHAOTICITY_MIN),
                );
                Synth { params: (Params { chaoticity: ch as i64, ..s.params }), ..s }
            } else {
                s
            }
        },
    }
}

/// The synth after the first `i` pending events, in order.
pub open spec fn drain_to_spec(s: Synth, events: Seq<MidiEvent>, i: nat) -> Synth
    decreases i,
{
    if i == 0 {
        s
    } else {
        apply_event_spec(drain_to_spec(s, events, (i - 1) as nat), events[i - 1])
    }
}

/// The synth after the per-buffer preamble of [`Synth::render`]: the sample
/// rate is latched, the pending events are drained, the filter is redesigned
/// if the rate changed, and the segment lengths are derived from the length
/// budget and the chaoticity as it stood before the drain.
pub open spec fn prelude_spec(s: Synth, sample_rate: u32, events: Seq<MidiEvent>) -> Synth {
    let s0 = Synth { sample_rate, ..s };
    let ch = clamp_spec(s0.params.chaoticity as int, CHAOTICITY_MIN as int, CHAOTICITY_MAX as int);
    let s1 = drain_to_spec(s0, events, events.len());
    let s2 = if s1.lowpass.sample_rate != sample_rate {
        Synth { lowpass: design_spec(sample_rate), ..s1 }
    } else {
        s1
    };
    let lengths = lengths_spec(s2.center_length as int, ch);
    Synth {
        simulator: Simulator {
            pendulum: crate::pendulum::Pendulum {
                length0: lengths.0 as i64,
                length1: lengths.1 as i64,
                ..s2.simulator.pendulum
            },
            ..s2.simulator
        },
        ..s2
    }
}

/// One output frame, written exactly as the per-frame loop of
/// [`Synth::render`] computes it: read the displacement, filter and clamp
/// it, ask the envelope for a target, advance the simulator by one sample
/// period, and count the sample on the active note.
#[verifier::opaque]
pub open spec fn frame_spec(s: Synth) -> (Synth, int) {
    let a = normalized_x_spec(s.simulator);
    let fr = run_spec(s.lowpass, a);
    let sf = Synth { lowpass: fr.0, ..s };
    let e = calc_energy_spec(sf);
    let elapsed = (FX_SCALE as int) / (s.sample_rate as int);
    let ne = match sf.note_event {
        Some(ev) => Some(NoteEvent { state: note_state_update_spec(ev.state, 1), ..ev }),
        None => None,
    };
    (
        Synth {
            simulator: sim_update_spec(sf.simulator, elapsed, e.0, e.1),
            note_event: ne,
            ..sf
        },
        clip_one(fr.1),
    )
}

/// The synth after `n` output frames.
pub open spec fn frames_spec(s: Synth, n: nat) -> Synth
    decreases n,
{
    if n == 0 {
        s
    } else {
        frame_spec(frames_spec(s, (n - 1) as nat)).0
    }
}

/// The sample value of frame `i`, counted from a starting state.
pub open spec fn sample_spec(s: Synth, i: nat) -> int {
    frame_spec(frames_spec(s, i)).1
}

/// An interleaved frame index stays inside the buffer.
proof fn lemma_index_bound(f: int, c: int, channels: int, len: int)
    requires
        channels >= 1,
        0 <= c < channels,
        0 <= f < len / channels,
    ensures
        0 <= f * channels + c < len,
        (f * channels + c) / channels == f,
{
    let frames = len / channels;
    vstd::arithmetic::div_mod::lemma_fundamental_div_mod(len, channels);
    assert(f * channels + c < len) by (nonlinear_arith)
        requires
            channels >= 1,
            0 <= c < channels,
            0 <= f <= frames - 1,
            len >= channels * frames;
    assert(f * channels >= 0) by (nonlinear_arith)
        requires
            f >= 0,
            channels >= 0;
    vstd::arithmetic::div_mod::lemma_div_multiples_vanish_fancy(f, c, channels);
    assert(channels * f == f * channels) by (nonlinear_arith);
}

impl Synth {
    /// Fills the interleaved output buffer: latches the pending note events,
    /// derives the segment lengths, and writes one filtered, clamped sample
    /// per frame, the same value into every channel of the frame. A trailing
    /// partial frame is left untouched. A zero-length buffer performs no
    /// simulation work at all.
    #[verifier::rlimit(100)]
    pub fn render(
        &mut self,
        sample_rate: u32,
        channels: usize,
        events: &Vec<MidiEvent>,
        output: &mut Vec<i64>,
    )
        requires
            old(self).wf(),
            sample_rate >= 1,
            channels >= 1,
            forall|i: int| 0 <= i < events@.len() ==> (#[trigger] events@[i]).wf(),
        ensures
            final(self).wf(),
            *final(self) == frames_spec(
                prelude_spec(*old(self), sample_rate, events@),
                (old(output)@.len() as int / channels as int) as nat,
            ),
            final(output)@.len() == old(output)@.len(),
            forall|j: int|
                0 <= j < (old(output)@.len() as int / channels as int) * channels
                    ==> final(output)@[j] == sample_spec(
                    prelude_spec(*old(self), sample_rate, events@),
                    (j / channels as int) as nat,
                ),
            forall|j: int|
                (old(output)@.len() as int / channels as int) * channels <= j
                    < old(output)@.len() ==> final(output)@[j] == old(output)@[j],
    {
        self.sample_rate = sample_rate;
        let ghost s0 = *self;
        let chaoticity: i64 = self.params.get_chaoticity();
        let mut i: usize = 0;
        while i < events.len()
            invariant
                i <= events@.len(),
                forall|k: int| 0 <= k < events@.len() ==> (#[trigger] events@[k]).wf(),
                *self == drain_to_spec(s0, events@, i as nat),
                self.wf(),
                self.sample_rate == sample_rate,
            decreases events@.len() - i,
        {
            let e: MidiEvent = events[i];
            match e {
                MidiEvent::NoteOn { note, velocity } => {
                    let f: i64 = note_frequency(note);
                    let w: i64 = fx_mul(FX_TWO_PI, f);
                    let wsq: i64 = fx_nonzero(fx_mul(w, w));
                    proof {
                        lemma_fxs_square_nonneg(w as int);
                        lemma_fxs_div_nonneg(self.simulator.pendulum.g as int, wsq as int);
                    }
                    self.center_length = fx_div(self.simulator.pendulum.g, wsq);
                    self.note_event = Some(
                        NoteEvent { note, state: NoteState::Pressed(0), velocity: norm_u7(velocity) },
                    );
                },
                MidiEvent::NoteOff { note } => {
                    let ne: Option<NoteEvent> = self.note_event;
                    match ne {
                        Some(ev) => {
                            let pressed: bool = match ev.state {
                                NoteState::Pressed(_) => true,
                                NoteState::Released => false,
                            };
                            if ev.note == note && pressed {
                                self.note_event = Some(
                                    NoteEvent { state: NoteState::Released, ..ev },
                                );
                            }
                        },
                        None => {},
                    }
                },
                MidiEvent::ControlChange { controller, value } => {
                    if controller == MOD_WHEEL {
                        let norm: i64 = norm_u7(value);
                        self.params.chaoticity = fx_add(
                            CHAOTICITY_MIN,
                            fx_mul(norm, CHAOTICITY_MAX - CHAOTICITY_MIN),
                        );
                    }
                },
            }
            i = i + 1;
        }
        if self.lowpass.sample_rate != sample_rate {
            self.lowpass = LowPass::design(sample_rate);
        }
        let lengths: (i64, i64) = get_lengths(self.center_length, chaoticity);
        self.simulator.pendulum.length0 = lengths.0;
        self.simulator.pendulum.length1 = lengths.1;
        let ghost s1 = prelude_spec(*old(self), sample_rate, events@);
        proof {
            assert(*self == s1);
        }
        let len: usize = output.len();
        let frames: usize = len / channels;
        let elapsed: i64 = (1048576u64 / (sample_rate as u64)) as i64;
        let mut f: usize = 0;
        while f < frames
            invariant
                f <= frames,
                frames == len as int / channels as int,
                channels >= 1,
                sample_rate >= 1,
                *self == frames_spec(s1, f as nat),
                self.wf(),
                self.sample_rate == sample_rate,
                elapsed as int == (FX_SCALE as int) / (sample_rate as int),
                output@.len() == len,
                forall|j: int|
                    0 <= j < f * channels ==> output@[j] == sample_spec(
                        s1,
                        (j / channels as int) as nat,
                    ),
                forall|j: int| f * channels <= j < len ==> output@[j] == old(output)@[j],
            decreases frames - f,
        {
            proof {
                reveal(frame_spec);
            }
            let a: i64 = self.simulator.get_normalized_x();
            let filtered: i64 = self.lowpass.run(a);
            let clipped: i64 = fx_clamp_one(filtered);
            proof {
                assert(clipped as int == sample_spec(s1, f as nat));
            }
            let mut c: usize = 0;
            while c < channels
                invariant
                    c <= channels,
                    channels >= 1,
                    0 <= f < frames,
                    frames == len as int / channels as int,
                    clipped as int == sample_spec(s1, f as nat),
                    output@.len() == len,
                    forall|j: int|
                        0 <= j < f * channels ==> output@[j] == sample_spec(
                            s1,
                            (j / channels as int) as nat,
                        ),
                    forall|j: int|
                        f * channels <= j < f * channels + c ==> output@[j] == clipped as int,
                    forall|j: int|
                        f * channels + c <= j < len ==> output@[j] == old(output)@[j],
                decreases channels - c,
            {
                proof {
                    lemma_index_bound(f as int, c as int, channels as int, len as int);
                }
                let idx: usize = f * channels + c;
                output[idx] = clipped;
                c = c + 1;
            }
            let e: (i64, i64) = self.calculate_energy();
            self.simulator.update(elapsed, e.0, e.1);
            let ne: Option<NoteEvent> = self.note_event;
            match ne {
                Some(ev) => {
                    let mut st: NoteState = ev.state;
                    st.update(1);
                    self.note_event = Some(NoteEvent { state: st, ..ev });
                },
                None => {},
            }
            proof {
                assert(*self == frames_spec(s1, (f + 1) as nat));
                assert forall|j: int| 0 <= j < (f + 1) * channels implies output@[j] == sample_spec(
                    s1,
                    (j / channels as int) as nat,
                ) by {
                    assert((f + 1) * channels == f * channels + channels) by (nonlinear_arith);
                    if f * channels <= j {
                        let c0 = j - f * channels;
                        lemma_index_bound(f as int, c0, channels as int, len as int);
                    }
                }
                assert((f + 1) * channels == f * channels + channels) by (nonlinear_arith);
            }
            f = f + 1;
        }
    }
}

/// A synth that has never sounded: well formed, no active note, pendulum at
/// rest, filter history empty.
pub open spec fn silent_spec(s: Synth) -> bool {
    &&& s.wf()
    &&& s.note_event is None
    &&& s.simulator.pendulum.at_rest()
    &&& s.lowpass.quiescent()
}

/// Envelope phase selection: a pressed note within the decay delay selects
/// the attack branch at the full desired potential; past the delay it
/// selects the decay branch at the sustain fraction; once released it
/// always selects the release branch with a zero target, whatever the
/// elapsed count was; and with no note at all the target is zero with the
/// distinct `1 - release` response.
pub proof fn lemma_envelope_phase(s: Synth)
    ensures
        forall|ev: NoteEvent, e: u32|
            s.note_event == Some(ev) && ev.state == NoteState::Pressed(e) && in_attack_spec(
                e as int,
                clamp_spec(s.params.decay_delay as int, 0, DECAY_DELAY_MAX as int),
                s.sample_rate as int,
            ) ==> calc_energy_spec(s) == (
                desired_potential_spec(s, ev.velocity as int),
                response_spec(clamp_spec(s.params.attack as int, 0, FX_SCALE as int)),
            ),
        forall|ev: NoteEvent, e: u32|
            s.note_event == Some(ev) && ev.state == NoteState::Pressed(e) && !in_attack_spec(
                e as int,
                clamp_spec(s.params.decay_delay as int, 0, DECAY_DELAY_MAX as int),
                s.sample_rate as int,
            ) ==> calc_energy_spec(s) == (
                fxs_mul(
                    desired_potential_spec(s, ev.velocity as int),
                    clamp_spec(s.params.sustain as int, 0, FX_SCALE as int),
                ),
                response_spec(clamp_spec(s.params.decay as int, 0, FX_SCALE as int)),
            ),
        forall|ev: NoteEvent|
            s.note_event == Some(ev) && ev.state == NoteState::Released ==> calc_energy_spec(s)
                == (
                0int,
                response_spec(clamp_spec(s.params.release as int, 0, FX_SCALE as int)),
            ),
        s.note_event is None ==> calc_energy_spec(s) == (
            0int,
            fxs_sub(FX_SCALE as int, clamp_spec(s.params.release as int, 0, FX_SCALE as int)),
        ),
{
    reveal(calc_energy_spec);
}

/// A silent synth stays silent through one frame and emits a zero sample.
pub proof fn lemma_frame_spec_silent(s: Synth)
    requires
        silent_spec(s),
        s.sample_rate >= 1,
    ensures
        silent_spec(frame_spec(s).0),
        frame_spec(s).1 == 0,
        frame_spec(s).0.sample_rate == s.sample_rate,
{
    reveal(frame_spec);
    reveal(calc_energy_spec);
    crate::simulator::lemma_normalized_x_rest(s.simulator);
    crate::filter::lemma_run_spec_quiescent(s.lowpass);
    let sf = Synth { lowpass: run_spec(s.lowpass, 0).0, ..s };
    assert(sf == s);
    crate::simulator::lemma_sim_update_spec_rest(
        s.simulator,
        (FX_SCALE as int) / (s.sample_rate as int),
        fxs_sub(FX_SCALE as int, clamp_spec(s.params.release as int, 0, FX_SCALE as int)),
    );
}

/// A silent synth stays silent over any number of frames, every one of them
/// a zero sample.
pub proof fn lemma_frames_spec_silent(s: Synth, n: nat)
    requires
        silent_spec(s),
        s.sample_rate >= 1,
    ensures
        silent_spec(frames_spec(s, n)),
        frames_spec(s, n).sample_rate == s.sample_rate,
        forall|i: nat| i < n ==> sample_spec(s, i) == 0,
    decreases n,
{
    if n > 0 {
        lemma_frames_spec_silent(s, (n - 1) as nat);
        lemma_frame_spec_silent(frames_spec(s, (n - 1) as nat));
        assert(sample_spec(s, (n - 1) as nat) == 0);
    }
}

/// The silence invariant: with no note ever delivered, a render call
/// produces only zero samples, for any sample rate and buffer size, and the
/// synth is silent again afterwards.
pub proof fn lemma_render_silent(s: Synth, sample_rate: u32, n: nat)
    requires
        silent_spec(s),
        sample_rate >= 1,
    ensures
        silent_spec(frames_spec(prelude_spec(s, sample_rate, Seq::empty()), n)),
        forall|i: nat| i < n ==> sample_spec(prelude_spec(s, sample_rate, Seq::empty()), i) == 0,
{
    let s1 = prelude_spec(s, sample_rate, Seq::empty());
    let ch = clamp_spec(s.params.chaoticity as int, CHAOTICITY_MIN as int, CHAOTICITY_MAX as int);
    let lengths = lengths_spec(s.center_length as int, ch);
    assert(lengths.0 >= 0 && lengths.1 >= 0) by {
        lemma_fxs_mul_nonneg(ch, 524288);
        lemma_fxs_div_nonneg(
            s.center_length as int,
            nonzero_spec(fxs_add(FX_SCALE as int, fxs_mul(ch, 524288))),
        );
        lemma_fxs_mul_nonneg(lengths.0, ch);
    }
    assert(silent_spec(s1));
    lemma_frames_spec_silent(s1, n);
}

/// Length derivation at full chaoticity: with chaoticity one, the two
/// segments are exactly equal.
pub proof fn lemma_lengths_equal_at_full_chaoticity(cl: int)
    ensures
        lengths_spec(cl, FX_SCALE as int).1 == lengths_spec(cl, FX_SCALE as int).0,
{
    let den = nonzero_spec(fxs_add(FX_SCALE as int, fxs_mul(FX_SCALE as int, 524288)));
    let l0 = fxs_div(cl, den);
    assert(-FX_MAX <= l0 <= FX_MAX);
    assert(fxs_mul(l0, FX_SCALE as int) == l0) by {
        if l0 >= 0 {
            assert(crate::fx::fx_iabs(l0 * FX_SCALE) == l0 * FX_SCALE) by (nonlinear_arith)
                requires
                    l0 >= 0,
                    FX_SCALE == 1048576;
            vstd::arithmetic::div_mod::lemma_div_multiples_vanish(l0, FX_SCALE as int);
            assert(l0 * FX_SCALE == FX_SCALE * l0) by (nonlinear_arith);
        } else {
            assert(crate::fx::fx_iabs(l0 * FX_SCALE) == (-l0) * FX_SCALE) by (nonlinear_arith)
                requires
                    l0 < 0,
                    FX_SCALE == 1048576;
            vstd::arithmetic::div_mod::lemma_div_multiples_vanish(-l0, FX_SCALE as int);
            assert((-l0) * FX_SCALE == FX_SCALE * (-l0)) by (nonlinear_arith);
        }
    }
}

/// Length derivation at the bottom of the chaoticity range: the second
/// segment is at most an eighth of the first, far shorter.
pub proof fn lemma_lengths_small_chaoticity(cl: int, ch: int)
    requires
        cl >= 0,
        0 <= ch <= CHAOTICITY_MIN,
    ensures
        0 <= 8 * lengths_spec(cl, ch).1 <= lengths_spec(cl, ch).0,
{
    let den = nonzero_spec(fxs_add(FX_SCALE as int, fxs_mul(ch, 524288)));
    lemma_fxs_mul_nonneg(ch, 524288);
    lemma_fxs_div_nonneg(cl, den);
    let l0 = fxs_div(cl, den);
    lemma_fxs_mul_nonneg(l0, ch);
    let x = l0 * ch;
    assert(l0 * ch >= 0 && l0 * ch <= l0 * 104858) by (nonlinear_arith)
        requires
            l0 >= 0,
            0 <= ch <= 104858;
    assert(x >= 0 && x <= l0 * (CHAOTICITY_MIN as int));
    assert(crate::fx::fx_iabs(x) == x);
    let t = x / (FX_SCALE as int);
    vstd::arithmetic::div_mod::lemma_fundamental_div_mod(x, FX_SCALE as int);
    vstd::arithmetic::div_mod::lemma_mod_bound(x, FX_SCALE as int);
    assert(t >= 0) by (nonlinear_arith)
        requires
            x >= 0,
            x == (FX_SCALE as int) * t + x % (FX_SCALE as int),
            0 <= x % (FX_SCALE as int) < FX_SCALE;
    assert((FX_SCALE as int) * t <= x);
    assert((FX_SCALE as int) * (8 * t) <= 8 * x) by (nonlinear_arith)
        requires
            (FX_SCALE as int) * t <= x;
    assert(8 * x <= (FX_SCALE as int) * l0) by (nonlinear_arith)
        requires
            x <= l0 * (CHAOTICITY_MIN as int),
            l0 >= 0,
            CHAOTICITY_MIN == 104858,
            FX_SCALE == 1048576;
    assert(8 * t <= l0) by (nonlinear_arith)
        requires
            (FX_SCALE as int) * (8 * t) <= (FX_SCALE as int) * l0,
            FX_SCALE == 1048576;
}

/// Length derivation is linear in the budget: doubling the budget doubles
/// the first segment, up to the one unit division truncation can lose.
pub proof fn lemma_lengths_linear(cl: int, ch: int)
    requires
        0 <= cl,
        2 * cl <= FX_MAX,
        0 <= ch,
    ensures
        2 * lengths_spec(cl, ch).0 <= lengths_spec(fxs_add(cl, cl), ch).0 <= 2 * lengths_spec(
            cl,
            ch,
        ).0 + 1,
{
    let den = nonzero_spec(fxs_add(FX_SCALE as int, fxs_mul(ch, 524288)));
    lemma_fxs_mul_nonneg(ch, 524288);
    assert(den >= FX_SCALE);
    let x = cl * FX_SCALE;
    assert(cl * (FX_SCALE as int) >= 0) by (nonlinear_arith)
        requires
            cl >= 0,
            FX_SCALE == 1048576;
    assert(x >= 0);
    assert(crate::fx::fx_iabs(x) == x);
    let t = x / den;
    assert(fxs_add(cl, cl) == 2 * cl);
    let x2 = (2 * cl) * FX_SCALE;
    assert((2 * cl) * (FX_SCALE as int) == 2 * (cl * (FX_SCALE as int))) by (nonlinear_arith);
    assert(x2 == 2 * x);
    assert(crate::fx::fx_iabs(x2) == x2);
    let t2 = x2 / den;
    vstd::arithmetic::div_mod::lemma_fundamental_div_mod(x, den);
    vstd::arithmetic::div_mod::lemma_mod_bound(x, den);
    let r = x % den;
    assert(x == den * t + r);
    assert(x2 == den * (2 * t) + 2 * r) by (nonlinear_arith)
        requires
            x == den * t + r,
            x2 == 2 * x;
    assert(t >= 0) by (nonlinear_arith)
        requires
            x >= 0,
            x == den * t + r,
            0 <= r < den,
            den >= 1;
    if 2 * r < den {
        vstd::arithmetic::div_mod::lemma_div_multiples_vanish_fancy(2 * t, 2 * r, den);
        assert(t2 == 2 * t);
    } else {
        assert(x2 == den * (2 * t + 1) + (2 * r - den)) by (nonlinear_arith)
            requires
                x2 == den * (2 * t) + 2 * r;
        vstd::arithmetic::div_mod::lemma_div_multiples_vanish_fancy(2 * t + 1, 2 * r - den, den);
        assert(t2 == 2 * t + 1);
    }
    assert(0 <= t2 <= 2 * t + 1);
    assert(t <= cl) by {
        vstd::arithmetic::div_mod::lemma_div_is_ordered_by_denominator(x, FX_SCALE as int, den);
        assert(x / (FX_SCALE as int) == cl) by {
            vstd::arithmetic::div_mod::lemma_div_multiples_vanish(cl, FX_SCALE as int);
            assert(cl * FX_SCALE == (FX_SCALE as int) * cl) by (nonlinear_arith);
        }
    }
    assert(t2 <= 2 * cl + 1);
}

/// Every rendered sample is clamped into `[-1, 1]`: the output is bounded
/// whatever the physics does.
pub proof fn lemma_sample_bounded(s: Synth, i: nat)
    ensures
        -FX_SCALE <= sample_spec(s, i) <= FX_SCALE,
{
    reveal(frame_spec);
}

/// Angle wrapping: one integration step leaves both angles strictly inside
/// `(-2*pi, 2*pi)`, so they stay bounded over any number of steps.
pub proof fn lemma_step_wraps_angles(p: crate::pendulum::Pendulum, elapsed: int)
    ensures
        crate::pendulum::step_spec(p, elapsed).angles_wrapped(),
{
    reveal(crate::pendulum::step_spec);
}

} // verus!
