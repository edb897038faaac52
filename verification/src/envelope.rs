//! Note state and synth parameters.
//!
//! A note is either still pressed, counting the samples since its onset, or
//! released. The parameters are plain fixed-point values; a host writes them
//! from its interface, the audio path clamps every one of them on read, so
//! out-of-range writes are harmless.

use vstd::prelude::*;

use crate::fx::FX_SCALE;

verus! {

/// Lower bound of the chaoticity parameter, `0.1` in fixed-point units.
pub const CHAOTICITY_MIN: i64 = 104858;

/// Upper bound of the chaoticity parameter, `1.0` in fixed-point units.
pub const CHAOTICITY_MAX: i64 = 1048576;

/// Upper bound of the decay-delay parameter, ten seconds in fixed-point
/// units.
pub const DECAY_DELAY_MAX: i64 = 10 * 1048576;

/// The envelope state of the active note: still pressed, with the number of
/// samples since the onset, or already released.
#[derive(Clone, Copy, Debug, PartialEq, Eq, Structural)]
pub enum NoteState {
    /// The key is held; the payload counts samples since the note began.
    Pressed(u32),
    /// The key was released.
    Released,
}

/// The note state after `time` more samples: the elapsed count grows only
/// while the note is pressed, and saturates rather than wrapping.
pub open spec fn note_state_update_spec(s: NoteState, time: int) -> NoteState {
    match s {
        NoteState::Pressed(elapsed) => {
            if elapsed + time > u32::MAX {
                NoteState::Pressed(u32::MAX)
            } else {
                NoteState::Pressed((elapsed + time) as u32)
            }
        },
        NoteState::Released => NoteState::Released,
    }
}

impl NoteState {
    /// Accumulates elapsed samples while the note is pressed; a released
    /// note keeps no count.
    pub fn update(&mut self, time: u32)
        ensures
            *final(self) == note_state_update_spec(*old(self), time as int),
    {
        match self {
            NoteState::Pressed(elapsed) => {
                *elapsed = if *elapsed > u32::MAX - time {
                    u32::MAX
                } else {
                    *elapsed + time
                };
            },
            NoteState::Released => {},
        }
    }
}

/// The active note: its number, its envelope state, and its normalized
/// velocity in `[0, 1]` fixed-point units.
#[derive(Clone, Copy, Debug, PartialEq, Eq, Structural)]
pub struct NoteEvent {
    /// The note number, `0..=127`.
    pub note: u8,
    /// Pressed or released.
    pub state: NoteState,
    /// Normalized velocity, `0` to one in fixed-point units.
    pub velocity: i64,
}

/// A value clamped into `[lo, hi]`.
pub open spec fn clamp_spec(x: int, lo: int, hi: int) -> int {
    if x < lo {
        lo
    } else if x > hi {
        hi
    } else {
        x
    }
}

/// The synth parameters, each a single fixed-point value. A host may write
/// them at any time; every read by the audio path clamps into the valid
/// range.
#[derive(Clone, Copy, Debug, PartialEq, Eq, Structural)]
pub struct Params {
    /// How unevenly the pendulum length budget is split, `0.1` to one.
    pub chaoticity: i64,
    /// Attack smoothing, zero to one.
    pub attack: i64,
    /// Seconds of full-energy hold before the decay, zero to ten.
    pub decay_delay: i64,
    /// Decay smoothing, zero to one.
    pub decay: i64,
    /// Sustain level, zero to one.
    pub sustain: i64,
    /// Release smoothing, zero to one.
    pub release: i64,
}

impl Params {
    /// The default parameters: chaoticity and sustain at one half, the
    /// smoothing parameters and the decay delay at a tenth and a half
    /// second.
    pub open spec fn default_spec() -> Params {
        Params {
            chaoticity: 524288,
            attack: 104858,
            decay_delay: 524288,
            decay: 104858,
            sustain: 524288,
            release: 104858,
        }
    }

    /// The default parameters the synth starts with.
    pub fn default() -> (r: Params)
        ensures
            r == Params::default_spec(),
    {
        Params {
            chaoticity: 524288,
            attack: 104858,
            decay_delay: 524288,
            decay: 104858,
            sustain: 524288,
            release: 104858,
        }
    }

    /// The chaoticity, clamped into `[0.1, 1]`.
    pub fn get_chaoticity(&self) -> (r: i64)
        ensures
            r as int == clamp_spec(self.chaoticity as int, CHAOTICITY_MIN as int, CHAOTICITY_MAX as int),
            CHAOTICITY_MIN <= r <= CHAOTICITY_MAX,
    {
        if self.chaoticity < CHAOTICITY_MIN {
            CHAOTICITY_MIN
        } else if self.chaoticity > CHAOTICITY_MAX {
            CHAOTICITY_MAX
        } else {
            self.chaoticity
        }
    }

    /// The attack, clamped into `[0, 1]`.
    pub fn get_attack(&self) -> (r: i64)
        ensures
            r as int == clamp_spec(self.attack as int, 0, FX_SCALE as int),
            0 <= r <= FX_SCALE,
    {
        if self.attack < 0 {
            0
        } else if self.attack > FX_SCALE {
            FX_SCALE
        } else {
            self.attack
        }
    }

    /// The decay delay, clamped into `[0, 10]` seconds.
    pub fn get_decay_delay(&self) -> (r: i64)
        ensures
            r as int == clamp_spec(self.decay_delay as int, 0, DECAY_DELAY_MAX as int),
            0 <= r <= DECAY_DELAY_MAX,
    {
        if self.decay_delay < 0 {
            0
        } else if self.decay_delay > DECAY_DELAY_MAX {
            DECAY_DELAY_MAX
        } else {
            self.decay_delay
        }
    }

    /// The decay, clamped into `[0, 1]`.
    pub fn get_decay(&self) -> (r: i64)
        ensures
            r as int == clamp_spec(self.decay as int, 0, FX_SCALE as int),
            0 <= r <= FX_SCALE,
    {
        if self.decay < 0 {
            0
        } else if self.decay > FX_SCALE {
            FX_SCALE
        } else {
            self.decay
        }
    }

    /// The sustain, clamped into `[0, 1]`.
    pub fn get_sustain(&self) -> (r: i64)
        ensures
            r as int == clamp_spec(self.sustain as int, 0, FX_SCALE as int),
            0 <= r <= FX_SCALE,
    {
        if self.sustain < 0 {
            0
        } else if self.sustain > FX_SCALE {
            FX_SCALE
        } else {
            self.sustain
        }
    }

    /// The release, clamped into `[0, 1]`.
    pub fn get_release(&self) -> (r: i64)
        ensures
            r as int == clamp_spec(self.release as int, 0, FX_SCALE as int),
            0 <= r <= FX_SCALE,
    {
        if self.release < 0 {
            0
        } else if self.release > FX_SCALE {
            FX_SCALE
        } else {
            self.release
        }
    }
}

} // verus!
