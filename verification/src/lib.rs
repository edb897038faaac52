//! A monophonic software instrument that turns note events into an audio
//! signal by simulating a chaotic double pendulum and shaping its motion with
//! an energy-based envelope.
//!
//! All physical quantities are carried in a saturating fixed-point format
//! (see [`fx`]), so the whole synthesis path is exact integer arithmetic.
//! Samples leave [`synth::Synth::render`] in the same format; a host converts
//! them to whatever its audio device wants.

pub mod envelope;
pub mod filter;
pub mod fx;
pub mod pendulum;
pub mod simulator;
pub mod synth;
pub mod trig;
