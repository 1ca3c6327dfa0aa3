//! A step-sequenced synthesizer core in fixed-point arithmetic.
//!
//! Time is counted in microseconds, gains and samples in millionths
//! (`units::UNIT` is full scale), pitch in microhertz and oscillator phase
//! as a 32-bit fraction of a cycle.
pub mod units;
pub mod tone;
pub mod envelope;
pub mod waveform;
pub mod counting;
pub mod operator;
pub mod transport;
pub mod pattern;
pub mod mix;
pub mod instrument;
pub mod track;
pub mod meter;
pub mod router;
pub mod engine;
pub mod keyboard;
pub mod hex;
pub mod focus;
