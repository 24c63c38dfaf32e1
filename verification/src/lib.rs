//! A fixed-point software synthesiser.
//!
//! A host drives a graph of voices by repeatedly calling `sample` with a
//! monotonically non-decreasing global time; the graph answers with one
//! amplitude per call. Phase is tracked by a saturating fixed-point period
//! accumulator rather than a floating-point counter, so long sessions do not
//! lose precision. All scalar values (amplitudes, frequencies, volumes, phase
//! offsets) are [`fixed::Fixed`] values with nanosecond resolution.

pub mod boundary;
pub mod combinator;
pub mod envelope;
pub mod fixed;
pub mod operator;
pub mod pcm;
pub mod pom;
pub mod stacker;
pub mod time;
pub mod waveform;
