//! Plain-value types exchanged with a host across the library boundary.
//!
//! A host hands times over as a whole-seconds plus sub-second-nanoseconds
//! pair, receives numeric result codes, and selects a PCM encoding by tag.
//! The actual marshalling (pointers, buffers, float encodings) lives outside
//! the library; only the value-level conversions are defined here.

use vstd::prelude::*;

use crate::fixed::{Fixed, FIXED_SCALE};
use crate::time::{sat_time, Time};

verus! {

/// The quantised integer for an amplitude: the linear rescale of `[-1, 1]`
/// onto `[lo, hi]`, rounded to the nearest step and clamped onto the range.
pub open spec fn spec_quantise(x: Fixed, lo: int, hi: int) -> int {
    if x.numer < -FIXED_SCALE {
        lo
    } else {
        let rounded = ((x.numer + FIXED_SCALE) * (hi - lo) + FIXED_SCALE) / (2 * FIXED_SCALE as int);
        if rounded > hi - lo {
            hi
        } else {
            lo + rounded
        }
    }
}

/// Maps an amplitude from `[-1, 1]` onto an integer output range, rounding
/// to the nearest step and clamping on the range; used for the integer PCM
/// encodings a host can request.
pub fn quantise(x: Fixed, output_min: i64, output_max: i64) -> (r: i64)
    requires
        -0x1_0000_0000 <= output_min < output_max <= 0x1_0000_0000,
    ensures
        r == spec_quantise(x, output_min as int, output_max as int),
        output_min <= r <= output_max,
{
    if x.numer < -FIXED_SCALE {
        return output_min;
    }
    let shifted = ((x.numer as i128) + FIXED_SCALE as i128) as u128;
    let span = (output_max - output_min) as u128;
    proof {
        assert(shifted * span <= 0x8000_0000_4000_0000u128 * 0x2_0000_0000u128)
            by (nonlinear_arith)
            requires
                shifted <= 0x8000_0000_4000_0000u128,
                span <= 0x2_0000_0000u128,
        ;
        vstd::arithmetic::div_mod::lemma_div_pos_is_pos(
            shifted as int * span as int + FIXED_SCALE as int,
            2 * FIXED_SCALE as int,
        );
    }
    let rounded = (shifted * span + 1_000_000_000u128) / 2_000_000_000u128;
    if rounded > span {
        output_max
    } else {
        output_min + rounded as i64
    }
}

/// The fixed-point amplitude for an integer PCM value: the linear rescale of
/// `[lo, hi]` onto `[-1, 1]`, rounding down to the resolution.
pub open spec fn spec_normalise(v: int, lo: int, hi: int) -> int {
    2 * (v - lo) * (FIXED_SCALE as int) / (hi - lo) - FIXED_SCALE
}

/// Maps an integer PCM value from its encoding range onto an amplitude in
/// `[-1, 1]`; used when a host hands raw integer sample data in.
pub fn normalise(value: i64, input_min: i64, input_max: i64) -> (r: Fixed)
    requires
        -0x1_0000_0000 <= input_min < input_max <= 0x1_0000_0000,
        input_min <= value <= input_max,
    ensures
        r.numer == spec_normalise(value as int, input_min as int, input_max as int),
        -FIXED_SCALE <= r.numer <= FIXED_SCALE,
{
    let offset = (2 * (value - input_min)) as u128;
    let span = (input_max - input_min) as u128;
    proof {
        assert(offset * 1_000_000_000u128 <= 0x4_0000_0000u128 * 1_000_000_000u128)
            by (nonlinear_arith)
            requires
                offset <= 0x4_0000_0000u128,
        ;
        assert(offset as int * 1_000_000_000 <= (span as int * 2) * 1_000_000_000)
            by (nonlinear_arith)
            requires
                offset <= span * 2,
        ;
        assert((span as int * 2) * 1_000_000_000 == span as int * (2 * 1_000_000_000))
            by (nonlinear_arith);
        vstd::arithmetic::div_mod::lemma_div_is_ordered(
            offset as int * 1_000_000_000,
            span as int * (2 * 1_000_000_000),
            span as int,
        );
        vstd::arithmetic::div_mod::lemma_div_multiples_vanish(2int * 1_000_000_000, span as int);
        vstd::arithmetic::div_mod::lemma_div_pos_is_pos(
            offset as int * 1_000_000_000,
            span as int,
        );
    }
    let scaled = offset * 1_000_000_000u128 / span;
    Fixed { numer: (scaled as i64) - FIXED_SCALE }
}

/// A time as a host supplies it: whole seconds and sub-second nanoseconds.
/// Unlike [`Time`], the nanosecond field may hold a second or more; the
/// conversion normalises it.
#[derive(Clone, Copy, Debug, PartialEq, Eq, Structural)]
pub struct PomDuration {
    pub seconds: u64,
    pub nanoseconds: u32,
}

impl PomDuration {
    /// Converts the pair into the library's time representation. The value
    /// round-trips exactly, except that a sum overflowing the whole-seconds
    /// field saturates to the maximum representable time.
    pub fn to_rust(&self) -> (r: Time)
        ensures
            r.wf(),
            r@ == sat_time(self.seconds as int * 1_000_000_000 + self.nanoseconds as int),
    {
        Time::new(self.seconds, self.nanoseconds)
    }

    /// Splits a library time back into the host's pair form.
    pub fn from_time(t: Time) -> (r: PomDuration)
        ensures
            r.seconds == t.secs,
            r.nanoseconds == t.nanos,
    {
        PomDuration { seconds: t.secs, nanoseconds: t.nanos }
    }
}

/// Outcome of a boundary call.
#[derive(Clone, Copy, Debug, PartialEq, Eq, Structural)]
pub enum PomResult {
    Success,
    InvalidInput,
}

impl PomResult {
    /// The numeric code a host sees for this outcome.
    pub fn code(self) -> (r: i32)
        ensures
            r == (match self {
                PomResult::Success => 0int,
                PomResult::InvalidInput => 1int,
            }),
    {
        match self {
            PomResult::Success => 0,
            PomResult::InvalidInput => 1,
        }
    }
}

/// Numeric encoding a host selects for raw sample buffers.
#[derive(Clone, Copy, Debug, PartialEq, Eq, Structural)]
pub enum PomSampleFormat {
    U8,
    I16,
    I32,
    F32,
    F64,
}

impl PomSampleFormat {
    /// Decodes a host-supplied format tag; an unknown tag is rejected.
    pub fn from_code(code: i32) -> (r: Option<PomSampleFormat>)
        ensures
            r == (match code {
                0 => Some(PomSampleFormat::U8),
                1 => Some(PomSampleFormat::I16),
                2 => Some(PomSampleFormat::I32),
                3 => Some(PomSampleFormat::F32),
                4 => Some(PomSampleFormat::F64),
                _ => None::<PomSampleFormat>,
            }),
    {
        match code {
            0 => Some(PomSampleFormat::U8),
            1 => Some(PomSampleFormat::I16),
            2 => Some(PomSampleFormat::I32),
            3 => Some(PomSampleFormat::F32),
            4 => Some(PomSampleFormat::F64),
            _ => None,
        }
    }
}

} // verus!
