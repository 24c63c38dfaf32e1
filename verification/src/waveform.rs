//! The waveform algebra: a recursive value describing a phase-to-amplitude
//! function.
//!
//! Sampling wraps the period's sub-cycle part together with the phase offset
//! into one phase in `[0, 1)` and dispatches on the variant. The sinusoid is
//! realised in fixed point as the standard parabolic approximation, exact at
//! the quarter points; the piecewise-linear variants are exact.

use vstd::prelude::*;

use crate::fixed::{sat64, Fixed, FIXED_SCALE};
use crate::pcm::{Sample, SampleBank, SampleID};
use crate::time::{Period, Time};

verus! {

/// A waveform, sampled with a phase wrapped to `[0, 1)`.
#[derive(Debug)]
pub enum Waveform {
    /// A sinusoid.
    Sine,
    /// A pulse wave with a given duty cycle.
    Pulse { duty_cycle: Fixed },
    /// A triangle wave.
    Triangle,
    /// A sawtooth wave.
    Sawtooth,
    /// A sawtooth wave, but negated.
    InvertedSawtooth,
    /// A PCM clip from a [`SampleBank`].
    PCM(SampleID),
    /// A constant, unchanging value.
    Constant(Fixed),
    /// Remaps the phase domain of `base` to `[0, waveform_active_percent)`;
    /// phases outside that window yield 0.
    Thin { base: Box<Waveform>, waveform_active_percent: Fixed },
    /// Phases greater than `waveform_active_percent` yield 0; the rest of
    /// the cycle plays `base` unchanged.
    Cut { base: Box<Waveform>, waveform_active_percent: Fixed },
    /// The absolute value of the output of `base`.
    Absolute(Box<Waveform>),
}

impl Default for Waveform {
    /// The default waveform is the sinusoid.
    fn default() -> (r: Self)
        ensures
            r == Waveform::Sine,
    {
        Waveform::Sine
    }
}

/// The wrapped phase, in numerator scale: the period's sub-cycle part plus
/// the Euclidean remainder of the phase offset, reduced into `[0, 1)`.
pub open spec fn wave_phase(period: Period, phase_offset: Fixed) -> int {
    (period@ % 1_000_000_000 + (phase_offset.numer as int) % 1_000_000_000) % 1_000_000_000
}

/// The numerator of the fixed-point sinusoid at a wrapped phase: the
/// parabola `16 p (1/2 - p)` on the first half cycle and its negation,
/// mirrored, on the second. It is exact at the quarter points and stays
/// within `[-1, 1]`.
pub open spec fn sine_numer(phase: int) -> int {
    let s = FIXED_SCALE as int;
    if phase < s / 2 {
        16 * phase * (s / 2 - phase) / s
    } else {
        -(16 * (phase - s / 2) * (s - phase) / s)
    }
}

/// The period handed to a thinned base waveform: the wrapped phase rescaled
/// so the active window spans one full cycle. A zero window is undefined by
/// the design; here it maps to period zero.
pub open spec fn thin_period(phase: int, active: int) -> Period {
    let n = if active == 0 {
        0int
    } else {
        phase * (FIXED_SCALE as int) / active
    };
    Time { secs: (n / 1_000_000_000) as u64, nanos: (n % 1_000_000_000) as u32 }
}

/// The period handed to a nested waveform: only the sub-cycle part.
pub open spec fn subcycle(period: Period) -> Period {
    Time { secs: 0, nanos: (period@ % 1_000_000_000) as u32 }
}

impl Waveform {
    /// The amplitude of this waveform for a period and phase offset, against
    /// a bank of PCM clips.
    pub open spec fn spec_sample(self, bank: Map<SampleID, Sample>, period: Period, phase_offset: Fixed) -> Fixed
        decreases self,
    {
        let s = FIXED_SCALE as int;
        let phase = wave_phase(period, phase_offset);
        match self {
            Waveform::Sine => (Fixed { numer: sine_numer(phase) as i64 }),
            Waveform::Pulse { duty_cycle } => if phase > duty_cycle.numer {
                (Fixed { numer: FIXED_SCALE })
            } else {
                (Fixed { numer: (-FIXED_SCALE) as i64 })
            },
            Waveform::Triangle => if phase < s / 2 {
                (Fixed { numer: (phase * 4 - s) as i64 })
            } else {
                (Fixed { numer: (3 * s - phase * 4) as i64 })
            },
            Waveform::Sawtooth => (Fixed { numer: (phase * 2 - s) as i64 }),
            Waveform::InvertedSawtooth => (Fixed { numer: (s - phase * 2) as i64 }),
            Waveform::PCM(sample_id) => if bank.contains_key(sample_id) {
                bank[sample_id].spec_get(period, phase_offset)
            } else {
                (Fixed { numer: 0 })
            },
            Waveform::Constant(value) => value,
            Waveform::Thin { base, waveform_active_percent } => if phase
                > waveform_active_percent.numer {
                (Fixed { numer: 0 })
            } else {
                base.spec_sample(bank, thin_period(phase, waveform_active_percent.numer as int), phase_offset)
            },
            Waveform::Cut { base, waveform_active_percent } => if phase
                > waveform_active_percent.numer {
                (Fixed { numer: 0 })
            } else {
                base.spec_sample(bank, subcycle(period), phase_offset)
            },
            Waveform::Absolute(base) => {
                let inner = base.spec_sample(bank, subcycle(period), phase_offset);
                (Fixed {
                    numer: sat64(
                        if inner.numer >= 0 {
                            inner.numer as int
                        } else {
                            -(inner.numer as int)
                        },
                    ) as i64,
                })
            },
        }
    }

    /// Samples the waveform. The period should *not* be wrapped beforehand:
    /// PCM clips address their data by the raw period.
    pub fn sample(&self, samples: &SampleBank, period: Period, phase_offset: Fixed) -> (r: Fixed)
        requires
            samples.wf(),
            period.wf(),
        ensures
            r == self.spec_sample(samples.samples@, period, phase_offset),
        decreases *self,
    {
        let sub = Time { secs: 0, nanos: period.nanos };
        proof {
            vstd::arithmetic::div_mod::lemma_fundamental_div_mod_converse(
                period@,
                1_000_000_000,
                period.secs as int,
                period.nanos as int,
            );
            assert(sub == subcycle(period));
        }
        let offset_rem = phase_offset.rem_one();
        let mut phase: i64 = sub.nanos as i64 + offset_rem.numer;
        proof {
            if phase < FIXED_SCALE {
                vstd::arithmetic::div_mod::lemma_small_mod(phase as nat, FIXED_SCALE as nat);
            } else {
                vstd::arithmetic::div_mod::lemma_fundamental_div_mod_converse(
                    phase as int,
                    1_000_000_000,
                    1,
                    phase - 1_000_000_000,
                );
            }
        }
        if phase >= FIXED_SCALE {
            phase = phase - FIXED_SCALE;
        }
        match self {
            Waveform::Sine => Fixed { numer: sine(phase) },
            Waveform::Pulse { duty_cycle } => {
                if phase > duty_cycle.numer {
                    Fixed { numer: FIXED_SCALE }
                } else {
                    Fixed { numer: -FIXED_SCALE }
                }
            },
            Waveform::Triangle => {
                if phase < FIXED_SCALE / 2 {
                    Fixed { numer: phase * 4 - FIXED_SCALE }
                } else {
                    Fixed { numer: 3 * FIXED_SCALE - phase * 4 }
                }
            },
            Waveform::Sawtooth => Fixed { numer: phase * 2 - FIXED_SCALE },
            Waveform::InvertedSawtooth => Fixed { numer: FIXED_SCALE - phase * 2 },
            Waveform::PCM(sample_id) => {
                match samples.samples.get(sample_id) {
                    Some(sample) => sample.get(period, phase_offset),
                    None => Fixed::zero(),
                }
            },
            Waveform::Constant(value) => *value,
            Waveform::Thin { base, waveform_active_percent } => {
                if phase > waveform_active_percent.numer {
                    Fixed::zero()
                } else {
                    let active = waveform_active_percent.numer;
                    let rescaled: u64 = if active == 0 {
                        0
                    } else {
                        proof {
                            assert(phase as int * 1_000_000_000 <= active as int * 1_000_000_000)
                                by (nonlinear_arith)
                                requires
                                    phase <= active,
                            ;
                            vstd::arithmetic::div_mod::lemma_div_is_ordered(
                                phase as int * 1_000_000_000,
                                active as int * 1_000_000_000,
                                active as int,
                            );
                            vstd::arithmetic::div_mod::lemma_div_multiples_vanish(
                                1_000_000_000,
                                active as int,
                            );
                            vstd::arithmetic::div_mod::lemma_div_pos_is_pos(
                                phase as int * 1_000_000_000,
                                active as int,
                            );
                        }
                        (phase as u64 * 1_000_000_000u64) / (active as u64)
                    };
                    let inner_period = Time::from_nanos_saturating(rescaled as u128);
                    proof {
                        vstd::arithmetic::div_mod::lemma_fundamental_div_mod(
                            rescaled as int,
                            1_000_000_000,
                        );
                        vstd::arithmetic::div_mod::lemma_mod_bound(rescaled as int, 1_000_000_000);
                        assert(inner_period == thin_period(
                            phase as int,
                            waveform_active_percent.numer as int,
                        ));
                    }
                    base.sample(samples, inner_period, phase_offset)
                }
            },
            Waveform::Cut { base, waveform_active_percent } => {
                if phase > waveform_active_percent.numer {
                    Fixed::zero()
                } else {
                    base.sample(samples, sub, phase_offset)
                }
            },
            Waveform::Absolute(base) => base.sample(samples, sub, phase_offset).abs_sat(),
        }
    }
}

impl Clone for Waveform {
    /// A deep copy: the clone is the same waveform value.
    fn clone(&self) -> (res: Self)
        ensures
            res == *self,
        decreases *self,
    {
        match self {
            Waveform::Sine => Waveform::Sine,
            Waveform::Pulse { duty_cycle } => Waveform::Pulse { duty_cycle: *duty_cycle },
            Waveform::Triangle => Waveform::Triangle,
            Waveform::Sawtooth => Waveform::Sawtooth,
            Waveform::InvertedSawtooth => Waveform::InvertedSawtooth,
            Waveform::PCM(sample_id) => Waveform::PCM(*sample_id),
            Waveform::Constant(value) => Waveform::Constant(*value),
            Waveform::Thin { base, waveform_active_percent } => Waveform::Thin {
                base: Box::new((&**base).clone()),
                waveform_active_percent: *waveform_active_percent,
            },
            Waveform::Cut { base, waveform_active_percent } => Waveform::Cut {
                base: Box::new((&**base).clone()),
                waveform_active_percent: *waveform_active_percent,
            },
            Waveform::Absolute(base) => Waveform::Absolute(Box::new((&**base).clone())),
        }
    }
}

/// The fixed-point sinusoid at a wrapped phase.
fn sine(phase: i64) -> (r: i64)
    requires
        0 <= phase < FIXED_SCALE,
    ensures
        r as int == sine_numer(phase as int),
        -FIXED_SCALE <= r <= FIXED_SCALE,
{
    proof {
        lemma_sine_range(phase as int);
    }
    let half = FIXED_SCALE / 2;
    if phase < half {
        ((16 * (phase as u64) * ((half - phase) as u64)) / (FIXED_SCALE as u64)) as i64
    } else {
        -(((16 * ((phase - half) as u64) * ((FIXED_SCALE - phase) as u64)) / (FIXED_SCALE as u64))
            as i64)
    }
}

/// The parabolic sinusoid stays within one unit of amplitude. On each half
/// cycle the product of the two phase factors is at most a squared quarter
/// cycle, which scales to exactly one.
pub proof fn lemma_sine_range(phase: int)
    requires
        0 <= phase < FIXED_SCALE,
    ensures
        -FIXED_SCALE <= sine_numer(phase) <= FIXED_SCALE,
        phase < (FIXED_SCALE as int) / 2 ==> sine_numer(phase) >= 0,
        phase >= (FIXED_SCALE as int) / 2 ==> sine_numer(phase) <= 0,
{
    let s = FIXED_SCALE as int;
    vstd::arithmetic::div_mod::lemma_fundamental_div_mod_converse(s, 2, 500_000_000, 0);
    if phase < s / 2 {
        let prod = 16 * phase * (s / 2 - phase);
        assert(0 <= prod <= s * s) by (nonlinear_arith)
            requires
                prod == 16 * phase * (s / 2 - phase),
                0 <= phase < s / 2,
                s / 2 == 500_000_000,
                s == 1_000_000_000,
        ;
        vstd::arithmetic::div_mod::lemma_div_pos_is_pos(prod, s);
        vstd::arithmetic::div_mod::lemma_div_is_ordered(prod, s * s, s);
        vstd::arithmetic::div_mod::lemma_div_by_multiple(s, s);
    } else {
        let prod = 16 * (phase - s / 2) * (s - phase);
        assert(0 <= prod <= s * s) by (nonlinear_arith)
            requires
                prod == 16 * (phase - s / 2) * (s - phase),
                s / 2 <= phase < s,
                s / 2 == 500_000_000,
                s == 1_000_000_000,
        ;
        vstd::arithmetic::div_mod::lemma_div_pos_is_pos(prod, s);
        vstd::arithmetic::div_mod::lemma_div_is_ordered(prod, s * s, s);
        vstd::arithmetic::div_mod::lemma_div_by_multiple(s, s);
    }
}

/// LAW: the pure oscillators — sine, pulse, triangle, sawtooth and inverted
/// sawtooth — always answer an amplitude within `[-1, 1]`, for every period
/// and phase offset.
pub proof fn lemma_pure_waveform_range(
    w: Waveform,
    bank: Map<SampleID, Sample>,
    period: Period,
    phase_offset: Fixed,
)
    requires
        w is Sine || w is Pulse || w is Triangle || w is Sawtooth || w is InvertedSawtooth,
    ensures
        -FIXED_SCALE <= w.spec_sample(bank, period, phase_offset).numer <= FIXED_SCALE,
{
    let phase = wave_phase(period, phase_offset);
    lemma_wave_phase_range(period, phase_offset);
    if w is Sine {
        lemma_sine_range(phase);
    }
}

/// LAW: a thinned waveform is silent whenever the wrapped phase exceeds the
/// active window.
pub proof fn lemma_thin_silent_past_window(
    base: Box<Waveform>,
    active: Fixed,
    bank: Map<SampleID, Sample>,
    period: Period,
    phase_offset: Fixed,
)
    requires
        wave_phase(period, phase_offset) > active.numer,
    ensures
        (Waveform::Thin { base, waveform_active_percent: active }).spec_sample(
            bank,
            period,
            phase_offset,
        ).numer == 0,
{
}

/// The wrapped phase always lies within one cycle.
pub proof fn lemma_wave_phase_range(period: Period, phase_offset: Fixed)
    ensures
        0 <= wave_phase(period, phase_offset) < FIXED_SCALE,
{
    vstd::arithmetic::div_mod::lemma_mod_bound(
        period@ % 1_000_000_000 + (phase_offset.numer as int) % 1_000_000_000,
        1_000_000_000,
    );
}

} // verus!
