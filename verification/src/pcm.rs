//! PCM clips and the bank that owns them.
//!
//! A clip is an ordered sequence of amplitudes plus a playback rate and loop
//! bounds in period units. Lookup is silent-by-design: a phase offset that
//! reaches before the clip's start, a loop of zero length, or an index past
//! the data all answer amplitude zero rather than failing.

use vstd::prelude::*;

use std::collections::HashMap;

use crate::fixed::{div_numer, mag, mul_numer, Fixed, FIXED_SCALE};
use crate::time::{sat_time, wrap_duration, Period, Time};

verus! {

broadcast use vstd::std_specs::hash::group_hash_axioms;

/// Identifier of a PCM clip within a [`SampleBank`].
pub type SampleID = u64;

/// A PCM clip: amplitude data plus rate and loop metadata in period units.
#[derive(Debug)]
pub struct Sample {
    /// How many data entries one whole period covers.
    pub samples_per_period: Fixed,
    /// Until this period the clip plays linearly.
    pub loop_point: Period,
    /// Past the loop point, playback wraps with this period length.
    pub loop_duration: Period,
    /// The recorded amplitudes.
    pub pcm_data: Vec<Fixed>,
}

impl Default for Sample {
    /// An empty, silent clip.
    fn default() -> (r: Self)
        ensures
            r.wf(),
            r.samples_per_period.numer == 0,
            r.loop_point@ == 0,
            r.loop_duration@ == 0,
            r.pcm_data@.len() == 0,
    {
        Sample {
            samples_per_period: Fixed::zero(),
            loop_point: Time::zero(),
            loop_duration: Time::zero(),
            pcm_data: Vec::new(),
        }
    }
}

impl Sample {
    /// The loop bounds are well-formed times.
    pub open spec fn wf(self) -> bool {
        &&& self.loop_point.wf()
        &&& self.loop_duration.wf()
    }

    /// Builds a clip from loop bounds given in seconds: they convert to
    /// period units through the clip's rate (periods per second is the
    /// sample rate over the entries per period).
    pub fn new(
        data: Vec<Fixed>,
        samples_per_second: Fixed,
        samples_per_period: Fixed,
        loop_point_secs: Fixed,
        loop_duration_secs: Fixed,
    ) -> (r: Sample)
        requires
            samples_per_period.numer > 0,
            samples_per_second.numer >= 0,
            loop_point_secs.numer >= 0,
            loop_duration_secs.numer >= 0,
        ensures
            r.wf(),
            r.samples_per_period == samples_per_period,
            r.pcm_data == data,
            ({
                let pps = div_numer(samples_per_second.numer as int, samples_per_period.numer as int);
                &&& r.loop_point@ == sat_time(mul_numer(loop_point_secs.numer as int, pps))
                &&& r.loop_duration@ == sat_time(mul_numer(loop_duration_secs.numer as int, pps))
            }),
    {
        let periods_per_second = samples_per_second.div(samples_per_period);
        let lp = loop_point_secs.mul(periods_per_second);
        let ld = loop_duration_secs.mul(periods_per_second);
        proof {
            lemma_nonneg_scale(samples_per_second.numer as int, samples_per_period.numer as int);
            lemma_nonneg_product(loop_point_secs.numer as int, periods_per_second.numer as int);
            lemma_nonneg_product(loop_duration_secs.numer as int, periods_per_second.numer as int);
        }
        Sample {
            samples_per_period,
            loop_point: Time::from_nanos_saturating(lp.numer as u128),
            loop_duration: Time::from_nanos_saturating(ld.numer as u128),
            pcm_data: data,
        }
    }

    /// The period actually addressed, after the phase offset and the loop
    /// rules are applied; `None` when a negative offset reaches before the
    /// clip's start, or when the loop has zero length.
    pub open spec fn addressed_period(self, period: Period, phase_offset: Fixed) -> Option<int> {
        if phase_offset.numer < 0 && -(phase_offset.numer as int) > period@ {
            None
        } else {
            let shifted = if phase_offset.numer < 0 {
                period@ + phase_offset.numer
            } else {
                sat_time(period@ + phase_offset.numer)
            };
            if shifted < self.loop_point@ {
                Some(shifted)
            } else if self.loop_duration@ == 0 {
                None
            } else {
                Some(sat_time(self.loop_point@ + (shifted - self.loop_point@) % self.loop_duration@))
            }
        }
    }

    /// The data index a period maps to: the period scaled by the playback
    /// rate, in whole units. A negative rate clamps to index zero.
    pub open spec fn index_of(self, addressed: int) -> int {
        if self.samples_per_period.numer < 0 {
            0int
        } else {
            sat_time(addressed * self.samples_per_period.numer / (FIXED_SCALE as int))
                / 1_000_000_000
        }
    }

    /// The amplitude answered for a period and phase offset.
    pub open spec fn spec_get(self, period: Period, phase_offset: Fixed) -> Fixed {
        match self.addressed_period(period, phase_offset) {
            None => (Fixed { numer: 0 }),
            Some(addressed) => {
                let idx = self.index_of(addressed);
                if 0 <= idx < self.pcm_data@.len() {
                    self.pcm_data@[idx]
                } else {
                    (Fixed { numer: 0 })
                }
            },
        }
    }

    /// Looks an amplitude up, per the design's silent edge rules.
    pub fn get(&self, period: Period, phase_offset: Fixed) -> (r: Fixed)
        requires
            self.wf(),
            period.wf(),
        ensures
            r == self.spec_get(period, phase_offset),
    {
        proof {
            crate::time::lemma_wf_bound(period);
        }
        let mut p: Period;
        if phase_offset.numer < 0 {
            let neg = Time::from_nanos_saturating(mag(phase_offset.numer) as u128);
            if period.lt(&neg) {
                return Fixed::zero();
            }
            p = period.saturating_sub(neg);
        } else {
            p = period.saturating_add(Time::from_nanos_saturating(phase_offset.numer as u128));
        }
        if !p.lt(&self.loop_point) {
            if self.loop_duration.as_nanos() == 0 {
                return Fixed::zero();
            }
            p = wrap_duration(p.saturating_sub(self.loop_point), self.loop_duration)
                .saturating_add(self.loop_point);
        }
        let scaled = p.saturating_mul_fixed(self.samples_per_period);
        proof {
            vstd::arithmetic::div_mod::lemma_fundamental_div_mod_converse(
                scaled@,
                1_000_000_000,
                scaled.secs as int,
                scaled.nanos as int,
            );
        }
        let idx = scaled.secs;
        if idx < self.pcm_data.len() as u64 {
            self.pcm_data[idx as usize]
        } else {
            Fixed::zero()
        }
    }
}

/// A quotient of non-negative scalars is non-negative.
proof fn lemma_nonneg_scale(a: int, b: int)
    requires
        a >= 0,
        b > 0,
    ensures
        div_numer(a, b) >= 0,
{
    assert(a * FIXED_SCALE >= 0) by (nonlinear_arith)
        requires
            a >= 0,
    ;
    vstd::arithmetic::div_mod::lemma_div_pos_is_pos(a * FIXED_SCALE, b);
}

/// A product of non-negative scalars is non-negative.
proof fn lemma_nonneg_product(a: int, b: int)
    requires
        a >= 0,
        b >= 0,
    ensures
        mul_numer(a, b) >= 0,
{
    assert(a * b >= 0) by (nonlinear_arith)
        requires
            a >= 0,
            b >= 0,
    ;
    vstd::arithmetic::div_mod::lemma_div_pos_is_pos(a * b, FIXED_SCALE as int);
}

/// LAW: a lookup whose index would reach at or past the data length answers
/// silence, never a fault; so does one whose addressed period is undefined
/// (an offset before the clip's start, or a zero-length loop).
pub proof fn lemma_get_out_of_range(s: Sample, period: Time, phase_offset: Fixed)
    requires
        match s.addressed_period(period, phase_offset) {
            Some(addressed) => s.index_of(addressed) >= s.pcm_data@.len(),
            None => true,
        },
    ensures
        s.spec_get(period, phase_offset).numer == 0,
{
}

/// LAW: once past the loop point, lookup is periodic with the loop duration:
/// two periods one whole loop apart address the same amplitude.
pub proof fn lemma_get_periodic(s: Sample, t1: Time, t2: Time)
    requires
        t1.wf(),
        t2.wf(),
        s.loop_duration@ > 0,
        t1@ >= s.loop_point@,
        t2@ == t1@ + s.loop_duration@,
    ensures
        s.spec_get(t2, (Fixed { numer: 0 })) == s.spec_get(t1, (Fixed { numer: 0 })),
{
    crate::time::lemma_wf_bound(t1);
    crate::time::lemma_wf_bound(t2);
    let ld = s.loop_duration@;
    let b1 = t1@ - s.loop_point@;
    vstd::arithmetic::div_mod::lemma_mod_multiples_vanish(1, b1, ld);
    assert(ld * 1 == ld) by (nonlinear_arith);
}

/// A mapping from clip identifiers to clips; keys are unique, and the bank
/// is read-only during synthesis.
#[derive(Debug)]
pub struct SampleBank {
    pub samples: HashMap<SampleID, Sample>,
}

impl Default for SampleBank {
    /// An empty bank.
    fn default() -> (r: Self)
        ensures
            r.wf(),
            r.samples@ == Map::<SampleID, Sample>::empty(),
    {
        SampleBank::new()
    }
}

impl SampleBank {
    /// Every clip in the bank is well-formed.
    pub open spec fn wf(self) -> bool {
        forall|id: SampleID| #[trigger]
            self.samples@.contains_key(id) ==> self.samples@[id].wf()
    }

    /// An empty bank.
    pub fn new() -> (r: SampleBank)
        ensures
            r.wf(),
            r.samples@ == Map::<SampleID, Sample>::empty(),
    {
        SampleBank { samples: HashMap::new() }
    }

    /// Inserts or replaces the clip stored under `id`.
    pub fn insert_sample(&mut self, id: SampleID, sample: Sample)
        requires
            old(self).wf(),
            sample.wf(),
        ensures
            final(self).wf(),
            final(self).samples@ == old(self).samples@.insert(id, sample),
    {
        self.samples.insert(id, sample);
    }
}

} // verus!
