//! The stateful voice: one waveform, one envelope, and playback state.
//!
//! An operator is driven through `play`, `sample`, `release` and `cut`. Its
//! start state is a three-valued tag — off, armed (play was called before any
//! time was observed), or started at a timestamp. Phase accumulates
//! continuously in a saturating period counter, so frequency changes mid-note
//! stay phase-continuous.

use vstd::prelude::*;

use crate::envelope::Envelope;
use crate::fixed::{mul_numer, sat64, Fixed, FIXED_SCALE};
use crate::pcm::{Sample, SampleBank, SampleID};
use crate::time::{sat_time, time_from_nanos, Period, Time};
use crate::waveform::Waveform;

verus! {

/// Where a voice stands in its life cycle.
#[derive(Clone, Copy, Debug, PartialEq, Eq, Structural)]
pub enum StartState {
    /// The note is off; sampling answers silence.
    Off,
    /// `play` was called before any global time was seen; the next `sample`
    /// call captures its time as the start.
    Armed,
    /// The note started at the carried timestamp.
    Started(Time),
}

/// Constants that tweak an operator's behaviour.
#[derive(Clone, Copy, Debug, PartialEq, Eq, Structural)]
pub struct OperatorModifiers {
    /// Scales every frequency handed to `play`.
    pub frequency_multiplier: Fixed,
    /// Scales every volume handed to `play`.
    pub volume_multiplier: Fixed,
    /// Added to every phase offset handed to `sample`.
    pub constant_phase_offset: Fixed,
}

impl Default for OperatorModifiers {
    /// The neutral modifiers: both multipliers one, no extra phase offset.
    fn default() -> (r: Self)
        ensures
            r.frequency_multiplier.numer == FIXED_SCALE,
            r.volume_multiplier.numer == FIXED_SCALE,
            r.constant_phase_offset.numer == 0,
    {
        OperatorModifiers {
            frequency_multiplier: Fixed::one(),
            volume_multiplier: Fixed::one(),
            constant_phase_offset: Fixed::zero(),
        }
    }
}

/// A voice producing an enveloped waveform at a set frequency.
#[derive(Debug)]
pub struct Operator {
    pub waveform: Waveform,
    pub envelope: Envelope,
    pub modifiers: OperatorModifiers,
    pub start_time: StartState,
    pub stop_point: Option<Time>,
    pub frequency: Fixed,
    pub peak_volume: Fixed,
    pub last_global_time: Option<Time>,
    pub current_waveform_period: Period,
}

impl Clone for Operator {
    /// A deep copy, playback state included: the clone is the same voice
    /// value, and driving one never affects the other.
    fn clone(&self) -> (res: Self)
        ensures
            res == *self,
    {
        Operator {
            waveform: self.waveform.clone(),
            envelope: self.envelope,
            modifiers: self.modifiers,
            start_time: self.start_time,
            stop_point: self.stop_point,
            frequency: self.frequency,
            peak_volume: self.peak_volume,
            last_global_time: self.last_global_time,
            current_waveform_period: self.current_waveform_period,
        }
    }
}

impl Default for Operator {
    /// A fresh, silent sine voice with an immediate envelope and neutral
    /// modifiers.
    fn default() -> (r: Self)
        ensures
            r.waveform == Waveform::Sine,
            r == (Operator {
                waveform: Waveform::Sine,
                envelope: (Envelope {
                    attack_time: (Time { secs: 0, nanos: 0 }),
                    halving_rate: (Fixed { numer: 0 }),
                    release_time: (Time { secs: 0, nanos: 0 }),
                }),
                modifiers: (OperatorModifiers {
                    frequency_multiplier: (Fixed { numer: FIXED_SCALE }),
                    volume_multiplier: (Fixed { numer: FIXED_SCALE }),
                    constant_phase_offset: (Fixed { numer: 0 }),
                }),
                start_time: StartState::Off,
                stop_point: None,
                frequency: (Fixed { numer: 0 }),
                peak_volume: (Fixed { numer: 0 }),
                last_global_time: None,
                current_waveform_period: (Time { secs: 0, nanos: 0 }),
            }),
    {
        Operator::new(Waveform::Sine, Envelope::default(), OperatorModifiers::default())
    }
}

impl Operator {
    /// A fresh, silent voice around a waveform, an envelope and modifiers.
    pub fn new(waveform: Waveform, envelope: Envelope, modifiers: OperatorModifiers) -> (r:
        Operator)
        ensures
            r == (Operator {
                waveform,
                envelope,
                modifiers,
                start_time: StartState::Off,
                stop_point: None,
                frequency: (Fixed { numer: 0 }),
                peak_volume: (Fixed { numer: 0 }),
                last_global_time: None,
                current_waveform_period: (Time { secs: 0, nanos: 0 }),
            }),
    {
        Operator {
            waveform,
            envelope,
            modifiers,
            start_time: StartState::Off,
            stop_point: None,
            frequency: Fixed::zero(),
            peak_volume: Fixed::zero(),
            last_global_time: None,
            current_waveform_period: Time::zero(),
        }
    }

    /// Time elapsed since the previous `sample` call, zero on the first.
    pub open spec fn spec_delta(self, t: Time) -> int {
        match self.last_global_time {
            Some(l) => if t@ >= l@ {
                t@ - l@
            } else {
                0int
            },
            None => 0int,
        }
    }

    /// The operator after `play`: peak volume and frequency are the scaled
    /// arguments, the stop point clears, and the note (re)arms at the
    /// last-seen global time, if any.
    pub open spec fn spec_play(self, frequency: Fixed, volume: Fixed) -> Operator {
        Operator {
            peak_volume: (Fixed {
                numer: mul_numer(volume.numer as int, self.modifiers.volume_multiplier.numer as int)
                    as i64,
            }),
            frequency: (Fixed {
                numer: mul_numer(
                    frequency.numer as int,
                    self.modifiers.frequency_multiplier.numer as int,
                ) as i64,
            }),
            start_time: match self.last_global_time {
                None => StartState::Armed,
                Some(l) => StartState::Started(l),
            },
            stop_point: None,
            ..self
        }
    }

    /// The operator after `release`: the stop point is set to the last-seen
    /// global time (or zero if none), once only.
    pub open spec fn spec_release(self) -> Operator {
        match self.stop_point {
            Some(_) => self,
            None => Operator {
                stop_point: Some(
                    match self.last_global_time {
                        Some(l) => l,
                        None => (Time { secs: 0, nanos: 0 }),
                    },
                ),
                ..self
            },
        }
    }

    /// The operator after `cut`: off, with no stop point.
    pub open spec fn spec_cut(self) -> Operator {
        Operator { start_time: StartState::Off, stop_point: None, ..self }
    }

    /// The operator after a `sample` call, paired with its output. Sampling
    /// always records the global time; an off note answers silence, an armed
    /// note starts now, a note in the future or past its envelope answers
    /// silence without advancing phase, and a sounding note advances its
    /// period by elapsed time times frequency and answers the enveloped,
    /// scaled waveform value.
    pub open spec fn spec_sample(self, bank: Map<SampleID, Sample>, t: Time, po: Fixed) -> (
        Operator,
        Option<Fixed>,
    ) {
        let with_time = Operator { last_global_time: Some(t), ..self };
        if self.start_time is Off {
            (with_time, None)
        } else {
            let start = match self.start_time {
                StartState::Started(st) => st,
                _ => t,
            };
            let started = Operator { start_time: StartState::Started(start), ..with_time };
            if t@ < start@ {
                (started, None)
            } else {
                let note_time = time_from_nanos(t@ - start@);
                match self.envelope.spec_sample_volume(note_time, self.stop_point) {
                    None => (started, None),
                    Some(envelope_multiplier) => {
                        let advance = if self.frequency.numer < 0 {
                            0int
                        } else {
                            sat_time(
                                self.spec_delta(t) * self.frequency.numer / (FIXED_SCALE as int),
                            )
                        };
                        let period = time_from_nanos(
                            sat_time(self.current_waveform_period@ + advance),
                        );
                        let advanced = Operator { current_waveform_period: period, ..started };
                        let offset = (Fixed {
                            numer: sat64(po.numer + self.modifiers.constant_phase_offset.numer)
                                as i64,
                        });
                        let wave = self.waveform.spec_sample(bank, period, offset);
                        let out = mul_numer(
                            mul_numer(wave.numer as int, envelope_multiplier.numer as int),
                            self.peak_volume.numer as int,
                        );
                        (advanced, Some((Fixed { numer: out as i64 })))
                    },
                }
            }
        }
    }

    /// Samples the voice at a global time. `None` stands for silence: the
    /// note is off, not yet started, or fully ended.
    pub fn sample(&mut self, data: &SampleBank, global_time: Time, phase_offset: Fixed) -> (r:
        Option<Fixed>)
        requires
            data.wf(),
            global_time.wf(),
        ensures
            *final(self) == old(self).spec_sample(data.samples@, global_time, phase_offset).0,
            r == old(self).spec_sample(data.samples@, global_time, phase_offset).1,
    {
        let delta = match self.last_global_time {
            Some(l) => global_time.saturating_sub(l),
            None => Time::zero(),
        };
        self.last_global_time = Some(global_time);
        let start_time = match self.start_time {
            StartState::Off => {
                return None;
            },
            StartState::Armed => {
                self.start_time = StartState::Started(global_time);
                global_time
            },
            StartState::Started(st) => st,
        };
        if global_time.lt(&start_time) {
            return None;
        }
        let note_time = global_time.saturating_sub(start_time);
        proof {
            crate::time::lemma_canonical(note_time);
        }
        let envelope_multiplier = match self.envelope.sample_volume(note_time, self.stop_point) {
            None => {
                return None;
            },
            Some(envelope_multiplier) => envelope_multiplier,
        };
        let advance = delta.saturating_mul_fixed(self.frequency);
        self.current_waveform_period = self.current_waveform_period.saturating_add(advance);
        proof {
            crate::time::lemma_canonical(self.current_waveform_period);
        }
        let offset = phase_offset.add(self.modifiers.constant_phase_offset);
        let wave = self.waveform.sample(data, self.current_waveform_period, offset);
        Some(wave.mul(envelope_multiplier).mul(self.peak_volume))
    }

    /// Starts (or restarts) the note at the last-seen global time, with the
    /// given frequency and volume scaled by the operator's modifiers.
    pub fn play(&mut self, frequency: Fixed, volume: Fixed)
        ensures
            *final(self) == old(self).spec_play(frequency, volume),
    {
        self.peak_volume = volume.mul(self.modifiers.volume_multiplier);
        self.frequency = frequency.mul(self.modifiers.frequency_multiplier);
        self.start_time = match self.last_global_time {
            None => StartState::Armed,
            Some(l) => StartState::Started(l),
        };
        self.stop_point = None;
    }

    /// Enters the release phase at the last-seen global time; idempotent
    /// once a stop point is set.
    pub fn release(&mut self)
        ensures
            *final(self) == old(self).spec_release(),
    {
        if self.stop_point.is_none() {
            self.stop_point = Some(
                match self.last_global_time {
                    Some(l) => l,
                    None => Time::zero(),
                },
            );
        }
    }

    /// Silences the voice immediately: back to the off state.
    pub fn cut(&mut self)
        ensures
            *final(self) == old(self).spec_cut(),
    {
        self.start_time = StartState::Off;
        self.stop_point = None;
    }
}

/// LAW: after `cut`, the very next `sample` call answers silence, whatever
/// the time, bank and offset.
pub proof fn lemma_cut_silences(op: Operator, bank: Map<SampleID, Sample>, t: Time, po: Fixed)
    ensures
        op.spec_cut().spec_sample(bank, t, po).1 is None,
{
}

/// LAW: `play` followed by `sample` at the very timestamp last observed
/// starts the note with zero elapsed note time; with a positive attack time
/// the envelope is still zero there, so the output amplitude is exactly zero.
pub proof fn lemma_play_starts_at_zero(
    op: Operator,
    frequency: Fixed,
    volume: Fixed,
    bank: Map<SampleID, Sample>,
    t: Time,
    po: Fixed,
)
    requires
        t.wf(),
        op.last_global_time == Some(t),
        op.envelope.attack_time@ > 0,
    ensures
        op.spec_play(frequency, volume).spec_sample(bank, t, po).1 == Some((Fixed { numer: 0 })),
{
    let played = op.spec_play(frequency, volume);
    let note_time = time_from_nanos(0);
    vstd::arithmetic::div_mod::lemma_basic_div(0, 1_000_000_000);
    vstd::arithmetic::div_mod::lemma_small_mod(0nat, 1_000_000_000nat);
    assert(note_time@ == 0);
    vstd::arithmetic::div_mod::lemma_basic_div(0, played.envelope.attack_time@);
    assert(0int * (FIXED_SCALE as int) == 0) by (nonlinear_arith);
    let env = played.envelope.spec_sample_volume(note_time, None);
    assert(env == Some((Fixed { numer: 0 })));
    let (advanced, out) = played.spec_sample(bank, t, po);
    let wave_n = out->Some_0.numer as int;
    vstd::arithmetic::div_mod::lemma_basic_div(0, FIXED_SCALE as int);
    assert(forall|w: int| #[trigger] (w * 0) == 0) by (nonlinear_arith);
    assert(forall|p: int| #[trigger] (0 * p) == 0) by (nonlinear_arith);
}

/// LAW: a release is seamless: up to and including the stop point itself, a
/// released voice samples to exactly the same output and phase state as the
/// same voice never released — only the recorded stop point differs.
pub proof fn lemma_release_is_continuous(
    op: Operator,
    bank: Map<SampleID, Sample>,
    t: Time,
    po: Fixed,
    start: Time,
    stop: Time,
)
    requires
        t.wf(),
        start@ >= 0,
        op.start_time == StartState::Started(start),
        op.stop_point == Some(stop),
        start@ <= t@,
        t@ - start@ <= stop@,
    ensures
        ({
            let free = Operator { stop_point: None, ..op };
            let released = op.spec_sample(bank, t, po);
            let unreleased = free.spec_sample(bank, t, po);
            &&& released.1 == unreleased.1
            &&& released.0 == Operator { stop_point: Some(stop), ..unreleased.0 }
        }),
{
    let note_time = time_from_nanos(t@ - start@);
    crate::time::lemma_wf_bound(t);
    crate::time::lemma_time_from_nanos_view(t@ - start@);
    crate::envelope::lemma_release_continuity(op.envelope, note_time, stop);
}

/// LAW: once released, sampling past the stop point plus the whole release
/// time answers silence: the note has fully ended.
pub proof fn lemma_release_runs_out(
    op: Operator,
    bank: Map<SampleID, Sample>,
    t: Time,
    po: Fixed,
    start: Time,
)
    requires
        t.wf(),
        start@ >= 0,
        op.start_time == StartState::Started(start),
        op.stop_point is Some,
        t@ >= start@,
        t@ - start@ > op.stop_point->Some_0@ + op.envelope.release_time@,
    ensures
        op.spec_sample(bank, t, po).1 is None,
{
    crate::time::lemma_wf_bound(t);
    crate::time::lemma_time_from_nanos_view(t@ - start@);
}

} // verus!
