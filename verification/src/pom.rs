//! The uniform voice capability set.
//!
//! Every voice kind — [`Operator`], [`Combinator`], [`Stacker`] and the
//! closed [`Voice`] union of them — supports the same five operations:
//! sample, play, cut, release and an owned deep copy. The trait states each
//! operation's whole contract once, over the voice's mathematical model, and
//! every implementation proves it.

use vstd::prelude::*;

use crate::combinator::{
    models_of, voice_cut, voice_play, voice_release, voice_step, Combinator, Voice, VoiceModel,
};
use crate::fixed::Fixed;
use crate::operator::Operator;
use crate::pcm::SampleBank;
use crate::stacker::Stacker;
use crate::time::Time;

verus! {

/// A synthesiser voice that supports phase-offset modulation.
pub trait Pom: Sized {
    /// The mathematical value this voice stands for.
    spec fn pom_model(self) -> VoiceModel;

    /// Samples the voice at a global time; `None` stands for silence (the
    /// note is off, not yet started, or fully ended) and may be replaced
    /// with a zero amplitude.
    fn sample(&mut self, data: &SampleBank, global_time: Time, phase_offset: Fixed) -> (r: Option<
        Fixed,
    >)
        requires
            data.wf(),
            global_time.wf(),
        ensures
            final(self).pom_model() == voice_step(
                old(self).pom_model(),
                data.samples@,
                global_time,
                phase_offset,
            ).0,
            r == voice_step(old(self).pom_model(), data.samples@, global_time, phase_offset).1,
    ;

    /// Starts the voice at the last-seen global time.
    fn play(&mut self, frequency: Fixed, volume: Fixed)
        ensures
            final(self).pom_model() == voice_play(old(self).pom_model(), frequency, volume),
    ;

    /// Stops the voice immediately.
    fn cut(&mut self)
        ensures
            final(self).pom_model() == voice_cut(old(self).pom_model()),
    ;

    /// Sets the voice into the release section of its envelope.
    fn release(&mut self)
        ensures
            final(self).pom_model() == voice_release(old(self).pom_model()),
    ;

    /// Clones the voice into an owned deep copy with the same model.
    fn box_clone(&self) -> (res: Box<Self>)
        ensures
            res.pom_model() == self.pom_model(),
    ;
}

impl Pom for Operator {
    open spec fn pom_model(self) -> VoiceModel {
        VoiceModel::Operator(self)
    }

    fn sample(&mut self, data: &SampleBank, global_time: Time, phase_offset: Fixed) -> (r: Option<
        Fixed,
    >) {
        Operator::sample(self, data, global_time, phase_offset)
    }

    fn play(&mut self, frequency: Fixed, volume: Fixed) {
        Operator::play(self, frequency, volume)
    }

    fn cut(&mut self) {
        Operator::cut(self)
    }

    fn release(&mut self) {
        Operator::release(self)
    }

    fn box_clone(&self) -> (res: Box<Self>) {
        Box::new(self.clone())
    }
}

impl Pom for Stacker {
    open spec fn pom_model(self) -> VoiceModel {
        VoiceModel::Stacker(self.operators@, self.instructions@)
    }

    fn sample(&mut self, data: &SampleBank, global_time: Time, phase_offset: Fixed) -> (r: Option<
        Fixed,
    >) {
        Stacker::sample(self, data, global_time, phase_offset)
    }

    fn play(&mut self, frequency: Fixed, volume: Fixed) {
        let ghost s0 = *self;
        Stacker::play(self, frequency, volume);
        proof {
            assert(self.operators@ =~= Seq::new(
                s0.operators@.len(),
                |i: int| s0.operators@[i].spec_play(frequency, volume),
            ));
        }
    }

    fn cut(&mut self) {
        let ghost s0 = *self;
        Stacker::cut(self);
        proof {
            assert(self.operators@ =~= Seq::new(
                s0.operators@.len(),
                |i: int| s0.operators@[i].spec_cut(),
            ));
        }
    }

    fn release(&mut self) {
        let ghost s0 = *self;
        Stacker::release(self);
        proof {
            assert(self.operators@ =~= Seq::new(
                s0.operators@.len(),
                |i: int| s0.operators@[i].spec_release(),
            ));
        }
    }

    fn box_clone(&self) -> (res: Box<Self>) {
        Box::new(self.clone())
    }
}

impl Pom for Combinator {
    open spec fn pom_model(self) -> VoiceModel {
        VoiceModel::Combinator(models_of(self.synths@), self.ty)
    }

    fn sample(&mut self, data: &SampleBank, global_time: Time, phase_offset: Fixed) -> (r: Option<
        Fixed,
    >) {
        Combinator::sample(self, data, global_time, phase_offset)
    }

    fn play(&mut self, frequency: Fixed, volume: Fixed) {
        Combinator::play(self, frequency, volume)
    }

    fn cut(&mut self) {
        Combinator::cut(self)
    }

    fn release(&mut self) {
        Combinator::release(self)
    }

    fn box_clone(&self) -> (res: Box<Self>) {
        Box::new(self.clone())
    }
}

impl Pom for Voice {
    open spec fn pom_model(self) -> VoiceModel {
        self.model()
    }

    fn sample(&mut self, data: &SampleBank, global_time: Time, phase_offset: Fixed) -> (r: Option<
        Fixed,
    >) {
        Voice::sample(self, data, global_time, phase_offset)
    }

    fn play(&mut self, frequency: Fixed, volume: Fixed) {
        Voice::play(self, frequency, volume)
    }

    fn cut(&mut self) {
        Voice::cut(self)
    }

    fn release(&mut self) {
        Voice::release(self)
    }

    fn box_clone(&self) -> (res: Box<Self>) {
        Box::new(self.clone())
    }
}

} // verus!
