//! Voice trees: heterogeneous children composed by summation or
//! phase-modulation chaining.
//!
//! A [`Voice`] is any of the three concrete voice kinds; a [`Combinator`]
//! owns an ordered sequence of child voices and a composition tag. Control
//! calls (`play`, `cut`, `release`) broadcast to every child in order.
//! Because the children live in vectors, the contracts speak of each voice
//! through its ghost [`VoiceModel`], a plain recursive value.

use vstd::prelude::*;

use crate::fixed::{sat64, Fixed};
use crate::operator::Operator;
use crate::pcm::{Sample, SampleBank, SampleID};
use crate::stacker::{spec_run, StackInstruction, Stacker};
use crate::time::Time;

verus! {

/// How a combinator folds its children.
#[derive(Clone, Copy, Debug, Hash, PartialEq, Eq, Structural)]
pub enum CombinatorType {
    /// Each child's output feeds the next child as its phase offset; the
    /// whole node answers whatever the last child answered.
    Modulate,
    /// The children's outputs are added, silence counting as zero; the node
    /// itself never reports the note as ended.
    Sum,
}

/// Any of the three voice kinds, composable into a tree.
#[derive(Debug)]
pub enum Voice {
    Operator(Operator),
    Combinator(Combinator),
    Stacker(Stacker),
}

/// A tree node owning child voices and a composition tag.
#[derive(Debug)]
pub struct Combinator {
    pub synths: Vec<Voice>,
    pub ty: CombinatorType,
}

/// The mathematical value of a voice: what the contracts range over.
pub ghost enum VoiceModel {
    Operator(Operator),
    Combinator(Seq<VoiceModel>, CombinatorType),
    Stacker(Seq<Operator>, Seq<StackInstruction>),
}

/// The models of a sequence of voices, in order.
pub open spec fn models_of(vs: Seq<Voice>) -> Seq<VoiceModel>
    decreases vs,
{
    if vs.len() == 0 {
        Seq::empty()
    } else {
        seq![vs[0].model()] + models_of(vs.drop_first())
    }
}

/// The models of a sequence of bare operators.
pub open spec fn operator_models(ops: Seq<Operator>) -> Seq<VoiceModel> {
    ops.map_values(|op: Operator| VoiceModel::Operator(op))
}

impl Voice {
    /// The mathematical value of this voice.
    pub open spec fn model(self) -> VoiceModel
        decreases self,
    {
        match self {
            Voice::Operator(op) => VoiceModel::Operator(op),
            Voice::Combinator(c) => VoiceModel::Combinator(models_of(c.synths@), c.ty),
            Voice::Stacker(s) => VoiceModel::Stacker(s.operators@, s.instructions@),
        }
    }
}

/// `models_of` maps the sequence pointwise.
pub proof fn lemma_models_of_facts(vs: Seq<Voice>)
    ensures
        models_of(vs).len() == vs.len(),
        forall|i: int| 0 <= i < vs.len() ==> models_of(vs)[i] == vs[i].model(),
    decreases vs.len(),
{
    if vs.len() != 0 {
        lemma_models_of_facts(vs.drop_first());
    }
}

/// A silent output counts as a zero amplitude.
pub open spec fn silence_as_zero(out: Option<Fixed>) -> Fixed {
    match out {
        Some(v) => v,
        None => (Fixed { numer: 0 }),
    }
}

/// One `sample` call on a voice: the voice afterwards, and its output.
pub open spec fn voice_step(
    v: VoiceModel,
    bank: Map<SampleID, Sample>,
    t: Time,
    po: Fixed,
) -> (VoiceModel, Option<Fixed>)
    decreases v,
{
    match v {
        VoiceModel::Operator(op) => {
            let stepped = op.spec_sample(bank, t, po);
            (VoiceModel::Operator(stepped.0), stepped.1)
        },
        VoiceModel::Stacker(ops, instrs) => {
            let run = spec_run(ops, instrs, bank, t, po, Seq::empty());
            (
                VoiceModel::Stacker(run.0, instrs),
                if run.1.len() == 0 {
                    None
                } else {
                    Some(run.1.last())
                },
            )
        },
        VoiceModel::Combinator(children, ty) => match ty {
            CombinatorType::Modulate => {
                let folded = modulate_step(children, bank, t, Some(po));
                (VoiceModel::Combinator(folded.0, ty), folded.1)
            },
            CombinatorType::Sum => {
                let folded = sum_step(children, bank, t, po, (Fixed { numer: 0 }));
                (VoiceModel::Combinator(folded.0, ty), Some(folded.1))
            },
        },
    }
}

/// The phase-modulation fold: each child is sampled with the running carry
/// as its phase offset (silence carried as zero), and the final carry is
/// whatever the last child answered — `None` exactly when the last child's
/// note has ended.
pub open spec fn modulate_step(
    children: Seq<VoiceModel>,
    bank: Map<SampleID, Sample>,
    t: Time,
    carry: Option<Fixed>,
) -> (Seq<VoiceModel>, Option<Fixed>)
    decreases children,
{
    if children.len() == 0 {
        (children, carry)
    } else {
        let first = voice_step(children[0], bank, t, silence_as_zero(carry));
        let rest = modulate_step(children.drop_first(), bank, t, first.1);
        (seq![first.0] + rest.0, rest.1)
    }
}

/// The summation fold: every child is sampled with the same phase offset and
/// the outputs are added left to right, silence counting as zero.
pub open spec fn sum_step(
    children: Seq<VoiceModel>,
    bank: Map<SampleID, Sample>,
    t: Time,
    po: Fixed,
    acc: Fixed,
) -> (Seq<VoiceModel>, Fixed)
    decreases children,
{
    if children.len() == 0 {
        (children, acc)
    } else {
        let first = voice_step(children[0], bank, t, po);
        let value = silence_as_zero(first.1);
        let rest = sum_step(
            children.drop_first(),
            bank,
            t,
            po,
            (Fixed { numer: sat64(acc.numer + value.numer) as i64 }),
        );
        (seq![first.0] + rest.0, rest.1)
    }
}

/// `play` broadcast through a voice.
pub open spec fn voice_play(v: VoiceModel, frequency: Fixed, volume: Fixed) -> VoiceModel
    decreases v,
{
    match v {
        VoiceModel::Operator(op) => VoiceModel::Operator(op.spec_play(frequency, volume)),
        VoiceModel::Stacker(ops, instrs) => VoiceModel::Stacker(
            Seq::new(ops.len(), |i: int| ops[i].spec_play(frequency, volume)),
            instrs,
        ),
        VoiceModel::Combinator(children, ty) => VoiceModel::Combinator(
            voices_play(children, frequency, volume),
            ty,
        ),
    }
}

/// `play` broadcast through a sequence of voices, in order.
pub open spec fn voices_play(children: Seq<VoiceModel>, frequency: Fixed, volume: Fixed) -> Seq<
    VoiceModel,
>
    decreases children,
{
    if children.len() == 0 {
        children
    } else {
        seq![voice_play(children[0], frequency, volume)] + voices_play(
            children.drop_first(),
            frequency,
            volume,
        )
    }
}

/// `cut` broadcast through a voice.
pub open spec fn voice_cut(v: VoiceModel) -> VoiceModel
    decreases v,
{
    match v {
        VoiceModel::Operator(op) => VoiceModel::Operator(op.spec_cut()),
        VoiceModel::Stacker(ops, instrs) => VoiceModel::Stacker(
            Seq::new(ops.len(), |i: int| ops[i].spec_cut()),
            instrs,
        ),
        VoiceModel::Combinator(children, ty) => VoiceModel::Combinator(voices_cut(children), ty),
    }
}

/// `cut` broadcast through a sequence of voices, in order.
pub open spec fn voices_cut(children: Seq<VoiceModel>) -> Seq<VoiceModel>
    decreases children,
{
    if children.len() == 0 {
        children
    } else {
        seq![voice_cut(children[0])] + voices_cut(children.drop_first())
    }
}

/// `release` broadcast through a voice.
pub open spec fn voice_release(v: VoiceModel) -> VoiceModel
    decreases v,
{
    match v {
        VoiceModel::Operator(op) => VoiceModel::Operator(op.spec_release()),
        VoiceModel::Stacker(ops, instrs) => VoiceModel::Stacker(
            Seq::new(ops.len(), |i: int| ops[i].spec_release()),
            instrs,
        ),
        VoiceModel::Combinator(children, ty) => VoiceModel::Combinator(
            voices_release(children),
            ty,
        ),
    }
}

/// `release` broadcast through a sequence of voices, in order.
pub open spec fn voices_release(children: Seq<VoiceModel>) -> Seq<VoiceModel>
    decreases children,
{
    if children.len() == 0 {
        children
    } else {
        seq![voice_release(children[0])] + voices_release(children.drop_first())
    }
}

impl Voice {
    /// Samples this voice: dispatches to the concrete kind.
    pub fn sample(&mut self, data: &SampleBank, global_time: Time, phase_offset: Fixed) -> (r:
        Option<Fixed>)
        requires
            data.wf(),
            global_time.wf(),
        ensures
            final(self).model() == voice_step(
                old(self).model(),
                data.samples@,
                global_time,
                phase_offset,
            ).0,
            r == voice_step(old(self).model(), data.samples@, global_time, phase_offset).1,
        decreases *old(self),
    {
        match self {
            Voice::Operator(op) => op.sample(data, global_time, phase_offset),
            Voice::Combinator(c) => c.sample(data, global_time, phase_offset),
            Voice::Stacker(s) => s.sample(data, global_time, phase_offset),
        }
    }

    /// Starts every operator under this voice.
    pub fn play(&mut self, frequency: Fixed, volume: Fixed)
        ensures
            final(self).model() == voice_play(old(self).model(), frequency, volume),
        decreases *old(self),
    {
        match self {
            Voice::Operator(op) => op.play(frequency, volume),
            Voice::Combinator(c) => c.play(frequency, volume),
            Voice::Stacker(s) => {
                let ghost s0 = *s;
                s.play(frequency, volume);
                proof {
                    assert(s.operators@ =~= Seq::new(
                        s0.operators@.len(),
                        |i: int| s0.operators@[i].spec_play(frequency, volume),
                    ));
                }
            },
        }
    }

    /// Silences every operator under this voice.
    pub fn cut(&mut self)
        ensures
            final(self).model() == voice_cut(old(self).model()),
        decreases *old(self),
    {
        match self {
            Voice::Operator(op) => op.cut(),
            Voice::Combinator(c) => c.cut(),
            Voice::Stacker(s) => {
                let ghost s0 = *s;
                s.cut();
                proof {
                    assert(s.operators@ =~= Seq::new(
                        s0.operators@.len(),
                        |i: int| s0.operators@[i].spec_cut(),
                    ));
                }
            },
        }
    }

    /// Releases every operator under this voice.
    pub fn release(&mut self)
        ensures
            final(self).model() == voice_release(old(self).model()),
        decreases *old(self),
    {
        match self {
            Voice::Operator(op) => op.release(),
            Voice::Combinator(c) => c.release(),
            Voice::Stacker(s) => {
                let ghost s0 = *s;
                s.release();
                proof {
                    assert(s.operators@ =~= Seq::new(
                        s0.operators@.len(),
                        |i: int| s0.operators@[i].spec_release(),
                    ));
                }
            },
        }
    }
}

/// `voices_play` maps the sequence pointwise.
pub proof fn lemma_voices_play_facts(children: Seq<VoiceModel>, frequency: Fixed, volume: Fixed)
    ensures
        voices_play(children, frequency, volume).len() == children.len(),
        forall|i: int|
            0 <= i < children.len() ==> voices_play(children, frequency, volume)[i] == voice_play(
                children[i],
                frequency,
                volume,
            ),
    decreases children.len(),
{
    if children.len() != 0 {
        lemma_voices_play_facts(children.drop_first(), frequency, volume);
    }
}

/// `voices_cut` maps the sequence pointwise.
pub proof fn lemma_voices_cut_facts(children: Seq<VoiceModel>)
    ensures
        voices_cut(children).len() == children.len(),
        forall|i: int|
            0 <= i < children.len() ==> voices_cut(children)[i] == voice_cut(children[i]),
    decreases children.len(),
{
    if children.len() != 0 {
        lemma_voices_cut_facts(children.drop_first());
    }
}

/// `voices_release` maps the sequence pointwise.
pub proof fn lemma_voices_release_facts(children: Seq<VoiceModel>)
    ensures
        voices_release(children).len() == children.len(),
        forall|i: int|
            0 <= i < children.len() ==> voices_release(children)[i] == voice_release(children[i]),
    decreases children.len(),
{
    if children.len() != 0 {
        lemma_voices_release_facts(children.drop_first());
    }
}

impl Combinator {
    /// Samples the node: a modulation chain threads each child's output into
    /// the next child's phase offset and answers the last child's output; a
    /// summation adds every child's output and never itself reports an end.
    pub fn sample(&mut self, data: &SampleBank, global_time: Time, phase_offset: Fixed) -> (r:
        Option<Fixed>)
        requires
            data.wf(),
            global_time.wf(),
        ensures
            final(self).ty == old(self).ty,
            ({
                let stepped = voice_step(
                    VoiceModel::Combinator(models_of(old(self).synths@), old(self).ty),
                    data.samples@,
                    global_time,
                    phase_offset,
                );
                &&& VoiceModel::Combinator(models_of(final(self).synths@), final(self).ty)
                    == stepped.0
                &&& r == stepped.1
            }),
        decreases *old(self), 0int,
    {
        let ghost bankv = data.samples@;
        let ghost orig = self.synths@;
        let ghost orig_models = models_of(orig);
        proof {
            lemma_models_of_facts(orig);
        }
        let n = self.synths.len();
        match self.ty {
            CombinatorType::Modulate => {
                let mut carry: Option<Fixed> = Some(phase_offset);
                let mut i: usize = 0;
                proof {
                    assert(orig_models.subrange(0, n as int) =~= orig_models);
                    assert(self.synths@.subrange(0, 0) =~= Seq::<Voice>::empty());
                }
                while i < n
                    invariant
                        data.wf(),
                        global_time.wf(),
                        bankv == data.samples@,
                        i <= n,
                        n == self.synths.len(),
                        self.ty == old(self).ty,
                        orig == old(self).synths@,
                        orig.len() == n,
                        orig_models == models_of(orig),
                        orig_models.len() == n,
                        forall|j: int|
                            0 <= j < n ==> orig_models[j] == orig[j].model(),
                        forall|j: int| i <= j < n ==> self.synths@[j] == orig[j],
                        ({
                            let cont = modulate_step(
                                orig_models.subrange(i as int, n as int),
                                bankv,
                                global_time,
                                carry,
                            );
                            modulate_step(orig_models, bankv, global_time, Some(phase_offset)) == (
                                models_of(self.synths@.subrange(0, i as int)) + cont.0,
                                cont.1,
                            )
                        }),
                    decreases n - i,
                {
                    let offset = match carry {
                        Some(c) => c,
                        None => Fixed::zero(),
                    };
                    let ghost pre = self.synths@;
                    let mut v = self.synths.remove(i);
            proof {
                assert(v == orig[i as int]);
                assert(decreases_to!(*old(self) => old(self).synths));
                assert(decreases_to!(old(self).synths => old(self).synths[i as int]));
            }
                    proof {
                        assert(v == orig[i as int]);
                        assert(decreases_to!(*old(self) => old(self).synths));
                        assert(decreases_to!(old(self).synths => old(self).synths[i as int]));
                    }
                    let out = v.sample(data, global_time, offset);
                    self.synths.insert(i, v);
                    proof {
                        let suffix = orig_models.subrange(i as int, n as int);
                        let stepped = voice_step(orig[i as int].model(), bankv, global_time, offset);
                        assert(suffix[0] == orig[i as int].model());
                        assert(suffix.drop_first() =~= orig_models.subrange(i as int + 1, n as int));
                        assert(self.synths@ =~= pre.update(i as int, self.synths@[i as int]));
                        assert(self.synths@[i as int].model() == stepped.0);
                        lemma_models_of_facts(pre.subrange(0, i as int));
                        lemma_models_of_facts(self.synths@.subrange(0, i as int + 1));
                        lemma_models_of_facts(self.synths@.subrange(0, i as int));
                        assert(self.synths@.subrange(0, i as int) =~= pre.subrange(0, i as int));
                        let cont_next = modulate_step(
                            orig_models.subrange(i as int + 1, n as int),
                            bankv,
                            global_time,
                            out,
                        );
                        assert(models_of(self.synths@.subrange(0, i as int + 1)) + cont_next.0
                            =~= models_of(self.synths@.subrange(0, i as int)) + (seq![stepped.0]
                            + cont_next.0));
                    }
                    carry = out;
                    i = i + 1;
                }
                proof {
                    assert(orig_models.subrange(n as int, n as int) =~= Seq::<VoiceModel>::empty());
                    assert(self.synths@.subrange(0, n as int) =~= self.synths@);
                }
                carry
            },
            CombinatorType::Sum => {
                let mut acc = Fixed::zero();
                let mut i: usize = 0;
                proof {
                    assert(orig_models.subrange(0, n as int) =~= orig_models);
                    assert(self.synths@.subrange(0, 0) =~= Seq::<Voice>::empty());
                }
                while i < n
                    invariant
                        data.wf(),
                        global_time.wf(),
                        bankv == data.samples@,
                        i <= n,
                        n == self.synths.len(),
                        self.ty == old(self).ty,
                        orig == old(self).synths@,
                        orig.len() == n,
                        orig_models == models_of(orig),
                        orig_models.len() == n,
                        forall|j: int|
                            0 <= j < n ==> orig_models[j] == orig[j].model(),
                        forall|j: int| i <= j < n ==> self.synths@[j] == orig[j],
                        ({
                            let cont = sum_step(
                                orig_models.subrange(i as int, n as int),
                                bankv,
                                global_time,
                                phase_offset,
                                acc,
                            );
                            sum_step(
                                orig_models,
                                bankv,
                                global_time,
                                phase_offset,
                                (Fixed { numer: 0 }),
                            ) == (models_of(self.synths@.subrange(0, i as int)) + cont.0, cont.1)
                        }),
                    decreases n - i,
                {
                    let ghost pre = self.synths@;
                    let mut v = self.synths.remove(i);
            proof {
                assert(v == orig[i as int]);
                assert(decreases_to!(*old(self) => old(self).synths));
                assert(decreases_to!(old(self).synths => old(self).synths[i as int]));
            }
                    proof {
                        assert(v == orig[i as int]);
                        assert(decreases_to!(*old(self) => old(self).synths));
                        assert(decreases_to!(old(self).synths => old(self).synths[i as int]));
                    }
                    let out = v.sample(data, global_time, phase_offset);
                    self.synths.insert(i, v);
                    let value = match out {
                        Some(x) => x,
                        None => Fixed::zero(),
                    };
                    proof {
                        let suffix = orig_models.subrange(i as int, n as int);
                        let stepped = voice_step(
                            orig[i as int].model(),
                            bankv,
                            global_time,
                            phase_offset,
                        );
                        assert(suffix[0] == orig[i as int].model());
                        assert(suffix.drop_first() =~= orig_models.subrange(i as int + 1, n as int));
                        assert(self.synths@ =~= pre.update(i as int, self.synths@[i as int]));
                        assert(self.synths@[i as int].model() == stepped.0);
                        lemma_models_of_facts(pre.subrange(0, i as int));
                        lemma_models_of_facts(self.synths@.subrange(0, i as int + 1));
                        lemma_models_of_facts(self.synths@.subrange(0, i as int));
                        assert(self.synths@.subrange(0, i as int) =~= pre.subrange(0, i as int));
                        let cont_next = sum_step(
                            orig_models.subrange(i as int + 1, n as int),
                            bankv,
                            global_time,
                            phase_offset,
                            (Fixed { numer: sat64(acc.numer + value.numer) as i64 }),
                        );
                        assert(models_of(self.synths@.subrange(0, i as int + 1)) + cont_next.0
                            =~= models_of(self.synths@.subrange(0, i as int)) + (seq![stepped.0]
                            + cont_next.0));
                    }
                    acc = acc.add(value);
                    i = i + 1;
                }
                proof {
                    assert(orig_models.subrange(n as int, n as int) =~= Seq::<VoiceModel>::empty());
                    assert(self.synths@.subrange(0, n as int) =~= self.synths@);
                }
                Some(acc)
            },
        }
    }

    /// Starts every child, in order.
    pub fn play(&mut self, frequency: Fixed, volume: Fixed)
        ensures
            final(self).ty == old(self).ty,
            models_of(final(self).synths@) == voices_play(
                models_of(old(self).synths@),
                frequency,
                volume,
            ),
        decreases *old(self), 0int,
    {
        let ghost orig = self.synths@;
        proof {
            lemma_models_of_facts(orig);
            lemma_voices_play_facts(models_of(orig), frequency, volume);
        }
        let n = self.synths.len();
        let mut i: usize = 0;
        while i < n
            invariant
                i <= n,
                n == self.synths.len(),
                self.ty == old(self).ty,
                orig == old(self).synths@,
                orig.len() == n,
                forall|j: int| i <= j < n ==> self.synths@[j] == orig[j],
                forall|j: int|
                    0 <= j < i ==> #[trigger] self.synths@[j].model() == voice_play(
                        orig[j].model(),
                        frequency,
                        volume,
                    ),
            decreases n - i,
        {
            let mut v = self.synths.remove(i);
            proof {
                assert(v == orig[i as int]);
                assert(decreases_to!(*old(self) => old(self).synths));
                assert(decreases_to!(old(self).synths => old(self).synths[i as int]));
            }
            v.play(frequency, volume);
            self.synths.insert(i, v);
            i = i + 1;
        }
        proof {
            lemma_models_of_facts(orig);
            lemma_voices_play_facts(models_of(orig), frequency, volume);
            lemma_models_of_facts(self.synths@);
            assert(models_of(self.synths@) =~= voices_play(models_of(orig), frequency, volume));
        }
    }

    /// Silences every child, in order.
    pub fn cut(&mut self)
        ensures
            final(self).ty == old(self).ty,
            models_of(final(self).synths@) == voices_cut(models_of(old(self).synths@)),
        decreases *old(self), 0int,
    {
        let ghost orig = self.synths@;
        proof {
            lemma_models_of_facts(orig);
            lemma_voices_cut_facts(models_of(orig));
        }
        let n = self.synths.len();
        let mut i: usize = 0;
        while i < n
            invariant
                i <= n,
                n == self.synths.len(),
                self.ty == old(self).ty,
                orig == old(self).synths@,
                orig.len() == n,
                forall|j: int| i <= j < n ==> self.synths@[j] == orig[j],
                forall|j: int|
                    0 <= j < i ==> #[trigger] self.synths@[j].model() == voice_cut(orig[j].model()),
            decreases n - i,
        {
            let mut v = self.synths.remove(i);
            proof {
                assert(v == orig[i as int]);
                assert(decreases_to!(*old(self) => old(self).synths));
                assert(decreases_to!(old(self).synths => old(self).synths[i as int]));
            }
            v.cut();
            self.synths.insert(i, v);
            i = i + 1;
        }
        proof {
            lemma_models_of_facts(orig);
            lemma_voices_cut_facts(models_of(orig));
            lemma_models_of_facts(self.synths@);
            assert(models_of(self.synths@) =~= voices_cut(models_of(orig)));
        }
    }

    /// Releases every child, in order.
    pub fn release(&mut self)
        ensures
            final(self).ty == old(self).ty,
            models_of(final(self).synths@) == voices_release(models_of(old(self).synths@)),
        decreases *old(self), 0int,
    {
        let ghost orig = self.synths@;
        proof {
            lemma_models_of_facts(orig);
            lemma_voices_release_facts(models_of(orig));
        }
        let n = self.synths.len();
        let mut i: usize = 0;
        while i < n
            invariant
                i <= n,
                n == self.synths.len(),
                self.ty == old(self).ty,
                orig == old(self).synths@,
                orig.len() == n,
                forall|j: int| i <= j < n ==> self.synths@[j] == orig[j],
                forall|j: int|
                    0 <= j < i ==> #[trigger] self.synths@[j].model() == voice_release(
                        orig[j].model(),
                    ),
            decreases n - i,
        {
            let mut v = self.synths.remove(i);
            proof {
                assert(v == orig[i as int]);
                assert(decreases_to!(*old(self) => old(self).synths));
                assert(decreases_to!(old(self).synths => old(self).synths[i as int]));
            }
            v.release();
            self.synths.insert(i, v);
            i = i + 1;
        }
        proof {
            lemma_models_of_facts(orig);
            lemma_voices_release_facts(models_of(orig));
            lemma_models_of_facts(self.synths@);
            assert(models_of(self.synths@) =~= voices_release(models_of(orig)));
        }
    }
}

/// LAW: a summation node over two operators answers exactly the saturating
/// sum of sampling each operator independently with the same bank, time and
/// phase offset, silence counting as zero — and it never itself reports the
/// note as ended.
pub proof fn lemma_sum_of_two_operators(
    a: Operator,
    b: Operator,
    bank: Map<SampleID, Sample>,
    t: Time,
    po: Fixed,
)
    ensures
        ({
            let model = VoiceModel::Combinator(
                seq![VoiceModel::Operator(a), VoiceModel::Operator(b)],
                CombinatorType::Sum,
            );
            let stepped = voice_step(model, bank, t, po);
            let ra = a.spec_sample(bank, t, po);
            let rb = b.spec_sample(bank, t, po);
            &&& stepped.1 == Some(
                (Fixed {
                    numer: sat64(
                        silence_as_zero(ra.1).numer + silence_as_zero(rb.1).numer,
                    ) as i64,
                }),
            )
            &&& stepped.0 == VoiceModel::Combinator(
                seq![VoiceModel::Operator(ra.0), VoiceModel::Operator(rb.0)],
                CombinatorType::Sum,
            )
        }),
{
    reveal_with_fuel(sum_step, 3);
    let children = seq![VoiceModel::Operator(a), VoiceModel::Operator(b)];
    let ra = a.spec_sample(bank, t, po);
    let rb = b.spec_sample(bank, t, po);
    assert(children.drop_first() =~= seq![VoiceModel::Operator(b)]);
    assert(children.drop_first().drop_first() =~= Seq::<VoiceModel>::empty());
    let folded = sum_step(children, bank, t, po, (Fixed { numer: 0 }));
    assert(folded.0 =~= seq![VoiceModel::Operator(ra.0), VoiceModel::Operator(rb.0)]);
}

/// The sampling instructions of a chain after the initial input push:
/// each operator from the last index down to the first.
pub open spec fn descending_samples(m: int) -> Seq<StackInstruction> {
    Seq::new(m as nat, |j: int| StackInstruction::Sample((m - 1 - j) as u64))
}

/// Running the descending sampling instructions over a one-value stack is
/// the modulation fold over the first `m` operators in reverse order.
proof fn lemma_chain_run(
    ops: Seq<Operator>,
    m: int,
    bank: Map<SampleID, Sample>,
    t: Time,
    po: Fixed,
    carry: Option<Fixed>,
)
    requires
        0 <= m <= ops.len(),
        ops.len() <= u64::MAX as int,
    ensures
        ({
            let run = spec_run(
                ops,
                descending_samples(m),
                bank,
                t,
                po,
                seq![silence_as_zero(carry)],
            );
            let fold = modulate_step(operator_models(ops.take(m).reverse()), bank, t, carry);
            &&& run.1 == seq![silence_as_zero(fold.1)]
            &&& run.0.len() == ops.len()
            &&& run.0.skip(m) == ops.skip(m)
            &&& operator_models(run.0.take(m).reverse()) == fold.0
        }),
    decreases m,
{
    reveal_with_fuel(spec_run, 2);
    reveal_with_fuel(modulate_step, 2);
    let run = spec_run(ops, descending_samples(m), bank, t, po, seq![silence_as_zero(carry)]);
    let children = operator_models(ops.take(m).reverse());
    let fold = modulate_step(children, bank, t, carry);
    if m == 0 {
        assert(descending_samples(0).len() == 0);
        assert(ops.take(0).reverse() =~= Seq::<Operator>::empty());
        assert(children =~= Seq::<VoiceModel>::empty());
        assert(run.0.skip(0) =~= ops.skip(0));
        assert(operator_models(run.0.take(0).reverse()) =~= Seq::<VoiceModel>::empty());
    } else {
        let desc = descending_samples(m);
        assert(desc[0] == StackInstruction::Sample((m - 1) as u64));
        assert(desc.subrange(1, m) =~= descending_samples(m - 1));
        let stack0 = seq![silence_as_zero(carry)];
        assert(stack0.last() == silence_as_zero(carry));
        assert(stack0.drop_last() =~= Seq::<Fixed>::empty());
        let stepped = ops[m - 1].spec_sample(bank, t, silence_as_zero(carry));
        let value = silence_as_zero(stepped.1);
        let ops2 = ops.update(m - 1, stepped.0);
        assert(stack0.drop_last().push(value) =~= seq![value]);
        assert(run == spec_run(ops2, descending_samples(m - 1), bank, t, po, seq![value]));
        // the fold takes the same first step
        assert(ops.take(m).reverse()[0] == ops[m - 1]);
        assert(children[0] == VoiceModel::Operator(ops[m - 1]));
        assert(children.drop_first() =~= operator_models(ops2.take(m - 1).reverse()));
        lemma_chain_run(ops2, m - 1, bank, t, po, stepped.1);
        let run2 = spec_run(ops2, descending_samples(m - 1), bank, t, po, seq![value]);
        let fold2 = modulate_step(
            operator_models(ops2.take(m - 1).reverse()),
            bank,
            t,
            stepped.1,
        );
        assert(fold.0 == seq![VoiceModel::Operator(stepped.0)] + fold2.0);
        assert(fold.1 == fold2.1);
        assert(run.0.len() == ops.len());
        assert(run.0.skip(m - 1) == ops2.skip(m - 1));
        assert(run.0.skip(m - 1)[0] == run.0[m - 1]);
        assert(ops2.skip(m - 1)[0] == ops2[m - 1]);
        assert(run.0[m - 1] == ops2[m - 1]);
        assert forall|j: int| 0 <= j < ops.len() - m implies run.0.skip(m)[j] == ops.skip(m)[j] by {
            assert(run.0.skip(m - 1)[j + 1] == run.0[m + j]);
            assert(ops2.skip(m - 1)[j + 1] == ops2[m + j]);
            assert(ops2[m + j] == ops[m + j]);
        }
        assert(run.0.skip(m) =~= ops.skip(m));
        assert(operator_models(run.0.take(m).reverse()) =~= seq![VoiceModel::Operator(stepped.0)]
            + operator_models(run.0.take(m - 1).reverse()));
    }
}

/// LAW: the flattened chain machine realises a phase-modulation combinator:
/// for the same operator states and inputs, running `chain` over a list of
/// operators samples and mutates them exactly as a `Modulate` combinator over
/// the same operators in reverse order — with the machine answering a zero
/// amplitude where the combinator reports the note's end.
pub proof fn lemma_chain_matches_modulate(
    ops: Seq<Operator>,
    bank: Map<SampleID, Sample>,
    t: Time,
    po: Fixed,
)
    requires
        ops.len() <= u64::MAX as int,
    ensures
        ({
            let run = spec_run(
                ops,
                crate::stacker::chain_instructions(ops.len() as int),
                bank,
                t,
                po,
                Seq::empty(),
            );
            let fold = modulate_step(operator_models(ops.reverse()), bank, t, Some(po));
            &&& run.1.len() == 1
            &&& run.1.last() == silence_as_zero(fold.1)
            &&& operator_models(run.0.reverse()) == fold.0
        }),
{
    reveal_with_fuel(spec_run, 2);
    let n = ops.len() as int;
    let instrs = crate::stacker::chain_instructions(n);
    assert(instrs[0] == StackInstruction::InputPhaseOffset);
    assert(instrs.subrange(1, n + 1) =~= descending_samples(n));
    assert(Seq::<Fixed>::empty().push(po) =~= seq![silence_as_zero(Some(po))]);
    lemma_chain_run(ops, n, bank, t, po, Some(po));
    assert(ops.take(n) =~= ops);
    let run = spec_run(ops, instrs, bank, t, po, Seq::empty());
    assert(run.0.take(n) =~= run.0);
}

impl Clone for Voice {
    /// A deep copy of the whole subtree: the clone has the same model, so
    /// driving either voice never affects the other.
    fn clone(&self) -> (res: Self)
        ensures
            res.model() == self.model(),
        decreases *self,
    {
        match self {
            Voice::Operator(op) => Voice::Operator(op.clone()),
            Voice::Combinator(c) => Voice::Combinator(c.clone()),
            Voice::Stacker(s) => Voice::Stacker(s.clone()),
        }
    }
}

impl Clone for Combinator {
    /// A deep copy of every child, keeping order and the composition tag.
    fn clone(&self) -> (res: Self)
        ensures
            models_of(res.synths@) == models_of(self.synths@),
            res.ty == self.ty,
        decreases *self,
    {
        let mut synths: Vec<Voice> = Vec::new();
        let n = self.synths.len();
        let mut i: usize = 0;
        while i < n
            invariant
                i <= n,
                n == self.synths.len(),
                synths@.len() == i,
                forall|j: int| 0 <= j < i ==> synths@[j].model() == self.synths@[j].model(),
            decreases n - i,
        {
            let v = self.synths[i].clone();
            synths.push(v);
            i = i + 1;
        }
        proof {
            lemma_models_of_facts(synths@);
            lemma_models_of_facts(self.synths@);
            assert(models_of(synths@) =~= models_of(self.synths@));
        }
        Combinator { synths, ty: self.ty }
    }
}

} // verus!
