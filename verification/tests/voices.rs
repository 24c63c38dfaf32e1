use pom_synth::combinator::{Combinator, CombinatorType, Voice};
use pom_synth::pom::Pom;
use pom_synth::envelope::Envelope;
use pom_synth::fixed::{Fixed, FIXED_SCALE};
use pom_synth::operator::{Operator, OperatorModifiers, StartState};
use pom_synth::pcm::SampleBank;
use pom_synth::stacker::{StackInstruction, Stacker};
use pom_synth::time::Time;
use pom_synth::waveform::Waveform;

fn fx(numer: i64) -> Fixed {
    Fixed { numer }
}

fn secs(s: u64) -> Time {
    Time::new(s, 0)
}

fn quarter() -> Time {
    Time::new(0, 250_000_000)
}

/// A sine voice with no attack, no decay and a one-second release.
fn sine_op() -> Operator {
    Operator::new(
        Waveform::Sine,
        Envelope { attack_time: Time::zero(), halving_rate: fx(0), release_time: secs(1) },
        OperatorModifiers::default(),
    )
}

#[test]
fn operator_is_silent_until_played() {
    let bank = SampleBank::new();
    let mut op = sine_op();
    assert_eq!(op.sample(&bank, Time::zero(), fx(0)), None);
}

#[test]
fn played_sine_hits_full_amplitude_at_quarter_cycle() {
    let bank = SampleBank::new();
    let mut op = sine_op();
    // observe time zero, then start the note there
    assert_eq!(op.sample(&bank, Time::zero(), fx(0)), None);
    op.play(fx(FIXED_SCALE), fx(FIXED_SCALE));
    assert_eq!(op.start_time, StartState::Started(Time::zero()));
    // at the very start the sine is zero
    assert_eq!(op.sample(&bank, Time::zero(), fx(0)), Some(fx(0)));
    // a quarter second later, at one cycle per second, the sine peaks
    assert_eq!(op.sample(&bank, quarter(), fx(0)), Some(fx(FIXED_SCALE)));
}

#[test]
fn play_with_positive_attack_starts_at_zero_volume() {
    let bank = SampleBank::new();
    let mut op = Operator::new(
        Waveform::Sine,
        Envelope { attack_time: secs(1), halving_rate: fx(0), release_time: secs(1) },
        OperatorModifiers::default(),
    );
    assert_eq!(op.sample(&bank, secs(5), fx(0)), None);
    op.play(fx(FIXED_SCALE), fx(FIXED_SCALE));
    // sampling at the very timestamp last observed: zero note time, zero volume
    assert_eq!(op.sample(&bank, secs(5), fx(0)), Some(fx(0)));
}

#[test]
fn cut_silences_immediately() {
    let bank = SampleBank::new();
    let mut op = sine_op();
    op.sample(&bank, Time::zero(), fx(0));
    op.play(fx(FIXED_SCALE), fx(FIXED_SCALE));
    assert!(op.sample(&bank, quarter(), fx(0)).is_some());
    op.cut();
    assert_eq!(op.start_time, StartState::Off);
    assert_eq!(op.sample(&bank, Time::new(0, 300_000_000), fx(0)), None);
}

#[test]
fn release_ends_after_release_time_and_is_continuous_at_stop() {
    let bank = SampleBank::new();
    let mut op = sine_op();
    op.sample(&bank, Time::zero(), fx(0));
    op.play(fx(FIXED_SCALE), fx(FIXED_SCALE));
    op.sample(&bank, quarter(), fx(0));
    // release at the last observed time: the stop point is 0.25s
    op.release();
    assert_eq!(op.stop_point, Some(quarter()));
    // a twin that is never released
    let mut free = sine_op();
    free.sample(&bank, Time::zero(), fx(0));
    free.play(fx(FIXED_SCALE), fx(FIXED_SCALE));
    free.sample(&bank, quarter(), fx(0));
    // at the stop point exactly both answer the same value
    let mut released_probe = op.clone();
    let mut free_probe = free.clone();
    let released_now = released_probe.sample(&bank, quarter(), fx(0));
    let free_now = free_probe.sample(&bank, quarter(), fx(0));
    assert_eq!(released_now, free_now);
    // just past stop + release the released note has ended
    assert_eq!(op.sample(&bank, Time::new(1, 250_000_001), fx(0)), None);
}

#[test]
fn modifiers_scale_play_arguments() {
    let bank = SampleBank::new();
    let mut op = Operator::new(
        Waveform::Constant(fx(FIXED_SCALE)),
        Envelope { attack_time: Time::zero(), halving_rate: fx(0), release_time: secs(1) },
        OperatorModifiers {
            frequency_multiplier: fx(2_000_000_000),
            volume_multiplier: fx(500_000_000),
            constant_phase_offset: fx(0),
        },
    );
    op.sample(&bank, Time::zero(), fx(0));
    op.play(fx(3_000_000_000), fx(FIXED_SCALE));
    assert_eq!(op.frequency, fx(6_000_000_000));
    assert_eq!(op.peak_volume, fx(500_000_000));
    // a constant waveform times the halved volume
    assert_eq!(op.sample(&bank, secs(1), fx(0)), Some(fx(500_000_000)));
}

#[test]
fn clone_is_independent() {
    let bank = SampleBank::new();
    let mut original = sine_op();
    original.sample(&bank, Time::zero(), fx(0));
    original.play(fx(FIXED_SCALE), fx(FIXED_SCALE));
    let mut copy = original.clone();
    // a reference twin driven exactly like the original
    let mut witness = original.clone();
    // drive the copy differently
    copy.play(fx(2_000_000_000), fx(500_000_000));
    copy.sample(&bank, quarter(), fx(0));
    copy.cut();
    // the original is unaffected by anything done to the copy
    let a = original.sample(&bank, quarter(), fx(0));
    let b = witness.sample(&bank, quarter(), fx(0));
    assert_eq!(a, b);
    assert_eq!(a, Some(fx(FIXED_SCALE)));
}

fn started_pair() -> (Operator, Operator) {
    let bank = SampleBank::new();
    let mut a = sine_op();
    a.sample(&bank, Time::zero(), fx(0));
    a.play(fx(FIXED_SCALE), fx(FIXED_SCALE));
    let mut b = Operator::new(
        Waveform::Triangle,
        Envelope { attack_time: Time::zero(), halving_rate: fx(0), release_time: secs(1) },
        OperatorModifiers::default(),
    );
    b.sample(&bank, Time::zero(), fx(0));
    b.play(fx(2_000_000_000), fx(500_000_000));
    (a, b)
}

#[test]
fn sum_combinator_adds_both_children() {
    let bank = SampleBank::new();
    let (a, b) = started_pair();
    let mut alone_a = a.clone();
    let mut alone_b = b.clone();
    let expected_a = alone_a.sample(&bank, quarter(), fx(0)).unwrap_or(fx(0));
    let expected_b = alone_b.sample(&bank, quarter(), fx(0)).unwrap_or(fx(0));
    let mut sum = Combinator {
        synths: vec![Voice::Operator(a), Voice::Operator(b)],
        ty: CombinatorType::Sum,
    };
    let out = sum.sample(&bank, quarter(), fx(0));
    assert_eq!(out, Some(fx(expected_a.numer + expected_b.numer)));
}

#[test]
fn modulate_combinator_threads_phase_and_reports_last_child() {
    let bank = SampleBank::new();
    let (a, b) = started_pair();
    let mut alone_a = a.clone();
    let first = alone_a.sample(&bank, quarter(), fx(0)).unwrap_or(fx(0));
    let mut alone_b = b.clone();
    let expected = alone_b.sample(&bank, quarter(), first);
    let mut chain = Combinator {
        synths: vec![Voice::Operator(a.clone()), Voice::Operator(b.clone())],
        ty: CombinatorType::Modulate,
    };
    assert_eq!(chain.sample(&bank, quarter(), fx(0)), expected);
    // an off last child makes the whole chain report silence
    let mut chain_off = Combinator {
        synths: vec![Voice::Operator(a), Voice::Operator(sine_op())],
        ty: CombinatorType::Modulate,
    };
    assert_eq!(chain_off.sample(&bank, quarter(), fx(0)), None);
}

#[test]
fn combinator_broadcasts_controls() {
    let bank = SampleBank::new();
    let mut c = Combinator {
        synths: vec![Voice::Operator(sine_op()), Voice::Operator(sine_op())],
        ty: CombinatorType::Sum,
    };
    assert_eq!(c.sample(&bank, Time::zero(), fx(0)), Some(fx(0)));
    c.play(fx(FIXED_SCALE), fx(FIXED_SCALE));
    let loud = c.sample(&bank, quarter(), fx(0)).unwrap();
    assert_eq!(loud.numer, 2 * FIXED_SCALE);
    c.cut();
    assert_eq!(c.sample(&bank, quarter(), fx(0)), Some(fx(0)));
}

#[test]
fn stacker_chain_matches_reversed_modulate() {
    let bank = SampleBank::new();
    let (a, b) = started_pair();
    let mut machine = Stacker::chain(vec![a.clone(), b.clone()]);
    let out = machine.sample(&bank, quarter(), fx(0));
    // the chain samples the last operator first: it equals a Modulate
    // combinator over the reversed list, silence answered as zero
    let mut comb = Combinator {
        synths: vec![Voice::Operator(b), Voice::Operator(a)],
        ty: CombinatorType::Modulate,
    };
    let expected = comb.sample(&bank, quarter(), fx(0)).unwrap_or(fx(0));
    assert_eq!(out, Some(expected));
}

#[test]
fn stacker_add_matches_sum() {
    let bank = SampleBank::new();
    let (a, b) = started_pair();
    let mut machine = Stacker::add(vec![a.clone(), b.clone()]);
    let out = machine.sample(&bank, quarter(), fx(0));
    let mut comb = Combinator {
        synths: vec![Voice::Operator(a), Voice::Operator(b)],
        ty: CombinatorType::Sum,
    };
    assert_eq!(out, comb.sample(&bank, quarter(), fx(0)));
}

#[test]
fn stacker_builders_emit_expected_programs() {
    let empty = Stacker::chain(vec![]);
    assert_eq!(empty.instructions, vec![StackInstruction::InputPhaseOffset]);
    let two = Stacker::chain(vec![sine_op(), sine_op()]);
    assert_eq!(
        two.instructions,
        vec![
            StackInstruction::InputPhaseOffset,
            StackInstruction::Sample(1),
            StackInstruction::Sample(0),
        ]
    );
    let empty_add = Stacker::add(vec![]);
    assert_eq!(empty_add.instructions, vec![StackInstruction::InputPhaseOffset]);
    let one_add = Stacker::add(vec![sine_op()]);
    assert_eq!(
        one_add.instructions,
        vec![
            StackInstruction::Constant(fx(0)),
            StackInstruction::Sample(0),
            StackInstruction::Add,
        ]
    );
}

#[test]
fn stacker_machine_edge_cases() {
    let bank = SampleBank::new();
    // no instructions: an empty stack answers nothing
    let mut idle = Stacker { operators: vec![], instructions: vec![] };
    assert_eq!(idle.sample(&bank, Time::zero(), fx(0)), None);
    // an out-of-range operator index pushes zero and halts
    let mut halting = Stacker {
        operators: vec![],
        instructions: vec![StackInstruction::Sample(5), StackInstruction::Constant(fx(9))],
    };
    assert_eq!(halting.sample(&bank, Time::zero(), fx(0)), Some(fx(0)));
    // duplicating an empty stack pushes zero
    let mut duping = Stacker { operators: vec![], instructions: vec![StackInstruction::Dupe] };
    assert_eq!(duping.sample(&bank, Time::zero(), fx(0)), Some(fx(0)));
    // add pops both values
    let mut adding = Stacker {
        operators: vec![],
        instructions: vec![
            StackInstruction::Constant(fx(3)),
            StackInstruction::Constant(fx(4)),
            StackInstruction::Add,
        ],
    };
    assert_eq!(adding.sample(&bank, Time::zero(), fx(0)), Some(fx(7)));
    // the input phase offset can be echoed back
    let mut echo = Stacker {
        operators: vec![],
        instructions: vec![StackInstruction::InputPhaseOffset],
    };
    assert_eq!(echo.sample(&bank, Time::zero(), fx(123)), Some(fx(123)));
}

/// Drives any voice kind through the uniform capability set.
fn strike<P: Pom>(voice: &mut P, bank: &SampleBank) -> Option<Fixed> {
    Pom::play(voice, fx(FIXED_SCALE), fx(FIXED_SCALE));
    Pom::sample(voice, bank, Time::zero(), fx(0));
    Pom::sample(voice, bank, quarter(), fx(0))
}

#[test]
fn capability_set_is_uniform() {
    let bank = SampleBank::new();
    let mut bare = sine_op();
    bare.sample(&bank, Time::zero(), fx(0));
    let mut tree = Combinator {
        synths: vec![Voice::Operator(bare.clone())],
        ty: CombinatorType::Sum,
    };
    let mut machine = Stacker::chain(vec![bare.clone()]);
    let mut erased = Voice::Operator(bare.clone());
    let direct = strike(&mut bare, &bank);
    assert_eq!(direct, Some(fx(FIXED_SCALE)));
    assert_eq!(strike(&mut tree, &bank), direct);
    assert_eq!(strike(&mut machine, &bank), direct);
    assert_eq!(strike(&mut erased, &bank), direct);
    let mut copy = Pom::box_clone(&erased);
    Pom::cut(&mut *copy);
    assert_eq!(Pom::sample(&mut *copy, &bank, quarter(), fx(0)), None);
}

#[test]
fn voice_clone_is_deep() {
    let bank = SampleBank::new();
    let (a, b) = started_pair();
    let mut tree = Voice::Combinator(Combinator {
        synths: vec![
            Voice::Operator(a),
            Voice::Stacker(Stacker::chain(vec![b])),
        ],
        ty: CombinatorType::Sum,
    });
    let mut copy = tree.clone();
    copy.cut();
    copy.play(fx(2_000_000_000), fx(FIXED_SCALE));
    // the original still answers what an untouched twin answers
    let mut witness = tree.clone();
    assert_eq!(
        tree.sample(&bank, quarter(), fx(0)),
        witness.sample(&bank, quarter(), fx(0))
    );
}
