use pom_synth::boundary::{normalise, quantise, PomDuration, PomResult, PomSampleFormat};
use pom_synth::envelope::Envelope;
use pom_synth::fixed::{Fixed, FIXED_SCALE};
use pom_synth::pcm::{Sample, SampleBank};
use pom_synth::time::{wrap_duration, Time};
use pom_synth::waveform::Waveform;

fn fx(numer: i64) -> Fixed {
    Fixed { numer }
}

fn secs(s: u64) -> Time {
    Time::new(s, 0)
}

#[test]
fn fixed_arithmetic_is_exact() {
    assert_eq!(fx(3_500_000_000).mul(fx(2_000_000_000)).numer, 7_000_000_000);
    assert_eq!(fx(3_500_000_000).mul(fx(-2_000_000_000)).numer, -7_000_000_000);
    assert_eq!(fx(1_000_000_000).div(fx(4_000_000_000)).numer, 250_000_000);
    assert_eq!(fx(i64::MAX).add(fx(i64::MAX)).numer, i64::MAX);
    assert_eq!(fx(-1_500_000_000).rem_one().numer, 500_000_000);
    assert_eq!(fx(-2_000_000_000).rem_one().numer, 0);
    assert_eq!(fx(i64::MIN).abs_sat().numer, i64::MAX);
}

#[test]
fn time_saturates_and_wraps() {
    let t = Time::new(1, 1_500_000_000);
    assert_eq!(t.secs, 2);
    assert_eq!(t.nanos, 500_000_000);
    let max = Time::max_time();
    assert_eq!(max.saturating_add(secs(5)), max);
    assert_eq!(secs(3).saturating_sub(secs(5)), Time::zero());
    let wrapped = wrap_duration(Time::new(7, 250_000_000), secs(2));
    assert_eq!(wrapped, Time::new(1, 250_000_000));
    let scaled = secs(4).saturating_mul_fixed(fx(2_500_000_000));
    assert_eq!(scaled, Time::new(10, 0));
    assert_eq!(secs(4).saturating_mul_fixed(fx(-1)), Time::zero());
}

#[test]
fn pom_duration_round_trips_and_saturates() {
    let d = PomDuration { seconds: 3, nanoseconds: 2_000_000_001 };
    assert_eq!(d.to_rust(), Time::new(5, 1));
    let top = PomDuration { seconds: u64::MAX, nanoseconds: 1_999_999_999 };
    assert_eq!(top.to_rust(), Time::max_time());
    let back = PomDuration::from_time(Time::new(5, 1));
    assert_eq!(back.seconds, 5);
    assert_eq!(back.nanoseconds, 1);
}

#[test]
fn boundary_codes() {
    assert_eq!(PomResult::Success.code(), 0);
    assert_eq!(PomResult::InvalidInput.code(), 1);
    assert_eq!(PomSampleFormat::from_code(2), Some(PomSampleFormat::I32));
    assert_eq!(PomSampleFormat::from_code(4), Some(PomSampleFormat::F64));
    assert_eq!(PomSampleFormat::from_code(5), None);
    assert_eq!(PomSampleFormat::from_code(-1), None);
}

#[test]
fn quantise_rescales_rounds_and_clamps() {
    assert_eq!(quantise(fx(0), 0, 255), 128);
    assert_eq!(quantise(fx(FIXED_SCALE), 0, 255), 255);
    assert_eq!(quantise(fx(-FIXED_SCALE), 0, 255), 0);
    // out-of-range amplitudes clamp onto the output range
    assert_eq!(quantise(fx(2 * FIXED_SCALE), 0, 255), 255);
    assert_eq!(quantise(fx(-2 * FIXED_SCALE), 0, 255), 0);
    assert_eq!(quantise(fx(0), i16::MIN as i64, i16::MAX as i64), 0);
    assert_eq!(quantise(fx(FIXED_SCALE), i16::MIN as i64, i16::MAX as i64), 32767);
}

#[test]
fn normalise_rescales_integer_samples() {
    assert_eq!(normalise(0, 0, 255).numer, -FIXED_SCALE);
    assert_eq!(normalise(255, 0, 255).numer, FIXED_SCALE);
    assert_eq!(normalise(128, 0, 255).numer, 3_921_568);
    assert_eq!(normalise(0, i16::MIN as i64, i16::MAX as i64).numer, 15_259);
    assert_eq!(normalise(i16::MIN as i64, i16::MIN as i64, i16::MAX as i64).numer, -FIXED_SCALE);
}

#[test]
fn pure_waveforms_stay_within_one_unit() {
    let bank = SampleBank::new();
    let shapes = vec![
        Waveform::Sine,
        Waveform::Pulse { duty_cycle: fx(300_000_000) },
        Waveform::Triangle,
        Waveform::Sawtooth,
        Waveform::InvertedSawtooth,
    ];
    for shape in &shapes {
        for p in 0..50u64 {
            let period = Time::new(p / 7, (p * 131_000_000 % 1_000_000_000) as u32);
            let off = fx((p as i64 - 25) * 77_000_000);
            let out = shape.sample(&bank, period, off);
            assert!(-FIXED_SCALE <= out.numer && out.numer <= FIXED_SCALE);
        }
    }
}

#[test]
fn sine_is_exact_at_quarter_points() {
    let bank = SampleBank::new();
    let w = Waveform::Sine;
    assert_eq!(w.sample(&bank, Time::zero(), fx(0)).numer, 0);
    assert_eq!(w.sample(&bank, Time::new(0, 250_000_000), fx(0)).numer, FIXED_SCALE);
    assert_eq!(w.sample(&bank, Time::new(0, 500_000_000), fx(0)).numer, 0);
    assert_eq!(w.sample(&bank, Time::new(0, 750_000_000), fx(0)).numer, -FIXED_SCALE);
    // the phase offset wraps: one and a quarter cycles is a quarter cycle
    assert_eq!(w.sample(&bank, Time::zero(), fx(1_250_000_000)).numer, FIXED_SCALE);
}

#[test]
fn piecewise_waveform_values() {
    let bank = SampleBank::new();
    let quarter = Time::new(0, 250_000_000);
    assert_eq!(Waveform::Sawtooth.sample(&bank, quarter, fx(0)).numer, -500_000_000);
    assert_eq!(Waveform::InvertedSawtooth.sample(&bank, quarter, fx(0)).numer, 500_000_000);
    assert_eq!(Waveform::Triangle.sample(&bank, quarter, fx(0)).numer, 0);
    let pulse = Waveform::Pulse { duty_cycle: fx(200_000_000) };
    assert_eq!(pulse.sample(&bank, quarter, fx(0)).numer, FIXED_SCALE);
    assert_eq!(pulse.sample(&bank, Time::new(0, 100_000_000), fx(0)).numer, -FIXED_SCALE);
    assert_eq!(Waveform::Constant(fx(42)).sample(&bank, quarter, fx(0)).numer, 42);
    let absolute = Waveform::Absolute(Box::new(Waveform::Sawtooth));
    assert_eq!(absolute.sample(&bank, quarter, fx(0)).numer, 500_000_000);
}

#[test]
fn thin_is_silent_past_its_window_and_rescales_inside() {
    let bank = SampleBank::new();
    let thin = Waveform::Thin {
        base: Box::new(Waveform::Sawtooth),
        waveform_active_percent: fx(500_000_000),
    };
    // wrapped phase 0.75 exceeds the 0.5 window
    assert_eq!(thin.sample(&bank, Time::new(0, 750_000_000), fx(0)).numer, 0);
    // phase 0.25 maps to 0.5 of the base waveform: sawtooth answers 0 there
    assert_eq!(thin.sample(&bank, Time::new(0, 250_000_000), fx(0)).numer, 0);
    // phase 0.125 maps to 0.25 of the base: sawtooth answers -0.5
    assert_eq!(thin.sample(&bank, Time::new(0, 125_000_000), fx(0)).numer, -500_000_000);
    let cut = Waveform::Cut {
        base: Box::new(Waveform::Sawtooth),
        waveform_active_percent: fx(500_000_000),
    };
    assert_eq!(cut.sample(&bank, Time::new(0, 750_000_000), fx(0)).numer, 0);
    // cut leaves the phase alone inside the window
    assert_eq!(cut.sample(&bank, Time::new(0, 250_000_000), fx(0)).numer, -500_000_000);
}

fn small_clip() -> Sample {
    Sample {
        samples_per_period: fx(4_000_000_000), // four entries per period
        loop_point: secs(1),
        loop_duration: secs(1),
        pcm_data: vec![fx(10), fx(20), fx(30), fx(40), fx(50), fx(60), fx(70), fx(80)],
    }
}

#[test]
fn pcm_lookup_indexes_and_loops() {
    let clip = small_clip();
    // period 0.25 at rate 4 is index 1
    assert_eq!(clip.get(Time::new(0, 250_000_000), fx(0)).numer, 20);
    // before the loop point, linear: period 1.75 is index 7
    assert_eq!(clip.get(Time::new(1, 750_000_000), fx(0)).numer, 80);
    // past the loop point, wrap: period 2.25 wraps to 1.25, index 5
    assert_eq!(clip.get(Time::new(2, 250_000_000), fx(0)).numer, 60);
    // periodicity: one whole loop later answers the same
    assert_eq!(
        clip.get(Time::new(3, 250_000_000), fx(0)).numer,
        clip.get(Time::new(2, 250_000_000), fx(0)).numer
    );
}

#[test]
fn pcm_lookup_is_silent_out_of_range() {
    let mut clip = small_clip();
    clip.loop_point = secs(100);
    // index 12 is past the data
    assert_eq!(clip.get(secs(3), fx(0)).numer, 0);
    // a negative offset reaching before the start is silence
    assert_eq!(clip.get(Time::new(0, 250_000_000), fx(-500_000_000)).numer, 0);
    // a zero loop duration past the loop point is silence
    let mut zero_loop = small_clip();
    zero_loop.loop_duration = Time::zero();
    assert_eq!(zero_loop.get(secs(1), fx(0)).numer, 0);
    // the phase offset shifts the addressed period
    assert_eq!(small_clip().get(Time::new(0, 250_000_000), fx(250_000_000)).numer, 30);
}

#[test]
fn pcm_through_waveform_and_bank() {
    let mut bank = SampleBank::new();
    bank.insert_sample(7, small_clip());
    let w = Waveform::PCM(7);
    assert_eq!(w.sample(&bank, Time::new(0, 250_000_000), fx(0)).numer, 20);
    // a missing sample id is silence
    let missing = Waveform::PCM(8);
    assert_eq!(missing.sample(&bank, Time::new(0, 250_000_000), fx(0)).numer, 0);
}

#[test]
fn sample_new_converts_seconds_to_periods() {
    let clip = Sample::new(
        vec![fx(1), fx(2)],
        fx(2_000_000_000), // two samples per second
        fx(1_000_000_000), // one sample per period
        fx(1_000_000_000), // loop point: one second
        fx(500_000_000),   // loop duration: half a second
    );
    // two periods per second
    assert_eq!(clip.loop_point, secs(2));
    assert_eq!(clip.loop_duration, secs(1));
    assert_eq!(clip.samples_per_period.numer, FIXED_SCALE);
}

#[test]
fn bank_replaces_equal_keys() {
    let mut bank = SampleBank::new();
    bank.insert_sample(7, small_clip());
    let mut louder = small_clip();
    louder.pcm_data = vec![fx(99); 8];
    bank.insert_sample(7, louder);
    let w = Waveform::PCM(7);
    assert_eq!(w.sample(&bank, Time::new(0, 250_000_000), fx(0)).numer, 99);
}

#[test]
fn thin_with_zero_window_degrades_to_period_zero() {
    let bank = SampleBank::new();
    let thin = Waveform::Thin {
        base: Box::new(Waveform::Constant(fx(5))),
        waveform_active_percent: fx(0),
    };
    // any positive phase exceeds the empty window
    assert_eq!(thin.sample(&bank, Time::new(0, 1), fx(0)).numer, 0);
    // phase zero plays the base at period zero
    assert_eq!(thin.sample(&bank, Time::zero(), fx(0)).numer, 5);
}

#[test]
fn zero_release_time_ends_right_after_the_stop_point() {
    let env = Envelope {
        attack_time: Time::zero(),
        halving_rate: fx(0),
        release_time: Time::zero(),
    };
    // up to the stop point the note sounds at full volume
    assert_eq!(env.sample_volume(secs(1), Some(secs(2))).unwrap().numer, FIXED_SCALE);
    assert_eq!(env.sample_volume(secs(2), Some(secs(2))).unwrap().numer, FIXED_SCALE);
    // any later time has fully ended
    assert_eq!(env.sample_volume(Time::new(2, 1), Some(secs(2))), None);
}

#[test]
fn envelope_attack_is_linear() {
    let env = Envelope { attack_time: secs(2), halving_rate: fx(0), release_time: secs(1) };
    let v = env.sample_volume(secs(1), None).unwrap();
    assert_eq!(v.numer, 500_000_000);
    let v0 = env.sample_volume(Time::zero(), None).unwrap();
    assert_eq!(v0.numer, 0);
}

#[test]
fn envelope_decay_halves() {
    let env = Envelope {
        attack_time: Time::zero(),
        halving_rate: fx(FIXED_SCALE),
        release_time: secs(1),
    };
    assert_eq!(env.sample_volume(Time::zero(), None).unwrap().numer, FIXED_SCALE);
    assert_eq!(env.sample_volume(secs(1), None).unwrap().numer, 500_000_000);
    assert_eq!(env.sample_volume(secs(2), None).unwrap().numer, 250_000_000);
    // far past the attack the volume has fully decayed
    assert_eq!(env.sample_volume(secs(100), None).unwrap().numer, 0);
}

#[test]
fn envelope_volume_never_rises_with_faster_halving() {
    let attack = secs(1);
    let release = secs(1);
    let rates = [0i64, 250_000_000, 500_000_000, 1_000_000_000, 3_000_000_000];
    for t in [1u64, 2, 3, 10] {
        let mut last = i64::MAX;
        for r in rates {
            let env = Envelope { attack_time: attack, halving_rate: fx(r), release_time: release };
            let v = env.sample_volume(secs(t), None).unwrap().numer;
            assert!(v <= last);
            last = v;
        }
    }
}

#[test]
fn envelope_release_scales_and_ends() {
    let env = Envelope { attack_time: Time::zero(), halving_rate: fx(0), release_time: secs(2) };
    // halfway through the release the multiplier is one half
    let v = env.sample_volume(secs(3), Some(secs(2))).unwrap();
    assert_eq!(v.numer, 500_000_000);
    // past stop + release the note has ended
    assert_eq!(env.sample_volume(Time::new(4, 1), Some(secs(2))), None);
    // at the stop point exactly, the value matches the un-released envelope
    let released = env.sample_volume(secs(2), Some(secs(2))).unwrap();
    let free = env.sample_volume(secs(2), None).unwrap();
    assert_eq!(released, free);
}
