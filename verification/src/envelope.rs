//! Attack / decay / release amplitude envelopes.
//!
//! An envelope is an immutable value consulted with an externally tracked
//! note time and optional stop point. It answers a volume multiplier in
//! `[0, 1]`, or nothing once the note has fully ended. The exponential decay
//! is realised in fixed point: the half-power curve is piecewise linear
//! between exact powers of one half, which keeps it monotone and exact at
//! whole numbers of halvings.

use vstd::prelude::*;

use vstd::arithmetic::power2::pow2;

use crate::fixed::{mag, tdiv, Fixed, FIXED_SCALE};
use crate::time::{max_time_nanos, Time};

verus! {

/// The numerator of the fixed-point half-power `0.5 ^ (x / FIXED_SCALE)`,
/// linearly interpolated between consecutive whole exponents. A negative
/// exponent saturates to the largest representable scalar; an exponent of 63
/// or more halvings yields exactly zero.
pub open spec fn pow_half_numer(x: int) -> int {
    if x < 0 {
        i64::MAX as int
    } else {
        let k = x / (FIXED_SCALE as int);
        let f = x % (FIXED_SCALE as int);
        if k >= 63 {
            0int
        } else {
            (FIXED_SCALE - f / 2) / (pow2(k as nat) as int)
        }
    }
}

/// The numerator of the decay multiplier after `d` nanoseconds at `hr`
/// halvings (in numerator scale) per unit time.
pub open spec fn decay_numer(d: int, hr: int) -> int {
    pow_half_numer(tdiv(d * hr, FIXED_SCALE as int))
}

/// An envelope: linear attack to peak volume, exponential decay afterwards,
/// and a linear release once a stop point is set.
#[derive(Clone, Copy, Debug, PartialEq, Eq, Structural)]
pub struct Envelope {
    /// Linear attack time: the time it takes to reach peak volume.
    pub attack_time: Time,
    /// Exponential decay: how many times the output volume halves per unit
    /// time, taking effect once the attack has finished.
    pub halving_rate: Fixed,
    /// Linear release time: the time it takes to reach zero volume after the
    /// stop point, multiplied onto the rest of the envelope.
    pub release_time: Time,
}

impl Default for Envelope {
    /// No attack, no decay, an immediate release.
    fn default() -> (r: Self)
        ensures
            r == (Envelope {
                attack_time: (Time { secs: 0, nanos: 0 }),
                halving_rate: (Fixed { numer: 0 }),
                release_time: (Time { secs: 0, nanos: 0 }),
            }),
    {
        Envelope {
            attack_time: Time::zero(),
            halving_rate: Fixed::zero(),
            release_time: Time::zero(),
        }
    }
}

impl Envelope {
    /// The attack-or-decay multiplier numerator, before release scaling.
    /// During the attack it is the fraction of the attack already elapsed;
    /// afterwards it is the half-power decay curve.
    pub open spec fn base_numer(self, note_time: Time) -> int {
        if note_time@ < self.attack_time@ {
            note_time@ * (FIXED_SCALE as int) / self.attack_time@
        } else {
            decay_numer(note_time@ - self.attack_time@, self.halving_rate.numer as int)
        }
    }

    /// The release multiplier numerator: the fraction of the release time
    /// still remaining past the stop point. A release time of zero is left
    /// undefined by the design; here it answers the full multiplier (the
    /// note already ends at the stop point itself in that case).
    pub open spec fn release_numer(self, note_time: Time, stop_point: Time) -> int {
        let progress = if note_time@ >= stop_point@ {
            note_time@ - stop_point@
        } else {
            0int
        };
        if self.release_time@ == 0 {
            FIXED_SCALE as int
        } else {
            FIXED_SCALE - progress * (FIXED_SCALE as int) / self.release_time@
        }
    }

    /// The volume multiplier for a note at `note_time`, `None` once the note
    /// has fully ended (a stop point is set and the release has run out).
    pub open spec fn spec_sample_volume(self, note_time: Time, stop_point: Option<Time>) -> Option<
        Fixed,
    > {
        match stop_point {
            Some(sp) => if note_time@ > sp@ + self.release_time@ {
                None
            } else {
                Some(
                    (Fixed {
                        numer: (self.base_numer(note_time) * self.release_numer(note_time, sp) / (
                        FIXED_SCALE as int)) as i64,
                    }),
                )
            },
            None => Some((Fixed { numer: self.base_numer(note_time) as i64 })),
        }
    }

    /// Samples the envelope. Answers the multiplier scaled into `[0, 1]`
    /// (numerator in `[0, FIXED_SCALE]` except for a saturated negative
    /// halving rate), or `None` once the note has fully ended.
    pub fn sample_volume(&self, note_time: Time, stop_point: Option<Time>) -> (r: Option<Fixed>)
        requires
            note_time.wf(),
        ensures
            r == self.spec_sample_volume(note_time, stop_point),
    {
        proof {
            crate::time::lemma_wf_bound(note_time);
        }
        let release_numer: i64 = match stop_point {
            Some(sp) => {
                let limit = sp.saturating_add(self.release_time);
                if limit.lt(&note_time) {
                    return None;
                }
                let progress = note_time.saturating_sub(sp);
                let rt = self.release_time.as_nanos();
                if rt == 0 {
                    FIXED_SCALE
                } else {
                    let pn = progress.as_nanos();
                    proof {
                        assert(pn * 1_000_000_000 <= u128::MAX as int) by (nonlinear_arith)
                            requires
                                0 <= pn <= max_time_nanos(),
                                max_time_nanos() == 18446744073709551615999999999int,
                        ;
                        vstd::arithmetic::mul::lemma_mul_inequality(
                            pn as int,
                            rt as int,
                            1_000_000_000,
                        );
                        vstd::arithmetic::div_mod::lemma_div_is_ordered(
                            pn as int * 1_000_000_000,
                            rt as int * 1_000_000_000,
                            rt as int,
                        );
                        vstd::arithmetic::div_mod::lemma_div_multiples_vanish(
                            1_000_000_000,
                            rt as int,
                        );
                        vstd::arithmetic::div_mod::lemma_div_pos_is_pos(
                            pn as int * 1_000_000_000,
                            rt as int,
                        );
                    }
                    let frac = pn * 1_000_000_000u128 / rt;
                    FIXED_SCALE - frac as i64
                }
            },
            None => FIXED_SCALE,
        };
        let base: i64 = if note_time.lt(&self.attack_time) {
            let nn = note_time.as_nanos();
            let an = self.attack_time.as_nanos();
            proof {
                assert(nn * 1_000_000_000 <= u128::MAX as int) by (nonlinear_arith)
                    requires
                        0 <= nn <= max_time_nanos(),
                        max_time_nanos() == 18446744073709551615999999999int,
                ;
                assert(nn as int * 1_000_000_000 < 1_000_000_000 * (an as int)) by (nonlinear_arith)
                    requires
                        nn < an,
                ;
                crate::fixed::lemma_div_lt(nn as int * 1_000_000_000, an as int, 1_000_000_000);
                vstd::arithmetic::div_mod::lemma_div_pos_is_pos(
                    nn as int * 1_000_000_000,
                    an as int,
                );
            }
            (nn * 1_000_000_000u128 / an) as i64
        } else {
            let decay_time = note_time.saturating_sub(self.attack_time);
            decay(decay_time.as_nanos(), self.halving_rate)
        };
        proof {
            assert(base as int * release_numer as int <= u128::MAX as int) by (nonlinear_arith)
                requires
                    0 <= base <= i64::MAX,
                    0 <= release_numer <= FIXED_SCALE,
                    FIXED_SCALE == 1_000_000_000,
            ;
            assert(base as int * release_numer as int >= 0) by (nonlinear_arith)
                requires
                    base >= 0,
                    release_numer >= 0,
            ;
            vstd::arithmetic::div_mod::lemma_div_pos_is_pos(
                base as int * release_numer as int,
                FIXED_SCALE as int,
            );
            vstd::arithmetic::mul::lemma_mul_inequality(
                release_numer as int,
                FIXED_SCALE as int,
                base as int,
            );
            assert(release_numer as int * base as int == base as int * release_numer as int)
                by (nonlinear_arith);
            assert(FIXED_SCALE as int * base as int == base as int * FIXED_SCALE as int)
                by (nonlinear_arith);
            vstd::arithmetic::div_mod::lemma_div_is_ordered(
                base as int * release_numer as int,
                base as int * FIXED_SCALE as int,
                FIXED_SCALE as int,
            );
            vstd::arithmetic::div_mod::lemma_div_by_multiple(base as int, FIXED_SCALE as int);
        }
        let numer = (base as u128) * (release_numer as u128) / (FIXED_SCALE as u128);
        Some(Fixed { numer: numer as i64 })
    }
}

/// The decay multiplier numerator after `d` nanoseconds at halving rate `hr`.
fn decay(d: u128, hr: Fixed) -> (r: i64)
    ensures
        r as int == decay_numer(d as int, hr.numer as int),
        0 <= r,
{
    let hr_mag = mag(hr.numer) as u128;
    match d.checked_mul(hr_mag) {
        None => {
            proof {
                lemma_decay_overflow(d as int, hr.numer as int, hr_mag as int);
            }
            if hr.numer >= 0 {
                0
            } else {
                i64::MAX
            }
        },
        Some(p) => {
            let q = p / 1_000_000_000u128;
            if hr.numer < 0 {
                proof {
                    assert(d as int * (hr.numer as int) == -(d as int * hr_mag as int))
                        by (nonlinear_arith)
                        requires
                            hr.numer < 0,
                            hr_mag == -(hr.numer as int),
                    ;
                    vstd::arithmetic::div_mod::lemma_div_pos_is_pos(p as int, 1_000_000_000);
                }
                if q == 0 {
                    proof {
                        lemma_pow_half_at_zero();
                    }
                    FIXED_SCALE
                } else {
                    i64::MAX
                }
            } else {
                proof {
                    assert(d as int * (hr.numer as int) == d as int * hr_mag as int)
                        by (nonlinear_arith)
                        requires
                            hr.numer >= 0,
                            hr_mag == hr.numer as int,
                    ;
                }
                pow_half(q)
            }
        },
    }
}

/// The fixed-point half power at a non-negative exponent numerator.
fn pow_half(x: u128) -> (r: i64)
    ensures
        r as int == pow_half_numer(x as int),
        0 <= r,
{
    let k128 = x / 1_000_000_000u128;
    if k128 >= 63 {
        return 0;
    }
    let k = k128 as u64;
    let f = (x % 1_000_000_000u128) as u64;
    proof {
        vstd::arithmetic::div_mod::lemma_mod_bound(x as int, 1_000_000_000);
        vstd::arithmetic::power2::lemma2_to64();
        vstd::arithmetic::power2::lemma2_to64_rest();
    }
    let mut p: u64 = 1;
    let mut i: u64 = 0;
    while i < k
        invariant
            i <= k,
            k <= 62,
            p == pow2(i as nat),
        decreases k - i,
    {
        proof {
            vstd::arithmetic::power2::lemma2_to64();
            vstd::arithmetic::power2::lemma2_to64_rest();
            if i + 1 < 62 {
                vstd::arithmetic::power2::lemma_pow2_strictly_increases((i + 1) as nat, 62nat);
            }
            vstd::arithmetic::power2::lemma_pow2_adds(i as nat, 1nat);
        }
        p = p * 2;
        i = i + 1;
    }
    proof {
        vstd::arithmetic::power2::lemma_pow2_pos(k as nat);
        vstd::arithmetic::div_mod::lemma_div_nonincreasing(
            (FIXED_SCALE as u64 - f / 2) as int,
            pow2(k as nat) as int,
        );
        vstd::arithmetic::div_mod::lemma_div_pos_is_pos(
            (FIXED_SCALE as u64 - f / 2) as int,
            pow2(k as nat) as int,
        );
    }
    ((FIXED_SCALE as u64 - f / 2) / p) as i64
}

/// The half power of a non-negative exponent lies in `[0, 1]`; a negative
/// exponent saturates to the largest scalar, still within `i64` range.
pub proof fn lemma_pow_half_range(x: int)
    ensures
        0 <= pow_half_numer(x) <= i64::MAX as int,
        x >= 0 ==> pow_half_numer(x) <= FIXED_SCALE as int,
{
    let s = FIXED_SCALE as int;
    if x >= 0 {
        let k = x / s;
        let f = x % s;
        vstd::arithmetic::div_mod::lemma_div_pos_is_pos(x, s);
        vstd::arithmetic::div_mod::lemma_mod_bound(x, s);
        if k < 63 {
            vstd::arithmetic::power2::lemma_pow2_pos(k as nat);
            vstd::arithmetic::div_mod::lemma_div_pos_is_pos(f, 2);
            vstd::arithmetic::div_mod::lemma_div_nonincreasing(f, 2);
            vstd::arithmetic::div_mod::lemma_div_pos_is_pos(s - f / 2, pow2(k as nat) as int);
            vstd::arithmetic::div_mod::lemma_div_nonincreasing(s - f / 2, pow2(k as nat) as int);
        }
    }
}

/// The half power is monotonically non-increasing in its exponent.
pub proof fn lemma_pow_half_monotone(x1: int, x2: int)
    requires
        x1 <= x2,
    ensures
        pow_half_numer(x2) <= pow_half_numer(x1),
{
    let s = FIXED_SCALE as int;
    lemma_pow_half_range(x1);
    lemma_pow_half_range(x2);
    if 0 <= x1 {
        let k1 = x1 / s;
        let k2 = x2 / s;
        let f1 = x1 % s;
        let f2 = x2 % s;
        vstd::arithmetic::div_mod::lemma_div_is_ordered(x1, x2, s);
        vstd::arithmetic::div_mod::lemma_div_pos_is_pos(x1, s);
        vstd::arithmetic::div_mod::lemma_mod_bound(x1, s);
        vstd::arithmetic::div_mod::lemma_mod_bound(x2, s);
        if k2 >= 63 {
            // the faster side is exactly zero, and the other side is
            // non-negative by the range lemma
        } else if k1 == k2 {
            vstd::arithmetic::div_mod::lemma_fundamental_div_mod(x1, s);
            vstd::arithmetic::div_mod::lemma_fundamental_div_mod(x2, s);
            vstd::arithmetic::div_mod::lemma_div_is_ordered(f1, f2, 2);
            vstd::arithmetic::power2::lemma_pow2_pos(k1 as nat);
            vstd::arithmetic::div_mod::lemma_div_is_ordered(
                s - f2 / 2,
                s - f1 / 2,
                pow2(k1 as nat) as int,
            );
        } else {
            // k1 < k2 < 63: the faster side has halved at least once more
            let p1 = pow2(k1 as nat) as int;
            let p1x = pow2((k1 + 1) as nat) as int;
            let p2 = pow2(k2 as nat) as int;
            vstd::arithmetic::power2::lemma_pow2_pos(k1 as nat);
            vstd::arithmetic::power2::lemma_pow2_pos((k1 + 1) as nat);
            vstd::arithmetic::power2::lemma_pow2_pos(k2 as nat);
            vstd::arithmetic::div_mod::lemma_div_pos_is_pos(f2, 2);
            vstd::arithmetic::div_mod::lemma_div_is_ordered(s - f2 / 2, s, p2);
            if k1 + 1 < k2 {
                vstd::arithmetic::power2::lemma_pow2_strictly_increases(
                    (k1 + 1) as nat,
                    k2 as nat,
                );
            }
            vstd::arithmetic::div_mod::lemma_div_is_ordered_by_denominator(s, p1x, p2);
            vstd::arithmetic::power2::lemma_pow2_adds(1nat, k1 as nat);
            vstd::arithmetic::power2::lemma2_to64();
            vstd::arithmetic::div_mod::lemma_div_denominator(s, 2, p1);
            assert(s / p1x == (s / 2) / p1);
            vstd::arithmetic::div_mod::lemma_div_is_ordered(f1, s - 1, 2);
            vstd::arithmetic::div_mod::lemma_fundamental_div_mod_converse(
                999_999_999,
                2,
                499_999_999,
                1,
            );
            vstd::arithmetic::div_mod::lemma_fundamental_div_mod_converse(
                1_000_000_000,
                2,
                500_000_000,
                0,
            );
            vstd::arithmetic::div_mod::lemma_div_is_ordered(s / 2, s - f1 / 2, p1);
        }
    } else if 0 <= x2 {
        // the slower side saturates at the largest scalar
    }
}

/// LAW: past the attack, raising the halving rate never raises the envelope:
/// with no stop point, the volume at a fixed note time is monotonically
/// non-increasing as the halving rate increases.
pub proof fn lemma_volume_monotone_in_halving_rate(slow: Envelope, fast: Envelope, note_time: Time)
    requires
        slow.attack_time == fast.attack_time,
        slow.release_time == fast.release_time,
        slow.halving_rate.numer <= fast.halving_rate.numer,
        note_time@ >= slow.attack_time@,
        note_time@ >= 0,
    ensures
        slow.spec_sample_volume(note_time, None) is Some,
        fast.spec_sample_volume(note_time, None) is Some,
        fast.spec_sample_volume(note_time, None)->Some_0.numer <= slow.spec_sample_volume(
            note_time,
            None,
        )->Some_0.numer,
{
    let s = FIXED_SCALE as int;
    let d = note_time@ - slow.attack_time@;
    let hr_slow = slow.halving_rate.numer as int;
    let hr_fast = fast.halving_rate.numer as int;
    vstd::arithmetic::mul::lemma_mul_inequality(hr_slow, hr_fast, d);
    assert(hr_slow * d == d * hr_slow) by (nonlinear_arith);
    assert(hr_fast * d == d * hr_fast) by (nonlinear_arith);
    crate::fixed::lemma_tdiv_monotone(d * hr_slow, d * hr_fast, s);
    lemma_pow_half_monotone(tdiv(d * hr_slow, s), tdiv(d * hr_fast, s));
    lemma_pow_half_range(tdiv(d * hr_slow, s));
    lemma_pow_half_range(tdiv(d * hr_fast, s));
}

/// LAW: during the attack, with no stop point, the volume is exactly the
/// fraction of the attack time already elapsed.
pub proof fn lemma_volume_during_attack(env: Envelope, note_time: Time)
    requires
        0 <= note_time@ < env.attack_time@,
    ensures
        env.spec_sample_volume(note_time, None) == Some(
            (Fixed { numer: (note_time@ * (FIXED_SCALE as int) / env.attack_time@) as i64 }),
        ),
{
}

/// LAW: while the note has not yet reached its stop point, a set stop point
/// changes nothing: the released and un-released envelopes agree exactly, so
/// the value at the stop point itself matches the value just before release.
pub proof fn lemma_release_continuity(env: Envelope, note_time: Time, stop_point: Time)
    requires
        0 <= note_time@ <= stop_point@,
        env.release_time@ >= 0,
    ensures
        env.spec_sample_volume(note_time, Some(stop_point)) == env.spec_sample_volume(
            note_time,
            None,
        ),
{
    let s = FIXED_SCALE as int;
    lemma_base_range(env, note_time);
    let base = env.base_numer(note_time);
    if note_time@ == stop_point@ {
    }
    if env.release_time@ != 0 {
        vstd::arithmetic::div_mod::lemma_basic_div(0, env.release_time@);
        assert(0int * s == 0) by (nonlinear_arith);
    }
    assert(env.release_numer(note_time, stop_point) == s);
    vstd::arithmetic::div_mod::lemma_div_by_multiple(base, s);
}

/// The attack-or-decay multiplier always lies in `[0, i64::MAX]`, and during
/// the attack below one.
pub proof fn lemma_base_range(env: Envelope, note_time: Time)
    requires
        note_time@ >= 0,
    ensures
        0 <= env.base_numer(note_time) <= i64::MAX as int,
        note_time@ < env.attack_time@ ==> env.base_numer(note_time) < FIXED_SCALE as int,
{
    let s = FIXED_SCALE as int;
    if note_time@ < env.attack_time@ {
        vstd::arithmetic::div_mod::lemma_div_pos_is_pos(note_time@ * s, env.attack_time@);
        assert(note_time@ * s >= 0) by (nonlinear_arith)
            requires
                note_time@ >= 0,
                s > 0,
        ;
        assert(note_time@ * s < s * env.attack_time@) by (nonlinear_arith)
            requires
                0 <= note_time@ < env.attack_time@,
                s > 0,
        ;
        crate::fixed::lemma_div_lt(note_time@ * s, env.attack_time@, s);
    } else {
        lemma_pow_half_range(tdiv((note_time@ - env.attack_time@) * env.halving_rate.numer, s));
    }
}

/// The half power at exponent zero is exactly one.
proof fn lemma_pow_half_at_zero()
    ensures
        pow_half_numer(0) == FIXED_SCALE as int,
{
    vstd::arithmetic::power2::lemma2_to64();
    vstd::arithmetic::div_mod::lemma_basic_div(0, FIXED_SCALE as int);
    vstd::arithmetic::div_mod::lemma_small_mod(0nat, FIXED_SCALE as nat);
    vstd::arithmetic::div_mod::lemma_div_basics_2(FIXED_SCALE as int);
}

/// A product of decay time and rate too large for `u128` pushes the exponent
/// past 63 whole halvings, where the half power is exactly zero.
proof fn lemma_decay_overflow(d: int, hr: int, hr_mag: int)
    requires
        d >= 0,
        hr_mag == (if hr >= 0 { hr } else { -hr }),
        d * hr_mag > u128::MAX as int,
    ensures
        hr >= 0 ==> decay_numer(d, hr) == 0,
        hr < 0 ==> decay_numer(d, hr) == i64::MAX as int,
{
    let s = FIXED_SCALE as int;
    if hr >= 0 {
        assert(d * hr == d * hr_mag) by (nonlinear_arith)
            requires
                hr >= 0,
                hr_mag == hr,
        ;
        assert((63int * s) * s <= u128::MAX as int) by (nonlinear_arith)
            requires
                s == 1_000_000_000,
        ;
        vstd::arithmetic::div_mod::lemma_div_is_ordered((63 * s) * s, d * hr, s);
        vstd::arithmetic::div_mod::lemma_div_by_multiple(63 * s, s);
        vstd::arithmetic::div_mod::lemma_div_is_ordered(63 * s, (d * hr) / s, s);
        vstd::arithmetic::div_mod::lemma_div_by_multiple(63, s);
    } else {
        assert(d * hr == -(d * hr_mag)) by (nonlinear_arith)
            requires
                hr < 0,
                hr_mag == -hr,
        ;
        vstd::arithmetic::div_mod::lemma_div_pos_is_pos(d * hr_mag, s);
        assert((d * hr_mag) / s > 0) by {
            vstd::arithmetic::div_mod::lemma_div_is_ordered(s, d * hr_mag, s);
            vstd::arithmetic::div_mod::lemma_div_by_multiple(1, s);
            assert(1 * s == s) by (nonlinear_arith);
        }
    }
}

} // verus!
