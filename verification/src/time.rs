//! The fixed-point period/time model.
//!
//! A [`Time`] counts whole seconds plus sub-second nanoseconds. The same type
//! doubles as a *period* counter, where one whole unit is one full waveform
//! cycle rather than one second. All arithmetic saturates at zero and at the
//! representable maximum instead of wrapping or failing, so a long-running
//! phase accumulator stays exact and overflow-safe.

use vstd::prelude::*;

use crate::fixed::{Fixed, FIXED_SCALE};

verus! {

/// Number of nanoseconds in one whole unit of [`Time`].
pub const NANOS_PER_SEC: u32 = 1_000_000_000;

/// A looser reading of [`Time`]: every "second" is instead one period of a
/// waveform. Invaluable for fixed-point phase math.
pub type Period = Time;

/// A saturating fixed-point counter of whole units and sub-unit nanoseconds.
///
/// The well-formedness condition [`Time::wf`] (the nanosecond field stays
/// below one whole unit) is kept by every operation here.
#[derive(Clone, Copy, Debug, PartialEq, Eq, Structural)]
pub struct Time {
    /// Whole units (seconds, or waveform cycles when used as a period).
    pub secs: u64,
    /// Sub-unit part, in nanoseconds; well-formed values keep this below
    /// [`NANOS_PER_SEC`].
    pub nanos: u32,
}

impl View for Time {
    type V = int;

    /// A time is modelled as its total count of nanoseconds.
    open spec fn view(&self) -> int {
        self.secs as int * 1_000_000_000 + self.nanos as int
    }
}

/// The value of the largest well-formed [`Time`], in nanoseconds.
pub open spec fn max_time_nanos() -> int {
    0xFFFF_FFFF_FFFF_FFFFu64 as int * 1_000_000_000 + 999_999_999
}

/// Clamps a non-negative mathematical nanosecond count to the largest
/// representable time.
pub open spec fn sat_time(n: int) -> int {
    if n > max_time_nanos() {
        max_time_nanos()
    } else {
        n
    }
}

impl Default for Time {
    /// The zero time.
    fn default() -> (r: Self)
        ensures
            r.wf(),
            r@ == 0,
    {
        Time { secs: 0, nanos: 0 }
    }
}

impl Time {
    /// The nanosecond field stays below one whole unit.
    pub open spec fn wf(self) -> bool {
        self.nanos < 1_000_000_000
    }

    /// The zero time.
    pub fn zero() -> (r: Time)
        ensures
            r.wf(),
            r@ == 0,
    {
        Time { secs: 0, nanos: 0 }
    }

    /// The largest representable time; saturating arithmetic clamps here.
    pub fn max_time() -> (r: Time)
        ensures
            r.wf(),
            r@ == max_time_nanos(),
    {
        Time { secs: u64::MAX, nanos: 999_999_999 }
    }

    /// Builds a time from whole units and a nanosecond count that may reach
    /// one unit or more; the excess carries into the whole-unit field, and a
    /// carry past `u64::MAX` units saturates to the maximum.
    pub fn new(secs: u64, nanos: u32) -> (r: Time)
        ensures
            r.wf(),
            r@ == sat_time(secs as int * 1_000_000_000 + nanos as int),
    {
        let extra = (nanos / NANOS_PER_SEC) as u64;
        match secs.checked_add(extra) {
            Some(total_secs) => Time { secs: total_secs, nanos: nanos % NANOS_PER_SEC },
            None => Time::max_time(),
        }
    }

    /// The total nanosecond count, exactly.
    pub fn as_nanos(&self) -> (r: u128)
        ensures
            r == self@,
    {
        proof {
            assert(self.secs as int * 1_000_000_000 + self.nanos as int <= u128::MAX as int)
                by (nonlinear_arith)
                requires
                    self.secs <= u64::MAX,
                    self.nanos <= u32::MAX,
            ;
        }
        self.secs as u128 * 1_000_000_000u128 + self.nanos as u128
    }

    /// Builds a time from a total nanosecond count, saturating at the
    /// representable maximum.
    pub fn from_nanos_saturating(n: u128) -> (r: Time)
        ensures
            r.wf(),
            r@ == sat_time(n as int),
    {
        let q = n / 1_000_000_000u128;
        let rem = n % 1_000_000_000u128;
        proof {
            vstd::arithmetic::div_mod::lemma_fundamental_div_mod(n as int, 1_000_000_000int);
            vstd::arithmetic::div_mod::lemma_mod_bound(n as int, 1_000_000_000int);
        }
        if q > u64::MAX as u128 {
            proof {
                assert(n as int > max_time_nanos()) by (nonlinear_arith)
                    requires
                        n as int == q as int * 1_000_000_000 + rem as int,
                        q as int >= u64::MAX as int + 1,
                        rem as int >= 0,
                ;
            }
            Time::max_time()
        } else {
            proof {
                assert(q as int * 1_000_000_000 + rem as int <= max_time_nanos())
                    by (nonlinear_arith)
                    requires
                        q as int <= u64::MAX as int,
                        rem < 1_000_000_000,
                ;
            }
            Time { secs: q as u64, nanos: rem as u32 }
        }
    }

    /// Whether this time is strictly before `other`.
    pub fn lt(&self, other: &Time) -> (r: bool)
        ensures
            r == (self@ < other@),
    {
        self.as_nanos() < other.as_nanos()
    }

    /// Saturating addition.
    pub fn saturating_add(self, other: Time) -> (r: Time)
        ensures
            r.wf(),
            r@ == sat_time(self@ + other@),
    {
        Time::from_nanos_saturating(self.as_nanos() + other.as_nanos())
    }

    /// Subtraction that saturates at zero.
    pub fn saturating_sub(self, other: Time) -> (r: Time)
        requires
            self.wf(),
        ensures
            r.wf(),
            r@ == (if self@ >= other@ { self@ - other@ } else { 0 }),
    {
        let a = self.as_nanos();
        let b = other.as_nanos();
        if a >= b {
            Time::from_nanos_saturating(a - b)
        } else {
            Time::zero()
        }
    }

    /// Scales a time by a fixed-point factor, rounding down. A negative
    /// factor clamps to zero and an overflowing product clamps to the
    /// representable maximum.
    pub fn saturating_mul_fixed(self, scalar: Fixed) -> (r: Time)
        ensures
            r.wf(),
            r@ == (if scalar.numer < 0 {
                0int
            } else {
                sat_time(self@ * scalar.numer / (FIXED_SCALE as int))
            }),
    {
        if scalar.numer < 0 {
            return Time::zero();
        }
        let n = self.as_nanos();
        match n.checked_mul(scalar.numer as u128) {
            Some(product) => Time::from_nanos_saturating(product / (NANOS_PER_SEC as u128)),
            None => {
                proof {
                    lemma_overflowed_scale_saturates(n as int, scalar.numer as int);
                }
                Time::max_time()
            },
        }
    }
}

/// The canonical time with a given non-negative nanosecond count: the form
/// every saturating operation here answers in.
pub open spec fn time_from_nanos(n: int) -> Time {
    Time { secs: (n / 1_000_000_000) as u64, nanos: (n % 1_000_000_000) as u32 }
}

/// A canonical time built from a representable nanosecond count has exactly
/// that value.
pub proof fn lemma_time_from_nanos_view(n: int)
    requires
        0 <= n <= max_time_nanos(),
    ensures
        time_from_nanos(n).wf(),
        time_from_nanos(n)@ == n,
{
    vstd::arithmetic::div_mod::lemma_fundamental_div_mod(n, 1_000_000_000);
    vstd::arithmetic::div_mod::lemma_mod_bound(n, 1_000_000_000);
    vstd::arithmetic::div_mod::lemma_div_pos_is_pos(n, 1_000_000_000);
    vstd::arithmetic::div_mod::lemma_div_is_ordered(n, max_time_nanos(), 1_000_000_000);
    vstd::arithmetic::div_mod::lemma_fundamental_div_mod_converse(
        max_time_nanos(),
        1_000_000_000,
        u64::MAX as int,
        999_999_999,
    );
}

/// Every well-formed time is already in canonical form.
pub proof fn lemma_canonical(t: Time)
    requires
        t.wf(),
    ensures
        time_from_nanos(t@) == t,
{
    vstd::arithmetic::div_mod::lemma_fundamental_div_mod_converse(
        t@,
        1_000_000_000,
        t.secs as int,
        t.nanos as int,
    );
}

/// A well-formed time never exceeds the representable maximum.
pub proof fn lemma_wf_bound(t: Time)
    requires
        t.wf(),
    ensures
        0 <= t@ <= max_time_nanos(),
{
    vstd::arithmetic::mul::lemma_mul_inequality(t.secs as int, u64::MAX as int, 1_000_000_000);
    assert(t.secs as int * 1_000_000_000 >= 0) by (nonlinear_arith)
        requires
            t.secs >= 0,
    ;
}

/// Wraps a time into `[0, max)`: the remainder of `duration` by `max`.
pub fn wrap_duration(duration: Time, max: Time) -> (r: Time)
    requires
        duration.wf(),
        max.wf(),
        max@ != 0,
    ensures
        r.wf(),
        r@ == duration@ % max@,
        r@ < max@,
{
    let d = duration.as_nanos();
    let m = max.as_nanos();
    let r = Time::from_nanos_saturating(d % m);
    proof {
        vstd::arithmetic::div_mod::lemma_mod_bound(d as int, m as int);
    }
    r
}

/// A product too large for `u128` scales down to a value past the largest
/// representable time, so saturating to the maximum is exact.
proof fn lemma_overflowed_scale_saturates(n: int, s: int)
    requires
        n * s > u128::MAX as int,
    ensures
        n * s / (FIXED_SCALE as int) > max_time_nanos(),
{
    let d = FIXED_SCALE as int;
    let bound = max_time_nanos() + 1;
    assert(bound * d <= u128::MAX as int) by (nonlinear_arith)
        requires
            bound == 18446744073709551616000000000int,
            d == 1000000000int,
    ;
    vstd::arithmetic::div_mod::lemma_div_is_ordered(bound * d, n * s, d);
    vstd::arithmetic::div_mod::lemma_div_by_multiple(bound, d);
}

} // verus!
