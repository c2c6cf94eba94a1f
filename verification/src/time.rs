//! Time as the CLINT reports it: a monotonic tick counter converted to a
//! span of seconds and nanoseconds since boot.

use vstd::prelude::*;

verus! {

/// Ticks per second of the platform timer (a 10 MHz counter).
pub const TICKS_PER_SECOND: u64 = 10_000_000;

/// Nanoseconds per tick of the platform timer.
pub const NANOS_PER_TICK: u64 = 100;

/// Nanoseconds per second.
pub const NANOS_PER_SECOND: u64 = 1_000_000_000;

/// A span of time: whole seconds and the nanoseconds below a second.
#[derive(Clone, Copy, PartialEq, Eq, Structural, Debug)]
pub struct TimeSpan {
    pub secs: u64,
    pub nanos: u32,
}

impl TimeSpan {
    /// A normalized span: the nanosecond part stays below one second.
    pub open spec fn wf(self) -> bool {
        self.nanos < NANOS_PER_SECOND
    }

    /// The span as a total count of nanoseconds.
    pub open spec fn spec_total_nanos(self) -> int {
        self.secs * NANOS_PER_SECOND + self.nanos
    }

    /// A span from seconds and nanoseconds; nanoseconds of a second or more
    /// carry into the seconds.
    pub fn new(secs: u64, nanos: u32) -> (r: TimeSpan)
        requires
            secs + 4 < u64::MAX,
        ensures
            r.wf(),
            r.spec_total_nanos() == secs * NANOS_PER_SECOND + nanos,
    {
        let carry = (nanos as u64) / NANOS_PER_SECOND;
        let rest = (nanos as u64) % NANOS_PER_SECOND;
        proof {
            vstd::arithmetic::div_mod::lemma_fundamental_div_mod(nanos as int, NANOS_PER_SECOND as int);
            vstd::arithmetic::div_mod::lemma_div_is_ordered(
                nanos as int,
                u32::MAX as int,
                NANOS_PER_SECOND as int,
            );
            vstd::arithmetic::mul::lemma_mul_is_distributive_add(
                NANOS_PER_SECOND as int,
                secs as int,
                carry as int,
            );
        }
        TimeSpan { secs: secs + carry, nanos: rest as u32 }
    }

    /// The seconds part.
    pub fn as_secs(&self) -> (r: u64)
        ensures
            r == self.secs,
    {
        self.secs
    }

    /// The nanoseconds below a second.
    pub fn subsec_nanos(&self) -> (r: u32)
        ensures
            r == self.nanos,
    {
        self.nanos
    }

    /// Whether this span is at least `other`.
    pub fn is_at_least(&self, other: &TimeSpan) -> (r: bool)
        requires
            self.wf(),
            other.wf(),
        ensures
            r == (self.spec_total_nanos() >= other.spec_total_nanos()),
    {
        proof {
            if self.secs > other.secs {
                vstd::arithmetic::mul::lemma_mul_inequality(
                    other.secs as int + 1,
                    self.secs as int,
                    NANOS_PER_SECOND as int,
                );
                vstd::arithmetic::mul::lemma_mul_is_distributive_add_other_way(
                    NANOS_PER_SECOND as int,
                    other.secs as int,
                    1,
                );
            } else if self.secs < other.secs {
                vstd::arithmetic::mul::lemma_mul_inequality(
                    self.secs as int + 1,
                    other.secs as int,
                    NANOS_PER_SECOND as int,
                );
                vstd::arithmetic::mul::lemma_mul_is_distributive_add_other_way(
                    NANOS_PER_SECOND as int,
                    self.secs as int,
                    1,
                );
            }
        }
        self.secs > other.secs || (self.secs == other.secs && self.nanos >= other.nanos)
    }

    /// The sum of two spans.
    pub fn checked_add(&self, other: &TimeSpan) -> (r: Option<TimeSpan>)
        requires
            self.wf(),
            other.wf(),
        ensures
            r matches Some(sum) ==> sum.wf() && sum.spec_total_nanos() == self.spec_total_nanos()
                + other.spec_total_nanos(),
            r is None ==> self.secs + other.secs + 1 > u64::MAX,
    {
        let nanos = self.nanos as u64 + other.nanos as u64;
        let carry = nanos / NANOS_PER_SECOND;
        let rest = nanos % NANOS_PER_SECOND;
        proof {
            vstd::arithmetic::div_mod::lemma_fundamental_div_mod(nanos as int, NANOS_PER_SECOND as int);
            vstd::arithmetic::div_mod::lemma_div_is_ordered(
                nanos as int,
                2 * NANOS_PER_SECOND as int - 1,
                NANOS_PER_SECOND as int,
            );
        }
        if other.secs == u64::MAX || self.secs > u64::MAX - 1 - other.secs {
            return None;
        }
        let secs = self.secs + other.secs + carry;
        proof {
            vstd::arithmetic::mul::lemma_mul_is_distributive_add(
                NANOS_PER_SECOND as int,
                self.secs as int + other.secs as int,
                carry as int,
            );
            vstd::arithmetic::mul::lemma_mul_is_distributive_add(
                NANOS_PER_SECOND as int,
                self.secs as int,
                other.secs as int,
            );
        }
        Some(TimeSpan { secs, nanos: rest as u32 })
    }
}

/// The span of time `ticks` timer ticks cover: each tick is 100 ns.
pub fn duration_from_ticks(ticks: u64) -> (r: TimeSpan)
    ensures
        r.wf(),
        r.spec_total_nanos() == ticks * NANOS_PER_TICK,
{
    let secs = ticks / TICKS_PER_SECOND;
    let rem = ticks % TICKS_PER_SECOND;
    proof {
        vstd::arithmetic::div_mod::lemma_fundamental_div_mod(ticks as int, TICKS_PER_SECOND as int);
        assert(ticks % TICKS_PER_SECOND < TICKS_PER_SECOND);
        assert((ticks % TICKS_PER_SECOND) * NANOS_PER_TICK < NANOS_PER_SECOND) by {
            vstd::arithmetic::mul::lemma_mul_inequality(
                (ticks % TICKS_PER_SECOND) as int + 1,
                TICKS_PER_SECOND as int,
                NANOS_PER_TICK as int,
            );
            vstd::arithmetic::mul::lemma_mul_is_distributive_add_other_way(
                NANOS_PER_TICK as int,
                (ticks % TICKS_PER_SECOND) as int,
                1,
            );
        }
        assert(secs * NANOS_PER_SECOND + rem * NANOS_PER_TICK == ticks * NANOS_PER_TICK) by {
            vstd::arithmetic::mul::lemma_mul_is_distributive_add(
                NANOS_PER_TICK as int,
                (TICKS_PER_SECOND * secs) as int,
                rem as int,
            );
            vstd::arithmetic::mul::lemma_mul_is_associative(
                NANOS_PER_TICK as int,
                TICKS_PER_SECOND as int,
                secs as int,
            );
        }
    }
    TimeSpan { secs, nanos: (rem * NANOS_PER_TICK) as u32 }
}

} // verus!
