//! Spans of time.
use crate::math::{law_towards_zero, towards_zero};
use vstd::arithmetic::mul::*;
use vstd::prelude::*;

verus! {

/// Nanoseconds in a second.
pub const NANOS_PER_SEC: u32 = 1_000_000_000;

/// The instant of the tick `ts`, in nanoseconds, where a tick lasts `numer / denom` seconds. What is
/// less than a nanosecond is cut off.
pub open spec fn tick_nanos(numer: int, denom: int, ts: int) -> int {
    towards_zero(ts * numer * NANOS_PER_SEC, denom)
}

/// The instant of a tick is the last nanosecond not after it. Before zero it is as after it.
pub proof fn law_tick_nanos(numer: int, denom: int, ts: int)
    requires
        numer > 0,
        denom > 0,
        ts >= 0,
    ensures
        0 <= tick_nanos(numer, denom, ts) * denom <= ts * numer * 1_000_000_000,
        ts * numer * 1_000_000_000 < (tick_nanos(numer, denom, ts) + 1) * denom,
        tick_nanos(numer, denom, ts) == ts * numer * 1_000_000_000 / denom,
        tick_nanos(numer, denom, -ts) == -tick_nanos(numer, denom, ts),
{
    let n = ts * numer * 1_000_000_000;
    lemma_mul_nonnegative(ts, numer);
    law_towards_zero(n, denom);
    assert((-ts) * numer * 1_000_000_000 == -n) by (nonlinear_arith)
        requires
            n == ts * numer * 1_000_000_000,
    ;
}

/// A span of time, to the nanosecond.
#[derive(Debug, Clone, Copy, PartialEq, Eq, PartialOrd, Ord, Structural)]
pub struct Duration {
    secs: u64,
    nanos: u32,
}

/// A span of time stands for its length in nanoseconds.
impl View for Duration {
    type V = int;

    closed spec fn view(&self) -> int {
        self.secs * NANOS_PER_SEC + self.nanos
    }
}

impl Duration {
    #[verifier::type_invariant]
    spec fn is_normalised(self) -> bool {
        self.nanos < NANOS_PER_SEC
    }

    /// The span of `secs` seconds and `nanos` nanoseconds. Nanoseconds that make up whole seconds
    /// are carried over.
    pub fn new(secs: u64, nanos: u32) -> (r: Duration)
        requires
            secs + nanos / NANOS_PER_SEC <= u64::MAX,
        ensures
            r@ == secs * NANOS_PER_SEC + nanos,
    {
        Duration { secs: secs + (nanos / NANOS_PER_SEC) as u64, nanos: nanos % NANOS_PER_SEC }
    }

    /// No time at all.
    pub fn zero() -> (r: Duration)
        ensures
            r@ == 0,
    {
        Duration { secs: 0, nanos: 0 }
    }

    /// The span of `millis` milliseconds.
    pub fn from_millis(millis: u64) -> (r: Duration)
        ensures
            r@ == millis * 1_000_000,
    {
        Duration { secs: millis / 1_000, nanos: (millis % 1_000) as u32 * 1_000_000 }
    }

    /// The span of `micros` microseconds.
    pub fn from_micros(micros: u64) -> (r: Duration)
        ensures
            r@ == micros * 1_000,
    {
        Duration { secs: micros / 1_000_000, nanos: (micros % 1_000_000) as u32 * 1_000 }
    }

    /// The whole seconds in this span.
    pub fn as_secs(&self) -> (r: u64)
        ensures
            r == self@ / NANOS_PER_SEC as int,
    {
        proof {
            use_type_invariant(self);
        }
        self.secs
    }

    /// The nanoseconds in this span beyond its whole seconds.
    pub fn subsec_nanos(&self) -> (r: u32)
        ensures
            r == self@ % NANOS_PER_SEC as int,
            r < NANOS_PER_SEC,
    {
        proof {
            use_type_invariant(self);
        }
        self.nanos
    }

    /// The whole milliseconds in this span.
    pub fn as_millis(&self) -> (r: u128)
        ensures
            r == self@ / 1_000_000,
    {
        proof {
            use_type_invariant(self);
        }
        self.secs as u128 * 1_000 + (self.nanos / 1_000_000) as u128
    }

    /// Whether there is no time in this span.
    pub fn is_zero(&self) -> (r: bool)
        ensures
            r == (self@ == 0),
    {
        self.secs == 0 && self.nanos == 0
    }

    /// The shorter of two spans.
    pub fn shorter(self, other: Duration) -> (r: Duration)
        ensures
            r@ == if self@ <= other@ {
                self@
            } else {
                other@
            },
            r == self || r == other,
    {
        proof {
            use_type_invariant(&self);
            use_type_invariant(&other);
        }
        if self.secs < other.secs || (self.secs == other.secs && self.nanos <= other.nanos) {
            self
        } else {
            other
        }
    }
}

} // verus!
