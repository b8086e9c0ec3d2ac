//! A span of time, counted in nanoseconds, with the range and the
//! arithmetic of `std::time::Duration` that the retry logic relies on.

use vstd::prelude::*;

verus! {

/// Nanoseconds in one second.
pub const NANOS_PER_SEC: u128 = 1_000_000_000;

/// Nanoseconds in one millisecond.
pub const NANOS_PER_MILLI: u128 = 1_000_000;

/// The longest span that can be held: `u64::MAX` whole seconds and
/// 999 999 999 nanoseconds, as for `std::time::Duration`.
pub const MAX_NANOS: u128 = 18_446_744_073_709_551_615_999_999_999;

/// A span of time. Its view is the number of nanoseconds it spans.
#[derive(Clone, Copy, Debug, PartialEq, Eq, Structural, Hash)]
pub struct Duration {
    nanos: u128,
}

impl Duration {
    #[verifier::type_invariant]
    spec fn in_range(self) -> bool {
        self.nanos <= MAX_NANOS
    }
}

impl View for Duration {
    type V = nat;

    closed spec fn view(&self) -> nat {
        self.nanos as nat
    }
}

impl Duration {
    /// A span of `secs` seconds and `nanos` nanoseconds; nanoseconds past a
    /// whole second carry into the seconds, which must not overflow.
    pub fn new(secs: u64, nanos: u32) -> (d: Duration)
        requires
            secs * NANOS_PER_SEC + nanos <= MAX_NANOS,
        ensures
            d@ == secs * NANOS_PER_SEC + nanos,
    {
        assert(secs * NANOS_PER_SEC <= u64::MAX * NANOS_PER_SEC) by (nonlinear_arith)
            requires
                secs <= u64::MAX,
        ;
        Duration { nanos: (secs as u128) * NANOS_PER_SEC + (nanos as u128) }
    }

    /// A span of `nanos` nanoseconds.
    pub fn from_nanos(nanos: u64) -> (d: Duration)
        ensures
            d@ == nanos,
    {
        Duration { nanos: nanos as u128 }
    }

    /// A span of `secs` whole seconds.
    pub fn from_secs(secs: u64) -> (d: Duration)
        ensures
            d@ == secs * NANOS_PER_SEC,
    {
        assert(secs * NANOS_PER_SEC <= MAX_NANOS) by (nonlinear_arith)
            requires
                secs <= u64::MAX,
        ;
        Duration { nanos: (secs as u128) * NANOS_PER_SEC }
    }

    /// A span of `millis` milliseconds.
    pub fn from_millis(millis: u64) -> (d: Duration)
        ensures
            d@ == millis * NANOS_PER_MILLI,
    {
        assert(millis * NANOS_PER_MILLI <= MAX_NANOS) by (nonlinear_arith)
            requires
                millis <= u64::MAX,
        ;
        Duration { nanos: (millis as u128) * NANOS_PER_MILLI }
    }

    /// The whole seconds in this span.
    pub fn as_secs(&self) -> (secs: u64)
        ensures
            secs == self@ / (NANOS_PER_SEC as nat),
    {
        proof {
            use_type_invariant(self);
        }
        (self.nanos / NANOS_PER_SEC) as u64
    }

    /// The nanoseconds past the whole seconds of this span.
    pub fn subsec_nanos(&self) -> (nanos: u32)
        ensures
            nanos == self@ % (NANOS_PER_SEC as nat),
    {
        (self.nanos % NANOS_PER_SEC) as u32
    }

    /// The whole span in nanoseconds.
    pub fn as_nanos(&self) -> (nanos: u128)
        ensures
            nanos == self@,
            nanos <= MAX_NANOS,
    {
        proof {
            use_type_invariant(self);
        }
        self.nanos
    }

    /// The span `rhs` times as long, or `None` where it would not fit.
    pub fn checked_mul(self, rhs: u32) -> (r: Option<Duration>)
        ensures
            r is Some <==> self@ * rhs <= MAX_NANOS,
            r matches Some(d) ==> d@ == self@ * rhs,
    {
        proof {
            use_type_invariant(&self);
        }
        assert(self.nanos * rhs <= MAX_NANOS * 0xffff_ffffu128) by (nonlinear_arith)
            requires
                self.nanos <= MAX_NANOS,
                rhs <= 0xffff_ffffu32,
        ;
        let product: u128 = self.nanos * (rhs as u128);
        if product <= MAX_NANOS {
            Some(Duration { nanos: product })
        } else {
            None
        }
    }

    /// The shorter of the two spans (`self` where they are equal).
    pub fn min(self, other: Duration) -> (r: Duration)
        ensures
            r@ == if other@ < self@ { other@ } else { self@ },
            r == if other@ < self@ { other } else { self },
    {
        if other.nanos < self.nanos {
            other
        } else {
            self
        }
    }
}

} // verus!
