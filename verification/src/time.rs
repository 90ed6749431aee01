//! Spans of time.

use vstd::prelude::*;

verus! {

pub const NANOS_PER_SECOND: u128 = 1_000_000_000;

pub const NANOS_PER_MILLISECOND: u128 = 1_000_000;

/// The longest span: all seconds that a `u64` counts, and the nanoseconds that
/// do not make another one.
pub const MAX_NANOS: u128 = 18_446_744_073_709_551_615_999_999_999;

/// A span of time with nanosecond precision.
#[derive(Clone, Copy, Debug, PartialEq, Eq, Structural)]
pub struct Duration {
    nanos: u128,
}

impl View for Duration {
    type V = u128;

    closed spec fn view(&self) -> u128 {
        self.nanos
    }
}

impl Duration {
    #[verifier::type_invariant]
    pub open spec fn is_in_range(self) -> bool {
        self@ <= MAX_NANOS
    }

    pub fn from_secs(seconds: u64) -> (span: Duration)
        ensures
            span@ == seconds * NANOS_PER_SECOND,
    {
        Duration { nanos: seconds as u128 * NANOS_PER_SECOND }
    }

    pub fn from_millis(millis: u64) -> (span: Duration)
        ensures
            span@ == millis * NANOS_PER_MILLISECOND,
    {
        Duration { nanos: millis as u128 * NANOS_PER_MILLISECOND }
    }

    pub fn as_nanos(self) -> (nanos: u128)
        ensures
            nanos == self@,
            nanos <= MAX_NANOS,
    {
        proof {
            use_type_invariant(&self);
        }
        self.nanos
    }

    pub fn is_zero(self) -> (result: bool)
        ensures
            result == (self@ == 0),
    {
        self.nanos == 0
    }

    /// The span `factor` times over, or the longest span.
    pub fn saturating_mul(self, factor: u32) -> (span: Duration)
        ensures
            span@ == if self@ * factor > MAX_NANOS {
                MAX_NANOS as int
            } else {
                self@ * factor
            },
    {
        proof {
            use_type_invariant(&self);
            let nanos = self@;
            assert(0 <= nanos * factor <= MAX_NANOS * 0xffff_ffff) by (nonlinear_arith)
                requires
                    0 <= nanos <= MAX_NANOS,
                    0 <= factor <= 0xffff_ffff,
            ;
        }
        let product: u128 = self.nanos * factor as u128;
        if product > MAX_NANOS {
            Duration { nanos: MAX_NANOS }
        } else {
            Duration { nanos: product }
        }
    }

    /// The shorter of two spans.
    pub fn min(self, other: Duration) -> (span: Duration)
        ensures
            span == if self@ <= other@ {
                self
            } else {
                other
            },
    {
        if self.nanos <= other.nanos {
            self
        } else {
            other
        }
    }
}

} // verus!
