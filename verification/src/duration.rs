//! Spans of time with nanosecond precision.

use vstd::prelude::*;

verus! {

/// Nanoseconds in a second.
pub const NANOS_PER_SEC: u32 = 1_000_000_000;

/// The longest span a [`Duration`] holds, in nanoseconds: `u64::MAX` whole
/// seconds and `999_999_999` nanoseconds.
pub const MAX_NANOS: u128 = 18_446_744_073_709_551_615_999_999_999;

/// A span of time, counted in whole nanoseconds and never negative. It holds
/// what fits in `u64` seconds and a sub-second part.
#[derive(Debug, Clone, Copy, PartialEq, Eq, Structural, PartialOrd, Ord, Hash)]
pub struct Duration {
    nanos: u128,
}

impl View for Duration {
    type V = nat;

    /// The span in nanoseconds.
    closed spec fn view(&self) -> nat {
        self.nanos as nat
    }
}

impl Duration {
    #[verifier::type_invariant]
    spec fn in_range(self) -> bool {
        self.nanos <= MAX_NANOS
    }

    /// The empty span.
    pub fn zero() -> (span: Duration)
        ensures
            span@ == 0,
    {
        Duration { nanos: 0 }
    }

    /// The span of `secs` seconds and `nanos` nanoseconds. Where `nanos`
    /// holds a second or more, the whole seconds in it count as seconds; the
    /// sum of the seconds must fit in `u64`.
    pub fn new(secs: u64, nanos: u32) -> (span: Duration)
        requires
            secs + nanos / NANOS_PER_SEC <= u64::MAX,
        ensures
            span@ == secs * NANOS_PER_SEC + nanos,
    {
        let total: u128 = (secs as u128) * (NANOS_PER_SEC as u128) + (nanos as u128);
        Duration { nanos: total }
    }

    /// The span of `nanos` nanoseconds.
    pub fn from_nanos(nanos: u128) -> (span: Duration)
        requires
            nanos <= MAX_NANOS,
        ensures
            span@ == nanos,
    {
        Duration { nanos }
    }

    /// The span in nanoseconds.
    pub fn as_nanos(&self) -> (nanos: u128)
        ensures
            nanos == self@,
            nanos <= MAX_NANOS,
    {
        proof {
            use_type_invariant(self);
        }
        self.nanos
    }

    /// The whole seconds in the span.
    pub fn as_secs(&self) -> (secs: u64)
        ensures
            secs == self@ / (NANOS_PER_SEC as nat),
    {
        proof {
            use_type_invariant(self);
        }
        (self.nanos / (NANOS_PER_SEC as u128)) as u64
    }

    /// The part of the span below a second, in nanoseconds.
    pub fn subsec_nanos(&self) -> (nanos: u32)
        ensures
            nanos == self@ % (NANOS_PER_SEC as nat),
    {
        (self.nanos % (NANOS_PER_SEC as u128)) as u32
    }

    /// Two spans of the same length are the same value.
    pub proof fn lemma_equal_by_length(a: Duration, b: Duration)
        requires
            a@ == b@,
        ensures
            a == b,
    {
    }
}

} // verus!
