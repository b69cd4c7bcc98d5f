//! Spans of time with nanosecond resolution.

use vstd::prelude::*;

verus! {

/// Nanoseconds in one second.
pub const NANOS_PER_SEC: u64 = 1_000_000_000;

/// A span of time: whole seconds and the nanoseconds below one second.
#[derive(Debug, Clone, Copy, PartialEq, Eq)]
pub struct Duration {
    secs: u64,
    nanos: u32,
}

impl View for Duration {
    type V = nat;

    /// The span in nanoseconds.
    closed spec fn view(&self) -> nat {
        (self.secs * 1_000_000_000 + self.nanos) as nat
    }
}

impl Duration {
    #[verifier::type_invariant]
    closed spec fn wf(self) -> bool {
        self.nanos < 1_000_000_000
    }

    /// A span of whole seconds.
    pub fn from_secs(secs: u64) -> (d: Self)
        ensures
            d@ == secs * 1_000_000_000,
            d.spec_secs() == secs,
    {
        Duration { secs, nanos: 0 }
    }

    /// A span of milliseconds.
    pub fn from_millis(millis: u64) -> (d: Self)
        ensures
            d@ == millis * 1_000_000,
            d.spec_secs() == millis / 1000,
    {
        let secs = millis / 1000;
        let nanos = ((millis % 1000) * 1_000_000) as u32;
        assert(secs * 1_000_000_000 + (millis % 1000) * 1_000_000 == millis * 1_000_000)
            by (nonlinear_arith)
            requires
                secs == millis / 1000,
        ;
        Duration { secs, nanos }
    }

    /// Whole seconds of the span.
    pub closed spec fn spec_secs(self) -> u64 {
        self.secs
    }

    /// Whole seconds of the span.
    pub fn as_secs(&self) -> (r: u64)
        ensures
            r == self.spec_secs(),
            r == self@ / 1_000_000_000,
    {
        proof {
            use_type_invariant(self);
        }
        let r = self.secs;
        assert((self.secs * 1_000_000_000 + self.nanos) / 1_000_000_000 == self.secs)
            by (nonlinear_arith)
            requires
                self.nanos < 1_000_000_000,
        ;
        r
    }

    /// The nanoseconds beyond the whole seconds.
    pub fn subsec_nanos(&self) -> (r: u32)
        ensures
            r < 1_000_000_000,
            r == self@ % 1_000_000_000,
    {
        proof {
            use_type_invariant(self);
        }
        let r = self.nanos;
        assert((self.secs * 1_000_000_000 + self.nanos) % 1_000_000_000 == self.nanos)
            by (nonlinear_arith)
            requires
                self.nanos < 1_000_000_000,
        ;
        r
    }

    /// The span in nanoseconds.
    pub fn as_nanos(&self) -> (r: u128)
        ensures
            r == self@,
    {
        proof {
            use_type_invariant(self);
        }
        (self.secs as u128) * 1_000_000_000 + (self.nanos as u128)
    }
}

} // verus!
