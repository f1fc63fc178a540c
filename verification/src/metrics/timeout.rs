//! Timeouts of exporters.

use vstd::prelude::*;

verus! {

/// A span of time in whole seconds and nanoseconds.
#[derive(Clone, Copy, Debug, PartialEq, Eq, Structural)]
pub struct Timeout {
    secs: u64,
    nanos: u32,
}

impl Timeout {
    #[verifier::type_invariant]
    spec fn well_formed(self) -> bool {
        self.nanos < 1_000_000_000
    }

    /// The whole span in nanoseconds.
    pub closed spec fn nanoseconds(self) -> nat {
        (self.secs * 1_000_000_000 + self.nanos) as nat
    }

    /// A span of `secs` seconds and `nanos` nanoseconds.
    pub fn new(secs: u64, nanos: u32) -> (r: Self)
        requires
            nanos < 1_000_000_000,
        ensures
            r.nanoseconds() == secs * 1_000_000_000 + nanos,
    {
        Timeout { secs, nanos }
    }

    /// A span of `secs` seconds.
    pub fn from_secs(secs: u64) -> (r: Self)
        ensures
            r.nanoseconds() == secs * 1_000_000_000,
    {
        Timeout { secs, nanos: 0 }
    }

    /// A span of `ms` milliseconds.
    pub fn from_millis(ms: u64) -> (r: Self)
        ensures
            r.nanoseconds() == ms * 1_000_000,
    {
        Timeout { secs: ms / 1000, nanos: (ms % 1000) as u32 * 1_000_000 }
    }

    /// The whole seconds.
    pub fn as_secs(self) -> (r: u64)
        ensures
            r == self.nanoseconds() / 1_000_000_000,
    {
        proof {
            use_type_invariant(&self);
        }
        self.secs
    }

    /// The nanoseconds beyond the whole seconds.
    pub fn subsec_nanos(self) -> (r: u32)
        ensures
            r == self.nanoseconds() % 1_000_000_000,
    {
        proof {
            use_type_invariant(&self);
        }
        self.nanos
    }
}

} // verus!
