//! Lengths of time, as whole seconds plus a sub-second part.

use vstd::prelude::*;

verus! {

/// Nanoseconds in one second.
pub const NANOS_PER_SEC: u32 = 1_000_000_000u32;

/// A non-negative length of time with nanosecond resolution.
///
/// The sub-second part is always below one second, so every length has one
/// representation only.
#[derive(Clone, Copy, Debug, PartialEq, Eq, Structural)]
pub struct TimeSpan {
    secs: u64,
    nanos: u32,
}

impl View for TimeSpan {
    type V = nat;

    /// The length in nanoseconds.
    open spec fn view(&self) -> nat {
        TimeSpan::spec_total(self.spec_secs(), self.spec_subsec_nanos())
    }
}

impl TimeSpan {
    #[verifier::type_invariant]
    spec fn well_formed(self) -> bool {
        self.nanos < NANOS_PER_SEC
    }

    /// The length that `secs` whole seconds and `nanos` nanoseconds add up to.
    pub open spec fn spec_total(secs: u64, nanos: u32) -> nat {
        (secs as nat) * (NANOS_PER_SEC as nat) + (nanos as nat)
    }

    /// The whole seconds of this length.
    pub closed spec fn spec_secs(self) -> u64 {
        self.secs
    }

    /// The part of this length below one second, in nanoseconds.
    pub closed spec fn spec_subsec_nanos(self) -> u32 {
        self.nanos
    }

    /// Builds a length from its parts; `None` when `nanos` is a second or more.
    pub fn new(secs: u64, nanos: u32) -> (r: Option<TimeSpan>)
        ensures
            nanos < NANOS_PER_SEC <==> r is Some,
            r matches Some(b) ==> b.spec_secs() == secs && b.spec_subsec_nanos() == nanos,
    {
        if nanos < NANOS_PER_SEC {
            Some(TimeSpan { secs, nanos })
        } else {
            None
        }
    }

    /// The empty length.
    pub fn zero() -> (r: TimeSpan)
        ensures
            r.spec_secs() == 0,
            r.spec_subsec_nanos() == 0,
    {
        TimeSpan { secs: 0, nanos: 0 }
    }

    /// The length of `millis` milliseconds.
    pub fn from_millis(millis: u64) -> (r: TimeSpan)
        ensures
            r@ == (millis as nat) * 1_000_000,
            r.spec_subsec_nanos() < NANOS_PER_SEC,
    {
        let secs: u64 = millis / 1000;
        let rest: u64 = millis % 1000;
        let nanos: u32 = (rest * 1_000_000) as u32;
        assert((secs as nat) * 1_000_000_000 + (rest as nat) * 1_000_000 == (millis as nat)
            * 1_000_000) by (nonlinear_arith)
            requires
                secs == millis / 1000,
                rest == millis % 1000,
        ;
        TimeSpan { secs, nanos }
    }

    /// The whole seconds of this length.
    pub fn secs(&self) -> (r: u64)
        ensures
            r == self.spec_secs(),
    {
        self.secs
    }

    /// The part of this length below one second, in nanoseconds.
    pub fn subsec_nanos(&self) -> (r: u32)
        ensures
            r == self.spec_subsec_nanos(),
            r < NANOS_PER_SEC,
    {
        proof {
            use_type_invariant(self);
        }
        self.nanos
    }

    /// What is left of this length once `elapsed` has passed: the difference,
    /// or nothing when `elapsed` is the longer of the two.
    pub fn saturating_sub(self, elapsed: TimeSpan) -> (r: TimeSpan)
        ensures
            self@ >= elapsed@ ==> r@ == self@ - elapsed@,
            self@ < elapsed@ ==> r@ == 0,
            r.spec_subsec_nanos() < NANOS_PER_SEC,
    {
        proof {
            use_type_invariant(self);
            use_type_invariant(elapsed);
        }
        if self.secs > elapsed.secs {
            if self.nanos >= elapsed.nanos {
                TimeSpan { secs: self.secs - elapsed.secs, nanos: self.nanos - elapsed.nanos }
            } else {
                TimeSpan {
                    secs: self.secs - elapsed.secs - 1,
                    nanos: self.nanos + (NANOS_PER_SEC - elapsed.nanos),
                }
            }
        } else if self.secs == elapsed.secs && self.nanos >= elapsed.nanos {
            TimeSpan { secs: 0, nanos: self.nanos - elapsed.nanos }
        } else {
            TimeSpan { secs: 0, nanos: 0 }
        }
    }
}

} // verus!
