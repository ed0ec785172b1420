//! Points in time, counted from an arbitrary start.
use vstd::prelude::*;

verus! {

/// Nanoseconds in a second.
pub const NANOS_PER_SEC: u64 = 1_000_000_000;

/// A point in time.
#[derive(Clone, Copy, Debug, PartialEq, Eq, Structural)]
pub struct Instant {
    pub nanos: u64,
}

impl View for Instant {
    type V = Instant;

    open spec fn view(&self) -> Instant {
        *self
    }
}

/// The nanoseconds in `secs` seconds.
pub open spec fn nanos_of(secs: u16) -> int {
    secs * 1_000_000_000
}

impl Instant {
    /// Whether the clock can still count `secs` seconds from here.
    pub open spec fn has_room(self, secs: u16) -> bool {
        self.nanos + nanos_of(secs) <= u64::MAX
    }

    /// The point `secs` seconds later.
    pub open spec fn spec_after(self, secs: u16) -> Instant {
        Instant { nanos: (self.nanos + nanos_of(secs)) as u64 }
    }

    /// The point `secs` seconds later.
    #[verifier::when_used_as_spec(spec_after)]
    pub fn after(self, secs: u16) -> (r: Instant)
        requires
            self.has_room(secs),
        ensures
            r == self.spec_after(secs),
            r.nanos == self.nanos + nanos_of(secs),
    {
        Instant { nanos: self.nanos + (secs as u64) * NANOS_PER_SEC }
    }

    /// The nanoseconds from `earlier` to here; nothing where `earlier` is the later of the two.
    pub open spec fn elapsed_since(self, earlier: Instant) -> int {
        if self.nanos >= earlier.nanos {
            self.nanos - earlier.nanos
        } else {
            0
        }
    }

    /// The nanoseconds from `earlier` to here; nothing where `earlier` is the later of the two.
    pub fn saturating_duration_since(self, earlier: Instant) -> (r: u64)
        ensures
            r == self.elapsed_since(earlier),
    {
        if self.nanos >= earlier.nanos {
            self.nanos - earlier.nanos
        } else {
            0
        }
    }
}

} // verus!
