use vstd::prelude::*;

verus! {

/// Nanoseconds in one second.
pub const NANOS_PER_SEC: u32 = 1_000_000_000;

/// A non-negative span of time: whole seconds plus a sub-second part in nanoseconds.
#[derive(Debug, Clone, Copy, PartialEq, Eq, Structural)]
pub struct Span {
    pub secs: u64,
    pub nanos: u32,
}

impl Span {
    /// The sub-second part is below one second.
    pub open spec fn wf(self) -> bool {
        self.nanos < NANOS_PER_SEC
    }

    /// The whole span in nanoseconds.
    pub open spec fn total(self) -> int {
        self.secs * 1_000_000_000 + self.nanos
    }

    /// A span of whole seconds.
    pub fn from_secs(secs: u64) -> (r: Span)
        ensures
            r == (Span { secs, nanos: 0 }),
            r.wf(),
    {
        Span { secs, nanos: 0 }
    }

    /// The whole span in nanoseconds.
    pub fn total_nanos(&self) -> (r: u128)
        ensures
            r == self.total(),
    {
        self.secs as u128 * 1_000_000_000 + self.nanos as u128
    }

    /// Whether `self` is no longer than `o`.
    pub fn le(&self, o: &Span) -> (r: bool)
        ensures
            r == (self.total() <= o.total()),
    {
        self.total_nanos() <= o.total_nanos()
    }

    /// `self` less `o`, where `o` is no longer.
    pub fn minus(&self, o: &Span) -> (r: Span)
        requires
            self.wf(),
            o.wf(),
            o.total() <= self.total(),
        ensures
            r.wf(),
            r.total() == self.total() - o.total(),
    {
        if self.nanos >= o.nanos {
            Span { secs: self.secs - o.secs, nanos: self.nanos - o.nanos }
        } else {
            Span { secs: self.secs - o.secs - 1, nanos: self.nanos + NANOS_PER_SEC - o.nanos }
        }
    }
}

} // verus!
