use vstd::prelude::*;

verus! {

/// An instant on the substrate's clock: whole seconds since the epoch and
/// the nanoseconds within that second.
#[derive(Clone, Copy, Debug, PartialEq, Eq, Structural)]
pub struct Timestamp {
    pub secs: i64,
    pub nanos: u32,
}

impl Timestamp {
    /// Chronological order: by seconds, then by nanoseconds.
    pub open spec fn at_or_before(self, other: Timestamp) -> bool {
        self.secs < other.secs || (self.secs == other.secs && self.nanos <= other.nanos)
    }

    /// Membership in the closed window `[from, until]`.
    pub open spec fn within(self, from: Timestamp, until: Timestamp) -> bool {
        from.at_or_before(self) && self.at_or_before(until)
    }

    pub fn new(secs: i64, nanos: u32) -> (t: Timestamp)
        ensures
            t == (Timestamp { secs, nanos }),
    {
        Timestamp { secs, nanos }
    }

    pub fn is_at_or_before(&self, other: &Timestamp) -> (r: bool)
        ensures
            r == self.at_or_before(*other),
    {
        self.secs < other.secs || (self.secs == other.secs && self.nanos <= other.nanos)
    }

    pub fn is_within(&self, from: &Timestamp, until: &Timestamp) -> (r: bool)
        ensures
            r == self.within(*from, *until),
    {
        from.is_at_or_before(self) && self.is_at_or_before(until)
    }
}

} // verus!
