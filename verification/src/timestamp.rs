use vstd::prelude::*;

verus! {

/// Represents a monotonic timestamp in nanoseconds.
#[derive(Debug, Clone, Copy, PartialEq, Eq, PartialOrd, Ord, Hash, Default)]
pub struct Timestamp(u128);

impl View for Timestamp {
    /// The nanosecond value.
    type V = u128;

    closed spec fn view(&self) -> u128 {
        self.0
    }
}

impl Timestamp {
    /// Creates a new timestamp from a nanosecond value.
    pub fn new(nanos: u128) -> (timestamp: Self)
        ensures
            timestamp@ == nanos,
    {
        Timestamp(nanos)
    }

    /// Returns the stored nanosecond value.
    pub fn as_nanos(self) -> (nanos: u128)
        ensures
            nanos == self@,
    {
        self.0
    }
}

} // verus!
