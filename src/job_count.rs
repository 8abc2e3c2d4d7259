use vstd::prelude::*;

verus! {

/// The in-flight counter of one broadcast: how many handed-out units of work
/// have not finished yet. A waiter may go on once it is zero.
pub struct JobCount {
    count: usize,
}

impl View for JobCount {
    type V = nat;

    closed spec fn view(&self) -> nat {
        self.count as nat
    }
}

impl JobCount {
    /// A counter with nothing in flight.
    pub fn new() -> (r: JobCount)
        ensures
            r@ == 0,
    {
        JobCount { count: 0 }
    }

    /// Registers one more unit of work in flight.
    pub fn inc(&mut self)
        requires
            old(self)@ < usize::MAX,
        ensures
            final(self)@ == old(self)@ + 1,
    {
        self.count = self.count + 1;
    }

    /// Marks one unit of work as finished. Returns whether the counter has
    /// just reached zero, which is when every waiter must be woken.
    pub fn dec(&mut self) -> (wake: bool)
        requires
            old(self)@ > 0,
        ensures
            final(self)@ == old(self)@ - 1,
            wake == (final(self)@ == 0),
    {
        self.count = self.count - 1;
        self.count == 0
    }

    /// Whether nothing is in flight, so that a waiter may go on.
    pub fn is_zero(&self) -> (r: bool)
        ensures
            r == (self@ == 0),
    {
        self.count == 0
    }
}

} // verus!
