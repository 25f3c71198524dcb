use vstd::prelude::*;

verus! {

/// A monotonic counter handing out identifiers 1, 2, 3, ...
pub struct Counter {
    count: u64,
}

impl Counter {
    /// The last identifier handed out (0 before the first).
    pub closed spec fn value(&self) -> nat {
        self.count as nat
    }

    pub fn new() -> (r: Self)
        ensures
            r.value() == 0,
    {
        Counter { count: 0 }
    }

    /// The last identifier handed out.
    pub fn peek(&self) -> (r: u64)
        ensures
            r == self.value(),
    {
        self.count
    }

    /// Advances the counter and returns the new identifier.
    pub fn next(&mut self) -> (r: u64)
        requires
            old(self).value() < u64::MAX,
        ensures
            r == old(self).value() + 1,
            final(self).value() == r,
    {
        self.count = self.count + 1;
        self.count
    }
}

} // verus!
