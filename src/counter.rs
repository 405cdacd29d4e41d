use vstd::prelude::*;

verus! {

/// A monotonic source of identifiers: each `next` returns the value after the
/// last one handed out, starting from 1.
#[derive(Debug)]
pub struct Counter {
    value: u64,
}

impl View for Counter {
    type V = u64;

    closed spec fn view(&self) -> u64 {
        self.value
    }
}

impl Counter {
    /// A counter that has handed out nothing yet.
    pub fn new() -> (r: Counter)
        ensures
            r@ == 0,
    {
        Counter { value: 0 }
    }

    /// A counter restored at `value`, the last identifier it handed out.
    pub fn with_value(value: u64) -> (r: Counter)
        ensures
            r@ == value,
    {
        Counter { value }
    }

    /// The last identifier handed out (0 before the first).
    pub fn get(&self) -> (r: u64)
        ensures
            r == self@,
    {
        self.value
    }

    /// Advances the counter by one and returns the new value.
    pub fn next(&mut self) -> (r: u64)
        requires
            old(self)@ < u64::MAX,
        ensures
            r == old(self)@ + 1,
            final(self)@ == r,
    {
        self.value = self.value + 1;
        self.value
    }
}

} // verus!
