//! A counter that hands out consecutive numbers.

use vstd::prelude::*;

verus! {

/// Hands out 0, 1, 2, ... and starts over after the largest number. The
/// exclusive borrow makes each draw indivisible.
pub struct AtomicCounter {
    next_value: usize,
}

impl View for AtomicCounter {
    type V = usize;

    /// The number that the next draw gives.
    closed spec fn view(&self) -> usize {
        self.next_value
    }
}

impl AtomicCounter {
    /// A counter whose first draw gives 0.
    pub fn new() -> (counter: AtomicCounter)
        ensures
            counter@ == 0,
    {
        AtomicCounter { next_value: 0 }
    }

    /// Draws the next number.
    pub fn next(&mut self) -> (value: usize)
        ensures
            value == old(self)@,
            final(self)@ == (if old(self)@ == usize::MAX {
                0
            } else {
                old(self)@ + 1
            }),
    {
        let value = self.next_value;
        self.next_value = if value == usize::MAX {
            0
        } else {
            value + 1
        };
        value
    }
}

} // verus!
