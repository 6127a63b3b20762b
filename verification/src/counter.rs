//! A counter that moves between two bounds.

use vstd::prelude::*;

verus! {

/// A counter that stays between `lower` and `upper`. At a bound it either
/// stops or, if `continious` is set, starts again at the other bound.
#[derive(Debug, Clone, Copy, PartialEq, Eq)]
pub struct BoundedCounter {
    pub current: usize,
    pub lower: usize,
    pub upper: usize,
    pub continious: bool,
}

impl Default for BoundedCounter {
    fn default() -> (counter: BoundedCounter)
        ensures
            counter == (BoundedCounter { current: 0, lower: 0, upper: 0, continious: false }),
    {
        BoundedCounter { current: 0, lower: 0, upper: 0, continious: false }
    }
}

impl BoundedCounter {
    /// The count lies between the bounds.
    pub open spec fn in_bounds(self) -> bool {
        self.lower <= self.current <= self.upper
    }

    /// The count that follows the current one.
    pub open spec fn next(self) -> usize {
        if self.current >= self.upper {
            if self.continious {
                self.lower
            } else {
                self.upper
            }
        } else {
            (self.current + 1) as usize
        }
    }

    /// The count that precedes the current one.
    pub open spec fn previous(self) -> usize {
        if self.current <= self.lower {
            if self.continious {
                self.upper
            } else {
                self.lower
            }
        } else {
            (self.current - 1) as usize
        }
    }

    /// Moves one up, and returns the new count.
    pub fn increment(&mut self) -> (count: usize)
        ensures
            count == old(self).next(),
            *final(self) == (BoundedCounter { current: count, ..*old(self) }),
            old(self).in_bounds() ==> final(self).in_bounds(),
    {
        if self.current >= self.upper {
            self.current = if self.continious {
                self.lower
            } else {
                self.upper
            };
        } else {
            self.current += 1;
        }
        self.current
    }

    /// Moves one down, and returns the new count.
    pub fn decrement(&mut self) -> (count: usize)
        ensures
            count == old(self).previous(),
            *final(self) == (BoundedCounter { current: count, ..*old(self) }),
            old(self).in_bounds() ==> final(self).in_bounds(),
    {
        if self.current <= self.lower {
            self.current = if self.continious {
                self.upper
            } else {
                self.lower
            };
        } else {
            self.current -= 1;
        }
        self.current
    }

    /// The current count.
    pub fn current(&self) -> (count: usize)
        ensures
            count == self.current,
    {
        self.current
    }
}

/// Within the bounds, and away from the bound where the counter would stop
/// or start again, a step up undoes a step down and a step down undoes a step
/// up.
pub proof fn lemma_steps_cancel(counter: BoundedCounter)
    requires
        counter.in_bounds(),
    ensures
        counter.current < counter.upper ==> (BoundedCounter {
            current: counter.next(),
            ..counter
        }).previous() == counter.current,
        counter.current > counter.lower ==> (BoundedCounter {
            current: counter.previous(),
            ..counter
        }).next() == counter.current,
{
}

} // verus!
