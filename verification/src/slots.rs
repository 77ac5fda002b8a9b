//! A limited number of places.

use vstd::prelude::*;

verus! {

/// Places of which at most `max` are taken at a time.
#[derive(Debug)]
pub struct Slots {
    max: usize,
    taken: usize,
}

/// Whether a place is had where `taken` of `max` are taken, and how many are taken
/// then.
pub open spec fn acquired(taken: nat, max: nat) -> (bool, nat) {
    if taken < max {
        (true, taken + 1)
    } else {
        (false, taken)
    }
}

/// How many places are taken when one of `taken` has been given back.
pub open spec fn given_back(taken: nat) -> nat {
    if taken > 0 {
        (taken - 1) as nat
    } else {
        0
    }
}

impl Slots {
    pub closed spec fn max_spec(self) -> nat {
        self.max as nat
    }

    pub closed spec fn taken_spec(self) -> nat {
        self.taken as nat
    }

    /// Whether no more places are taken than there are.
    pub open spec fn wf(self) -> bool {
        self.taken_spec() <= self.max_spec()
    }

    /// `max` places, all free.
    pub fn new(max: usize) -> (r: Slots)
        ensures
            r.wf(),
            r.max_spec() == max,
            r.taken_spec() == 0,
    {
        Slots { max, taken: 0 }
    }

    /// How many places are free.
    pub fn available_permits(&self) -> (r: usize)
        requires
            self.wf(),
        ensures
            r == self.max_spec() - self.taken_spec(),
    {
        self.max - self.taken
    }

    /// Takes a place, where one is free. Tells whether it did.
    pub fn try_acquire(&mut self) -> (r: bool)
        requires
            old(self).wf(),
        ensures
            final(self).wf(),
            final(self).max_spec() == old(self).max_spec(),
            (r, final(self).taken_spec()) == acquired(old(self).taken_spec(), old(self).max_spec()),
            r == (old(self).taken_spec() < old(self).max_spec()),
            final(self).taken_spec() == old(self).taken_spec() + if r {
                1nat
            } else {
                0nat
            },
    {
        if self.taken < self.max {
            self.taken = self.taken + 1;
            true
        } else {
            false
        }
    }

    /// Gives a taken place back. Where none is taken, nothing changes.
    pub fn release(&mut self)
        requires
            old(self).wf(),
        ensures
            final(self).wf(),
            final(self).max_spec() == old(self).max_spec(),
            final(self).taken_spec() == given_back(old(self).taken_spec()),
    {
        if self.taken > 0 {
            self.taken = self.taken - 1;
        }
    }
}

// Laws

/// A place is had exactly as long as one is free, and then one more is taken; a
/// place that is given back leaves as many taken as before it was had.
pub proof fn law_places_are_had_and_given_back(taken: nat, max: nat)
    requires
        taken <= max,
    ensures
        acquired(taken, max).0 <==> max - taken >= 1,
        acquired(taken, max).0 ==> acquired(taken, max).1 - taken == 1,
        !acquired(taken, max).0 ==> acquired(taken, max).1 == taken,
        acquired(taken, max).1 <= max,
        acquired(taken, max).0 ==> given_back(acquired(taken, max).1) == taken,
        taken > 0 ==> taken - given_back(taken) == 1,
        given_back(0) == 0,
{
}

} // verus!
