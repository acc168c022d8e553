//! A counter that bounds how many commands are in flight at once.

use vstd::prelude::*;

verus! {

/// A limiter with a fixed number of slots. A command may start only while it
/// holds a slot, so never more commands are in flight than there are slots.
#[derive(Debug)]
pub struct Limiter {
    limit: usize,
    in_flight: usize,
}

impl Limiter {
    #[verifier::type_invariant]
    spec fn inv(self) -> bool {
        1 <= self.limit && self.in_flight <= self.limit
    }

    /// The number of slots.
    pub closed spec fn spec_limit(self) -> nat {
        self.limit as nat
    }

    /// The number of slots that are taken.
    pub closed spec fn spec_in_flight(self) -> nat {
        self.in_flight as nat
    }

    /// A limiter with `limit` slots, all of them free; `None` exactly when `limit` is zero.
    pub fn new(limit: usize) -> (r: Option<Limiter>)
        ensures
            r is Some <==> limit >= 1,
            r matches Some(limiter) ==> limiter.spec_limit() == limit && limiter.spec_in_flight() == 0,
    {
        if limit >= 1 {
            Some(Limiter { limit, in_flight: 0 })
        } else {
            None
        }
    }

    /// The number of slots, at least one.
    pub fn limit(&self) -> (n: usize)
        ensures
            n == self.spec_limit(),
            n >= 1,
    {
        proof {
            use_type_invariant(self);
        }
        self.limit
    }

    /// The number of slots that are taken, never more than there are.
    pub fn in_flight(&self) -> (n: usize)
        ensures
            n == self.spec_in_flight(),
            n <= self.spec_limit(),
    {
        proof {
            use_type_invariant(self);
        }
        self.in_flight
    }

    /// Takes a slot if one is free and says whether it did.
    pub fn try_acquire(&mut self) -> (admitted: bool)
        ensures
            admitted == (old(self).spec_in_flight() < old(self).spec_limit()),
            final(self).spec_limit() == old(self).spec_limit(),
            final(self).spec_in_flight() == old(self).spec_in_flight() + if admitted {
                1nat
            } else {
                0nat
            },
            final(self).spec_in_flight() <= final(self).spec_limit(),
    {
        proof {
            use_type_invariant(&*self);
        }
        if self.in_flight < self.limit {
            self.in_flight = self.in_flight + 1;
            true
        } else {
            false
        }
    }

    /// Gives a slot back if one is taken and says whether it did.
    pub fn release(&mut self) -> (released: bool)
        ensures
            released == (old(self).spec_in_flight() > 0),
            final(self).spec_limit() == old(self).spec_limit(),
            final(self).spec_in_flight() == old(self).spec_in_flight() - if released {
                1int
            } else {
                0int
            },
            final(self).spec_in_flight() <= final(self).spec_limit(),
    {
        proof {
            use_type_invariant(&*self);
        }
        if self.in_flight > 0 {
            self.in_flight = self.in_flight - 1;
            true
        } else {
            false
        }
    }
}

} // verus!
