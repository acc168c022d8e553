//! Tunable limits of a run.

use vstd::prelude::*;

verus! {

/// Number of commands that may run at the same time unless configured otherwise.
pub const MAX_CONCURRENT_OPERATIONS: usize = 4;

/// Number of packages handed to one command unless configured otherwise.
pub const BATCH_SIZE: usize = 10;

/// The limits of a run: how many commands may be in flight at once and how
/// many packages one batch command may name. Both are at least one.
#[derive(Clone, Copy, Debug, PartialEq, Eq)]
pub struct Config {
    concurrency: usize,
    batch_size: usize,
}

impl Config {
    #[verifier::type_invariant]
    spec fn inv(self) -> bool {
        self.concurrency >= 1 && self.batch_size >= 1
    }

    /// The concurrency bound.
    pub closed spec fn spec_concurrency(self) -> nat {
        self.concurrency as nat
    }

    /// The largest number of packages in one batch.
    pub closed spec fn spec_batch_size(self) -> nat {
        self.batch_size as nat
    }

    /// A configuration with the given limits; `None` exactly when one of them is zero.
    pub fn new(concurrency: usize, batch_size: usize) -> (r: Option<Config>)
        ensures
            r is Some <==> concurrency >= 1 && batch_size >= 1,
            r matches Some(c) ==> c.spec_concurrency() == concurrency && c.spec_batch_size()
                == batch_size,
    {
        if concurrency >= 1 && batch_size >= 1 {
            Some(Config { concurrency, batch_size })
        } else {
            None
        }
    }

    /// The concurrency bound, at least one.
    pub fn concurrency(&self) -> (n: usize)
        ensures
            n == self.spec_concurrency(),
            n >= 1,
    {
        proof {
            use_type_invariant(self);
        }
        self.concurrency
    }

    /// The batch size, at least one.
    pub fn batch_size(&self) -> (n: usize)
        ensures
            n == self.spec_batch_size(),
            n >= 1,
    {
        proof {
            use_type_invariant(self);
        }
        self.batch_size
    }
}

impl Default for Config {
    /// The limits that hold unless configured otherwise.
    fn default() -> (r: Config)
        ensures
            r.spec_concurrency() == MAX_CONCURRENT_OPERATIONS,
            r.spec_batch_size() == BATCH_SIZE,
    {
        Config { concurrency: MAX_CONCURRENT_OPERATIONS, batch_size: BATCH_SIZE }
    }
}

} // verus!
