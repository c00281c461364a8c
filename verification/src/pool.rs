use crate::error::NgxError;
use vstd::prelude::*;

verus! {

/// A request-scoped arena.
///
/// The real arena hands out raw blocks that stay valid until the whole pool
/// is torn down; nothing is ever freed or reallocated individually. This
/// model keeps only the part the collections depend on: the accounting.
/// A pool is created with a number of allocation units and `allocate`
/// consumes them; a list segment of capacity `c` costs `c` units and an
/// arena copy of `n` bytes costs `n` units. Tearing the pool down is simply
/// dropping it, which drops everything built on it.
pub struct ngx_pool_t {
    remaining: usize,
}

impl ngx_pool_t {
    /// Units the pool can still hand out.
    pub closed spec fn spec_remaining(&self) -> nat {
        self.remaining as nat
    }

    /// A fresh arena able to hand out `capacity` units.
    pub fn create(capacity: usize) -> (p: ngx_pool_t)
        ensures
            p.spec_remaining() == capacity,
    {
        ngx_pool_t { remaining: capacity }
    }

    /// Units still available.
    pub fn remaining(&self) -> (r: usize)
        ensures
            r == self.spec_remaining(),
    {
        self.remaining
    }

    /// Takes `n` units out of the pool. Succeeds exactly when `n` units are
    /// still available; on failure the pool is unchanged and the caller gets
    /// `AllocationFailed`, never a partial grant.
    pub fn allocate(&mut self, n: usize) -> (r: Result<(), NgxError>)
        ensures
            r is Ok <==> n <= old(self).spec_remaining(),
            r is Ok ==> final(self).spec_remaining() == old(self).spec_remaining() - n,
            r is Err ==> *final(self) == *old(self) && r == Err::<(), NgxError>(
                NgxError::AllocationFailed,
            ),
    {
        if n <= self.remaining {
            self.remaining = self.remaining - n;
            Ok(())
        } else {
            Err(NgxError::AllocationFailed)
        }
    }
}

} // verus!
