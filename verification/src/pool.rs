//! A counting pool of permits with non-blocking acquisition, release, dynamic
//! growth, and permanent forgetting of held permits.
//!
//! `capacity` is the nominal size of the pool and `available` the number of
//! free permits; `capacity - available` permits are outstanding. Blocking
//! acquisition is a scheduling concern and lives with the runtime that embeds
//! the limiter: it amounts to retrying `try_acquire` once capacity frees.

use vstd::prelude::*;

verus! {

#[derive(Clone, Debug)]
pub struct Pool {
    pub capacity: usize,
    pub available: usize,
}

/// The pool after `n` permits are taken (defined when `can_acquire` holds).
pub open spec fn pool_after_acquire(p: Pool, n: int) -> Pool {
    Pool { capacity: p.capacity, available: (p.available - n) as usize }
}

/// Whether `n` free permits are on hand.
pub open spec fn can_acquire(p: Pool, n: int) -> bool {
    n <= p.available
}

/// The pool after one outstanding permit is returned.
pub open spec fn pool_after_release(p: Pool) -> Pool {
    Pool { capacity: p.capacity, available: (p.available + 1) as usize }
}

/// The pool after `n` outstanding permits are discarded for good.
pub open spec fn pool_after_forget(p: Pool, n: int) -> Pool {
    Pool { capacity: (p.capacity - n) as usize, available: p.available }
}

/// The pool after `n` fresh permits are added.
pub open spec fn pool_after_add(p: Pool, n: int) -> Pool {
    Pool { capacity: (p.capacity + n) as usize, available: (p.available + n) as usize }
}

impl Pool {
    pub open spec fn wf(&self) -> bool {
        self.available <= self.capacity
    }

    /// Permits currently held by callers.
    pub open spec fn outstanding(&self) -> int {
        self.capacity - self.available
    }

    /// A pool that starts full.
    pub fn new(capacity: usize) -> (r: Pool)
        ensures
            r.capacity == capacity,
            r.available == capacity,
            r.wf(),
    {
        Pool { capacity, available: capacity }
    }

    /// Non-blocking acquisition of `n` permits at once: all or none.
    pub fn try_acquire_many(&mut self, n: usize) -> (r: bool)
        requires
            old(self).wf(),
        ensures
            r == can_acquire(*old(self), n as int),
            r ==> *final(self) == pool_after_acquire(*old(self), n as int),
            !r ==> *final(self) == *old(self),
            final(self).wf(),
    {
        if n <= self.available {
            self.available = self.available - n;
            true
        } else {
            false
        }
    }

    /// Non-blocking acquisition of one permit.
    pub fn try_acquire(&mut self) -> (r: bool)
        requires
            old(self).wf(),
        ensures
            r == can_acquire(*old(self), 1),
            r ==> *final(self) == pool_after_acquire(*old(self), 1),
            !r ==> *final(self) == *old(self),
            final(self).wf(),
    {
        self.try_acquire_many(1)
    }

    /// Returns one outstanding permit to the pool.
    pub fn release(&mut self)
        requires
            old(self).wf(),
            old(self).outstanding() >= 1,
        ensures
            *final(self) == pool_after_release(*old(self)),
            final(self).wf(),
    {
        self.available = self.available + 1;
    }

    /// Discards `n` outstanding permits without returning them: the pool
    /// shrinks permanently.
    pub fn forget_outstanding(&mut self, n: usize)
        requires
            old(self).wf(),
            n <= old(self).outstanding(),
        ensures
            *final(self) == pool_after_forget(*old(self), n as int),
            final(self).wf(),
    {
        self.capacity = self.capacity - n;
    }

    /// Adds `n` fresh permits, growing the pool.
    pub fn add_permits(&mut self, n: usize)
        requires
            old(self).wf(),
            old(self).capacity + n <= usize::MAX,
        ensures
            *final(self) == pool_after_add(*old(self), n as int),
            final(self).wf(),
    {
        self.capacity = self.capacity + n;
        self.available = self.available + n;
    }
}

/// Law: releasing a permit makes exactly one unit of capacity available for a
/// subsequent acquire. From any reachable pool with a permit held, a release
/// followed by an acquire of one permit succeeds without waiting and returns
/// the pool to its pre-release occupancy.
pub proof fn lemma_release_then_acquire_roundtrip(p: Pool)
    requires
        p.wf(),
        p.outstanding() >= 1,
    ensures
        can_acquire(pool_after_release(p), 1),
        pool_after_acquire(pool_after_release(p), 1) == p,
{
}

} // verus!
