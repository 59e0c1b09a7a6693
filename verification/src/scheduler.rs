//! The bounded fan-out of one cycle.
//!
//! A cycle probes every configured site, but never more than the
//! concurrency limit at once.  A worker pool admits site indices in
//! order: a new probe may start only while fewer than `limit` are in
//! flight, and each completion frees one slot.  The cycle uses one pool
//! for the probes and an independent one for the persistence writes.

use vstd::prelude::*;

verus! {

/// How many probes, and independently how many persistence operations,
/// one cycle keeps in flight at most.
pub const CONCURRENCY_LIMIT: usize = 5;

/// The admission state of a worker pool: `total` tasks to run,
/// `started` admitted so far, `finished` completed so far, never more
/// than `limit` in flight.
pub struct BoundedPool {
    pub limit: usize,
    pub total: usize,
    pub started: usize,
    pub finished: usize,
}

impl BoundedPool {
    /// Tasks in flight right now.
    pub open spec fn in_flight(self) -> int {
        self.started - self.finished
    }

    /// The pool's invariant; its last clause is the concurrency bound.
    pub open spec fn wf(self) -> bool {
        &&& 1 <= self.limit
        &&& self.started <= self.total
        &&& self.finished <= self.started
        &&& self.in_flight() <= self.limit
    }

    /// All tasks have completed.
    pub open spec fn all_done(self) -> bool {
        self.finished == self.total
    }

    /// A fresh pool for `total` tasks under the given limit.
    pub fn new(total: usize, limit: usize) -> (r: BoundedPool)
        requires
            1 <= limit,
        ensures
            r.wf(),
            r.limit == limit,
            r.total == total,
            r.started == 0,
            r.finished == 0,
    {
        BoundedPool { limit, total, started: 0, finished: 0 }
    }

    /// Admits the next task when work remains and a slot is free,
    /// returning its index; refuses otherwise.
    pub fn try_start(&mut self) -> (r: Option<usize>)
        requires
            old(self).wf(),
        ensures
            final(self).wf(),
            final(self).limit == old(self).limit,
            final(self).total == old(self).total,
            final(self).finished == old(self).finished,
            r is Some <==> (old(self).started < old(self).total && old(self).in_flight()
                < old(self).limit),
            r matches Some(i) ==> i == old(self).started && final(self).started == old(
                self,
            ).started + 1,
            r is None ==> final(self).started == old(self).started,
    {
        if self.started < self.total && self.started - self.finished < self.limit {
            let i = self.started;
            self.started = self.started + 1;
            Some(i)
        } else {
            None
        }
    }

    /// Records one task's completion, freeing a slot.
    pub fn finish(&mut self)
        requires
            old(self).wf(),
            old(self).in_flight() > 0,
        ensures
            final(self).wf(),
            final(self).limit == old(self).limit,
            final(self).total == old(self).total,
            final(self).started == old(self).started,
            final(self).finished == old(self).finished + 1,
    {
        self.finished = self.finished + 1;
    }

    /// Whether every task has completed.
    pub fn is_done(&self) -> (r: bool)
        ensures
            r == self.all_done(),
    {
        self.finished == self.total
    }
}

/// Bounded concurrency: in every well-formed pool state — the ones
/// reachable through `new`, `try_start` and `finish` — the number of
/// tasks in flight never exceeds the limit.
pub proof fn lemma_bounded_in_flight(p: BoundedPool)
    requires
        p.wf(),
    ensures
        p.in_flight() <= p.limit,
{
}

} // verus!
