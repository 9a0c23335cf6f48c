//! The worker pool's admission control, as a state machine: a fixed
//! capacity of workers, a count of connections in flight, and whether new
//! work is still accepted. A submission beyond capacity is rejected at
//! once rather than queued without bound; shutdown stops admissions and
//! lets the in-flight work drain. The threads themselves live with the
//! caller; this model decides and counts.

use vstd::prelude::*;

verus! {

/// The admission state of a pool of workers.
pub struct WorkerPool {
    pub capacity: usize,
    pub active: usize,
    pub accepting: bool,
}

impl WorkerPool {
    /// At least one worker, and never more in flight than workers.
    pub open spec fn wf(&self) -> bool {
        1 <= self.capacity && self.active <= self.capacity
    }

    /// Shut down and drained: nothing in flight, nothing admitted.
    pub open spec fn drained(&self) -> bool {
        !self.accepting && self.active == 0
    }

    pub fn new(capacity: usize) -> (r: WorkerPool)
        requires
            capacity >= 1,
        ensures
            r.wf(),
            r.capacity == capacity,
            r.active == 0,
            r.accepting,
    {
        WorkerPool { capacity, active: 0, accepting: true }
    }

    /// Asks to run one more connection: admitted exactly when the pool
    /// still accepts work and a worker is free.
    pub fn try_submit(&mut self) -> (admitted: bool)
        ensures
            old(self).wf() ==> final(self).wf(),
            final(self).capacity == old(self).capacity,
            final(self).accepting == old(self).accepting,
            admitted == (old(self).accepting && old(self).active < old(self).capacity),
            admitted ==> final(self).active == old(self).active + 1,
            !admitted ==> final(self).active == old(self).active,
    {
        if self.accepting && self.active < self.capacity {
            self.active = self.active + 1;
            true
        } else {
            false
        }
    }

    /// One connection finished: a worker is free again.
    pub fn complete(&mut self)
        requires
            old(self).active > 0,
        ensures
            old(self).wf() ==> final(self).wf(),
            final(self).capacity == old(self).capacity,
            final(self).accepting == old(self).accepting,
            final(self).active == old(self).active - 1,
    {
        self.active = self.active - 1;
    }

    /// Stops admissions; work in flight is left to drain through
    /// `complete`. Once everything completed, the pool is drained.
    pub fn shutdown(&mut self)
        ensures
            old(self).wf() ==> final(self).wf(),
            final(self).capacity == old(self).capacity,
            final(self).active == old(self).active,
            !final(self).accepting,
            final(self).active == 0 ==> final(self).drained(),
    {
        self.accepting = false;
    }

    pub fn is_drained(&self) -> (r: bool)
        ensures
            r == self.drained(),
    {
        !self.accepting && self.active == 0
    }
}

} // verus!
