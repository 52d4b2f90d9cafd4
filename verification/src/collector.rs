//! The per-period collector: the one place where the tasks of a period
//! leave their records, and where their ends are counted.
//!
//! A collector is made for a fixed number of tasks. Each task reports its
//! end once: with records, empty, or in failure. The period's records may be
//! taken out only when every task has reported and none has failed.

use crate::order::RecordKey;
use vstd::prelude::*;

verus! {

/// Records and counters of one period's fetch.
pub struct Collector {
    /// Keys of the records handed in so far, in the sequence of arrival.
    pub keys: Vec<RecordKey>,
    /// Tasks the period was started with.
    pub total: usize,
    /// Tasks that have reported their end.
    pub settled: usize,
    /// Tasks that handed in records: the progress counter.
    pub completed: usize,
    /// Whether a task has failed for good.
    pub failed: bool,
}

impl Collector {
    /// The counters are consistent: no more tasks have reported than were
    /// started, and no more have handed in records than have reported.
    pub open spec fn wf(&self) -> bool {
        self.completed <= self.settled <= self.total
    }

    /// Every task has reported and none has failed.
    pub open spec fn complete(&self) -> bool {
        self.settled == self.total && !self.failed
    }

    /// A collector for `total` tasks, with nothing handed in.
    pub fn new(total: usize) -> (c: Collector)
        ensures
            c.wf(),
            c.keys@ == Seq::<RecordKey>::empty(),
            c.total == total,
            c.settled == 0,
            c.completed == 0,
            !c.failed,
    {
        Collector { keys: Vec::new(), total, settled: 0, completed: 0, failed: false }
    }

    /// A task succeeded: its records are appended behind those already
    /// there, and the progress counter, which is returned, goes up by one.
    pub fn collect(&mut self, batch: Vec<RecordKey>) -> (progress: usize)
        requires
            old(self).wf(),
            old(self).settled < old(self).total,
        ensures
            final(self).wf(),
            final(self).keys@ == old(self).keys@ + batch@,
            final(self).total == old(self).total,
            final(self).settled == old(self).settled + 1,
            final(self).completed == old(self).completed + 1,
            final(self).failed == old(self).failed,
            progress == final(self).completed,
    {
        let mut batch = batch;
        self.keys.append(&mut batch);
        self.settled = self.settled + 1;
        self.completed = self.completed + 1;
        self.completed
    }

    /// A task ended with no data: it is counted as reported, and nothing
    /// else changes.
    pub fn skip(&mut self)
        requires
            old(self).wf(),
            old(self).settled < old(self).total,
        ensures
            final(self).wf(),
            final(self).keys@ == old(self).keys@,
            final(self).total == old(self).total,
            final(self).settled == old(self).settled + 1,
            final(self).completed == old(self).completed,
            final(self).failed == old(self).failed,
    {
        self.settled = self.settled + 1;
    }

    /// A task used up its attempts: the period is marked as failed, for
    /// good.
    pub fn abort(&mut self)
        requires
            old(self).wf(),
            old(self).settled < old(self).total,
        ensures
            final(self).wf(),
            final(self).keys@ == old(self).keys@,
            final(self).total == old(self).total,
            final(self).settled == old(self).settled + 1,
            final(self).completed == old(self).completed,
            final(self).failed,
    {
        self.settled = self.settled + 1;
        self.failed = true;
    }

    /// Whether every task has reported and none has failed.
    pub fn is_complete(&self) -> (done: bool)
        ensures
            done == self.complete(),
    {
        self.settled == self.total && !self.failed
    }

    /// The period's records, for sorting: handed out only when every task
    /// has reported and none has failed.
    pub fn into_records(self) -> (records: Option<Vec<RecordKey>>)
        ensures
            records.is_some() == self.complete(),
            records.is_some() ==> records.unwrap()@ == self.keys@,
    {
        if self.settled == self.total && !self.failed {
            Some(self.keys)
        } else {
            None
        }
    }
}

} // verus!
