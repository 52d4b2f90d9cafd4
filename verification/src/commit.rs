//! Committing a period: every record written, one flush, and a count that
//! must agree.
//!
//! A [`Partition`] holds the rows of one period of one dataset. Rows that
//! are appended are staged; a flush makes all staged rows durable at once.
//! Only durable rows are counted and only they move the resume point, so a
//! period is either committed whole or not visible at all.

use crate::order::{within, RecordKey};
use vstd::prelude::*;

verus! {

/// Why a commit was refused.
#[derive(Clone, Copy, Debug, PartialEq, Eq, Structural)]
pub enum CommitError {
    /// After the flush the partition held `found` durable rows where
    /// `expected` were written.
    Integrity { expected: usize, found: usize },
}

/// The rows of one period of one dataset, each by its timestamp, in the
/// sequence in which they were written.
pub struct Partition {
    /// Rows that a flush has made durable.
    pub committed: Vec<i64>,
    /// Rows appended since the last flush.
    pub staged: Vec<i64>,
}

/// What a partition holds: its durable rows and its staged rows.
pub struct PartitionRows {
    pub committed: Seq<i64>,
    pub staged: Seq<i64>,
}

impl View for Partition {
    type V = PartitionRows;

    open spec fn view(&self) -> PartitionRows {
        PartitionRows { committed: self.committed@, staged: self.staged@ }
    }
}

/// A partition with no rows.
pub open spec fn absent() -> PartitionRows {
    PartitionRows { committed: Seq::empty(), staged: Seq::empty() }
}

/// The partition after one more row was staged.
pub open spec fn appended(p: PartitionRows, timestamp: i64) -> PartitionRows {
    PartitionRows { committed: p.committed, staged: p.staged.push(timestamp) }
}

/// The partition after `rows` were staged, one after the other.
pub open spec fn appended_all(p: PartitionRows, rows: Seq<i64>) -> PartitionRows
    decreases rows.len(),
{
    if rows.len() == 0 {
        p
    } else {
        appended(appended_all(p, rows.drop_last()), rows.last())
    }
}

/// The partition after a flush: every staged row is durable.
pub open spec fn flushed(p: PartitionRows) -> PartitionRows {
    PartitionRows { committed: p.committed + p.staged, staged: Seq::empty() }
}

/// The number of durable rows.
pub open spec fn row_count(p: PartitionRows) -> nat {
    p.committed.len()
}

/// The timestamps of the keys, read in the sequence `order`.
pub open spec fn timestamps_in(keys: Seq<RecordKey>, order: Seq<usize>) -> Seq<i64> {
    Seq::new(order.len(), |i: int| keys[order[i] as int].timestamp)
}

/// The outcome of comparing the rows written with the durable rows found.
pub open spec fn row_count_verdict(written: usize, durable: usize) -> Result<(), CommitError> {
    if written == durable {
        Ok(())
    } else {
        Err(CommitError::Integrity { expected: written, found: durable })
    }
}

/// Compares the number of rows written in a commit with the number of
/// durable rows that the store reports after the flush. A difference is an
/// error; nothing is corrected.
pub fn verify_row_count(written: usize, durable: usize) -> (r: Result<(), CommitError>)
    ensures
        r == row_count_verdict(written, durable),
{
    if written == durable {
        Ok(())
    } else {
        Err(CommitError::Integrity { expected: written, found: durable })
    }
}

/// Staging rows leaves the durable rows alone and puts the new rows behind
/// those already staged.
pub proof fn lemma_appended_all(p: PartitionRows, rows: Seq<i64>)
    ensures
        appended_all(p, rows).committed == p.committed,
        appended_all(p, rows).staged == p.staged + rows,
    decreases rows.len(),
{
    if rows.len() == 0 {
        assert(p.staged + rows =~= p.staged);
    } else {
        lemma_appended_all(p, rows.drop_last());
        assert((p.staged + rows.drop_last()).push(rows.last()) =~= p.staged + rows);
    }
}

/// Appending any number of rows to an absent partition and then flushing
/// leaves exactly those rows durable: the count of durable rows is the
/// number of rows appended, also when that number is zero, and nothing is
/// left staged.
pub proof fn law_commit_round_trip(rows: Seq<i64>)
    ensures
        row_count(flushed(appended_all(absent(), rows))) == rows.len(),
        flushed(appended_all(absent(), rows)).committed == rows,
        flushed(appended_all(absent(), rows)).staged == Seq::<i64>::empty(),
        row_count_verdict(
            rows.len() as usize,
            row_count(flushed(appended_all(absent(), rows))) as usize,
        ) == Ok::<(), CommitError>(()),
{
    lemma_appended_all(absent(), rows);
    assert(Seq::<i64>::empty() + Seq::<i64>::empty() + rows =~= rows);
}

/// Until it is flushed, a partition shows none of the rows appended to it:
/// its durable rows, their count and its last durable row are unchanged.
pub proof fn law_staged_rows_invisible(p: PartitionRows, rows: Seq<i64>)
    ensures
        appended_all(p, rows).committed == p.committed,
        row_count(appended_all(p, rows)) == row_count(p),
{
    lemma_appended_all(p, rows);
}

impl Partition {
    /// A partition with no rows: the period is absent.
    pub fn new() -> (p: Partition)
        ensures
            p@ == absent(),
    {
        Partition { committed: Vec::new(), staged: Vec::new() }
    }

    /// Stages one row behind those already staged. Durable rows are not
    /// touched.
    pub fn append(&mut self, timestamp: i64)
        ensures
            final(self)@ == appended(old(self)@, timestamp),
    {
        self.staged.push(timestamp);
    }

    /// Makes every staged row durable, behind the rows that already are.
    pub fn flush(&mut self)
        ensures
            final(self)@ == flushed(old(self)@),
    {
        self.committed.append(&mut self.staged);
    }

    /// The number of durable rows.
    pub fn committed_row_count(&self) -> (n: usize)
        ensures
            n == row_count(self@),
    {
        self.committed.len()
    }

    /// The timestamp of the last durable row, from which the next run
    /// resumes; `None` while the partition has no durable row.
    pub fn last_committed_timestamp(&self) -> (last: Option<i64>)
        ensures
            last == if self.committed@.len() == 0 {
                None
            } else {
                Some(self.committed@.last())
            },
    {
        let n: usize = self.committed.len();
        if n == 0 {
            None
        } else {
            Some(self.committed[n - 1])
        }
    }

    /// Commits a period: appends the records in the sequence `order`,
    /// flushes, and checks that the partition then holds exactly as many
    /// durable rows as were written. That is so exactly when the partition
    /// held no row before; otherwise the rows are durable all the same and
    /// the difference is reported.
    pub fn commit_period(&mut self, keys: &Vec<RecordKey>, order: &Vec<usize>) -> (r: Result<
        usize,
        CommitError,
    >)
        requires
            within(order@, keys@.len()),
        ensures
            final(self)@ == flushed(appended_all(old(self)@, timestamps_in(keys@, order@))),
            r == if old(self).committed@.len() + old(self).staged@.len() == 0 {
                Ok::<usize, CommitError>(order@.len() as usize)
            } else {
                Err::<usize, CommitError>(
                    CommitError::Integrity {
                        expected: order@.len() as usize,
                        found: (old(self).committed@.len() + old(self).staged@.len()
                            + order@.len()) as usize,
                    },
                )
            },
    {
        let written: usize = order.len();
        let mut i: usize = 0;
        while i < written
            invariant
                written == order@.len(),
                i <= written,
                within(order@, keys@.len()),
                self@ == appended_all(
                    old(self)@,
                    timestamps_in(keys@, order@).subrange(0, i as int),
                ),
            decreases written - i,
        {
            let at: usize = order[i];
            self.append(keys[at].timestamp);
            proof {
                let all = timestamps_in(keys@, order@);
                assert(all.subrange(0, i as int + 1).drop_last() =~= all.subrange(0, i as int));
            }
            i += 1;
        }
        proof {
            let all = timestamps_in(keys@, order@);
            assert(all.subrange(0, written as int) =~= all);
        }
        self.flush();
        proof {
            lemma_appended_all(old(self)@, timestamps_in(keys@, order@));
        }
        match verify_row_count(written, self.committed_row_count()) {
            Ok(()) => Ok(written),
            Err(e) => Err(e),
        }
    }
}

} // verus!
