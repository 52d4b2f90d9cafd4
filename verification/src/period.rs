//! One period from its tasks to its partition.
//!
//! The tasks of a period are independent of each other: each ends on its
//! own answers, and the period's result does not depend on the sequence in
//! which they run. A period is complete when every task has ended and none
//! is exhausted; only a complete period is put in order and committed.

use crate::commit::{appended_all, flushed, timestamps_in, CommitError, Partition};
use crate::fetch::{attempt_ceiling, contribution, run_task, settle, starts_with_failures};
use crate::fetch::{DatasetKind, Outcome, TaskEnd};
use crate::order::{is_arrangement, key_le, ordered, sort_order, OrderBy, RecordKey};
use vstd::prelude::*;

verus! {

/// How the fetch of a period ended.
#[derive(Clone, Copy, Debug, PartialEq, Eq, Structural)]
pub enum PeriodFetch {
    /// Every task ended and none failed: `completed` tasks handed in
    /// records, `records` in all.
    Complete { completed: usize, records: u128 },
    /// A task used up its attempts; `task` is the first such task.
    Failed { task: usize },
    /// No task failed, but one still waits for an answer; `task` is the
    /// first such task.
    Pending { task: usize },
}

/// Why a period was not committed.
#[derive(Clone, Copy, Debug, PartialEq, Eq, Structural)]
pub enum PeriodError {
    /// A task used up its attempts.
    TaskFailed { task: usize },
    /// A task has not ended.
    TaskPending { task: usize },
    /// The tasks reported `reported` records and `handed_over` were handed over.
    RecordsLost { reported: u128, handed_over: usize },
    /// The partition did not hold what was written.
    Integrity { expected: usize, found: usize },
}

/// The order in which the records of a dataset are written.
pub open spec fn order_of(kind: DatasetKind) -> OrderBy {
    match kind {
        DatasetKind::SymbolDetails => OrderBy::Symbol,
        _ => OrderBy::TimeThenSymbol,
    }
}

/// How the task with the given answers ends.
pub open spec fn end_of(kind: DatasetKind, answers: Vec<Outcome>) -> TaskEnd {
    settle(kind, answers@, 0)
}

/// Among the first `n` tasks, the number that hand in records.
pub open spec fn collected_among(kind: DatasetKind, scripts: Seq<Vec<Outcome>>, n: nat) -> nat
    decreases n,
{
    if n == 0 {
        0
    } else {
        collected_among(kind, scripts, (n - 1) as nat) + if end_of(kind, scripts[n - 1])
            is Collected {
            1nat
        } else {
            0nat
        }
    }
}

/// The records that the first `n` tasks contribute in all.
pub open spec fn records_among(kind: DatasetKind, scripts: Seq<Vec<Outcome>>, n: nat) -> nat
    decreases n,
{
    if n == 0 {
        0
    } else {
        records_among(kind, scripts, (n - 1) as nat) + contribution(end_of(kind, scripts[n - 1]))
    }
}

/// None of the first `n` tasks is exhausted.
pub open spec fn none_exhausted(kind: DatasetKind, scripts: Seq<Vec<Outcome>>, n: int) -> bool {
    forall|j: int| 0 <= j < n ==> !(end_of(kind, #[trigger] scripts[j]) is Exhausted)
}

/// None of the first `n` tasks is pending.
pub open spec fn none_pending(kind: DatasetKind, scripts: Seq<Vec<Outcome>>, n: int) -> bool {
    forall|j: int| 0 <= j < n ==> !(end_of(kind, #[trigger] scripts[j]) is Pending)
}

/// `fetch` is the result of the period whose tasks receive `scripts`.
pub open spec fn is_fetch_of(kind: DatasetKind, scripts: Seq<Vec<Outcome>>, fetch: PeriodFetch)
    -> bool {
    match fetch {
        PeriodFetch::Failed { task } => {
            &&& task < scripts.len()
            &&& end_of(kind, scripts[task as int]) is Exhausted
            &&& none_exhausted(kind, scripts, task as int)
        },
        PeriodFetch::Pending { task } => {
            &&& none_exhausted(kind, scripts, scripts.len() as int)
            &&& task < scripts.len()
            &&& end_of(kind, scripts[task as int]) is Pending
            &&& none_pending(kind, scripts, task as int)
        },
        PeriodFetch::Complete { completed, records } => {
            &&& none_exhausted(kind, scripts, scripts.len() as int)
            &&& none_pending(kind, scripts, scripts.len() as int)
            &&& completed == collected_among(kind, scripts, scripts.len())
            &&& records == records_among(kind, scripts, scripts.len())
        },
    }
}

/// The first `n` tasks contribute at most `n` times the largest count.
proof fn lemma_records_bounded(kind: DatasetKind, scripts: Seq<Vec<Outcome>>, n: nat)
    ensures
        records_among(kind, scripts, n) <= n * usize::MAX,
        collected_among(kind, scripts, n) <= n,
    decreases n,
{
    if n > 0 {
        lemma_records_bounded(kind, scripts, (n - 1) as nat);
        assert((n - 1) * usize::MAX + usize::MAX == n * usize::MAX) by (nonlinear_arith);
    }
}

/// Runs every task of a period against the answers it receives and says how
/// the period's fetch ends. `scripts` holds, for each task, the answers to
/// its calls, one after the other.
pub fn fetch_period(kind: DatasetKind, scripts: &Vec<Vec<Outcome>>) -> (fetch: PeriodFetch)
    ensures
        is_fetch_of(kind, scripts@, fetch),
{
    let n: usize = scripts.len();
    let mut completed: usize = 0;
    let mut records: u128 = 0;
    let mut exhausted: Option<usize> = None;
    let mut pending: Option<usize> = None;
    let mut i: usize = 0;
    while i < n
        invariant
            n == scripts@.len(),
            i <= n,
            completed == collected_among(kind, scripts@, i as nat),
            records == records_among(kind, scripts@, i as nat),
            match exhausted {
                Some(task) => task < i && end_of(kind, scripts@[task as int]) is Exhausted
                    && none_exhausted(kind, scripts@, task as int),
                None => none_exhausted(kind, scripts@, i as int),
            },
            match pending {
                Some(task) => task < i && end_of(kind, scripts@[task as int]) is Pending
                    && none_pending(kind, scripts@, task as int),
                None => none_pending(kind, scripts@, i as int),
            },
        decreases n - i,
    {
        proof {
            lemma_records_bounded(kind, scripts@, i as nat);
            lemma_records_bounded(kind, scripts@, (i + 1) as nat);
            assert((i + 1) * usize::MAX <= usize::MAX * usize::MAX) by (nonlinear_arith)
                requires
                    i + 1 <= usize::MAX,
            ;
            assert(usize::MAX * usize::MAX <= u128::MAX) by (nonlinear_arith)
                requires
                    usize::MAX <= 0xffff_ffff_ffff_ffff,
            ;
        }
        match run_task(kind, &scripts[i]) {
            TaskEnd::Collected { count, attempts } => {
                completed = completed + 1;
                records = records + count as u128;
            },
            TaskEnd::Empty { attempts } => {},
            TaskEnd::Exhausted { attempts } => {
                if exhausted.is_none() {
                    exhausted = Some(i);
                }
            },
            TaskEnd::Pending { attempts } => {
                if pending.is_none() {
                    pending = Some(i);
                }
            },
        }
        i += 1;
    }
    match exhausted {
        Some(task) => PeriodFetch::Failed { task },
        None => match pending {
            Some(task) => PeriodFetch::Pending { task },
            None => PeriodFetch::Complete { completed, records },
        },
    }
}

/// The details of a day's symbols: how their fetch ends on the answers
/// given to each symbol's calls.
pub fn download_tickers_day(scripts: &Vec<Vec<Outcome>>) -> (fetch: PeriodFetch)
    ensures
        is_fetch_of(DatasetKind::SymbolDetails, scripts@, fetch),
{
    fetch_period(DatasetKind::SymbolDetails, scripts)
}

/// The trades of a day's symbols: how their fetch ends on the answers
/// given to each symbol's calls.
pub fn download_trades_day(scripts: &Vec<Vec<Outcome>>) -> (fetch: PeriodFetch)
    ensures
        is_fetch_of(DatasetKind::TradeTicks, scripts@, fetch),
{
    fetch_period(DatasetKind::TradeTicks, scripts)
}

/// What committing a period does to its partition and returns, when the
/// records are written in the sequence `order`.
pub open spec fn commit_outcome(
    before: Partition,
    after: Partition,
    keys: Seq<RecordKey>,
    order: Seq<usize>,
    r: Result<usize, PeriodError>,
) -> bool {
    &&& after@ == flushed(appended_all(before@, timestamps_in(keys, order)))
    &&& r == if before@.committed.len() + before@.staged.len() == 0 {
        Ok::<usize, PeriodError>(keys.len() as usize)
    } else {
        Err::<usize, PeriodError>(
            PeriodError::Integrity {
                expected: keys.len() as usize,
                found: (before@.committed.len() + before@.staged.len() + keys.len()) as usize,
            },
        )
    }
}

/// The order in which the records of a dataset are written: bars and
/// trades by timestamp and then symbol, details by symbol.
pub fn order_for(kind: DatasetKind) -> (by: OrderBy)
    ensures
        by == order_of(kind),
{
    match kind {
        DatasetKind::SymbolDetails => OrderBy::Symbol,
        _ => OrderBy::TimeThenSymbol,
    }
}

/// Puts the collected records of a period in the sequence in which they
/// are written: each record exactly once, never decreasing in the order of
/// the dataset.
pub fn arrange(kind: DatasetKind, keys: &Vec<RecordKey>) -> (order: Vec<usize>)
    ensures
        is_arrangement(order@, keys@.len()),
        ordered(order_of(kind), keys@, order@),
{
    sort_order(order_for(kind), keys)
}

/// Commits what a period's fetch collected. Nothing is written unless the
/// fetch is complete and exactly the records that the tasks reported were
/// handed over. Then the records are put in order and committed to the
/// partition, which must hold no row before.
pub fn commit_fetched(
    kind: DatasetKind,
    fetch: PeriodFetch,
    keys: &Vec<RecordKey>,
    partition: &mut Partition,
) -> (r: Result<usize, PeriodError>)
    ensures
        match fetch {
            PeriodFetch::Failed { task } => {
                &&& r == Err::<usize, PeriodError>(PeriodError::TaskFailed { task })
                &&& final(partition)@ == old(partition)@
            },
            PeriodFetch::Pending { task } => {
                &&& r == Err::<usize, PeriodError>(PeriodError::TaskPending { task })
                &&& final(partition)@ == old(partition)@
            },
            PeriodFetch::Complete { completed, records } => if records != keys@.len() {
                &&& r == Err::<usize, PeriodError>(
                    PeriodError::RecordsLost { reported: records, handed_over: keys@.len() as usize },
                )
                &&& final(partition)@ == old(partition)@
            } else {
                exists|order: Seq<usize>|
                    {
                        &&& #[trigger] is_arrangement(order, keys@.len())
                        &&& ordered(order_of(kind), keys@, order)
                        &&& commit_outcome(*old(partition), *final(partition), keys@, order, r)
                    }
            },
        },
{
    match fetch {
        PeriodFetch::Failed { task } => Err(PeriodError::TaskFailed { task }),
        PeriodFetch::Pending { task } => Err(PeriodError::TaskPending { task }),
        PeriodFetch::Complete { completed, records } => {
            if records != keys.len() as u128 {
                return Err(PeriodError::RecordsLost { reported: records, handed_over: keys.len() });
            }
            let order: Vec<usize> = arrange(kind, keys);
            let r: Result<usize, PeriodError> = match partition.commit_period(keys, &order) {
                Ok(written) => Ok(written),
                Err(CommitError::Integrity { expected, found }) => Err(
                    PeriodError::Integrity { expected, found },
                ),
            };
            proof {
                assert(is_arrangement(order@, keys@.len()));
                assert(commit_outcome(*old(partition), *partition, keys@, order@, r));
            }
            r
        },
    }
}

/// A period with a task whose every attempt up to the ceiling fails ends in
/// failure, whatever the other tasks do; `commit_fetched` then writes
/// nothing.
pub proof fn law_exhausted_task_fails_period(
    kind: DatasetKind,
    scripts: Seq<Vec<Outcome>>,
    task: int,
    fetch: PeriodFetch,
)
    requires
        0 <= task < scripts.len(),
        starts_with_failures(scripts[task]@, attempt_ceiling(kind)),
        is_fetch_of(kind, scripts, fetch),
    ensures
        fetch is Failed,
{
    crate::fetch::law_ceiling_exhausts(kind, scripts[task]@);
    assert(end_of(kind, scripts[task]) is Exhausted);
}

/// A period of which every task is told "no data" at its first call is
/// complete with no records: it commits, empty, without error.
pub proof fn law_period_without_data_is_complete(
    kind: DatasetKind,
    scripts: Seq<Vec<Outcome>>,
    fetch: PeriodFetch,
)
    requires
        forall|j: int|
            0 <= j < scripts.len() ==> (#[trigger] scripts[j])@.len() > 0 && scripts[j]@[0]
                == Outcome::NoData,
        is_fetch_of(kind, scripts, fetch),
    ensures
        fetch == (PeriodFetch::Complete { completed: 0, records: 0 }),
{
    assert forall|j: int| 0 <= j < scripts.len() implies end_of(kind, #[trigger] scripts[j])
        == (TaskEnd::Empty { attempts: 1 }) by {
        crate::fetch::law_no_data_ends_empty(kind, scripts[j]@, 0);
    }
    lemma_empty_tasks_count_nothing(kind, scripts, scripts.len());
}

/// Tasks that end empty hand in nothing.
proof fn lemma_empty_tasks_count_nothing(kind: DatasetKind, scripts: Seq<Vec<Outcome>>, n: nat)
    requires
        n <= scripts.len(),
        forall|j: int| 0 <= j < n ==> end_of(kind, #[trigger] scripts[j]) is Empty,
    ensures
        collected_among(kind, scripts, n) == 0,
        records_among(kind, scripts, n) == 0,
    decreases n,
{
    if n > 0 {
        lemma_empty_tasks_count_nothing(kind, scripts, (n - 1) as nat);
        assert(end_of(kind, scripts[n - 1]) is Empty);
    }
}

/// When bars or trades are written in their order, the last row written has
/// the latest timestamp of the period: the resume point that the partition
/// then shows lies behind every record of the period.
pub proof fn law_last_row_is_latest(keys: Seq<RecordKey>, order: Seq<usize>)
    requires
        0 < keys.len() <= usize::MAX,
        is_arrangement(order, keys.len()),
        ordered(OrderBy::TimeThenSymbol, keys, order),
    ensures
        forall|i: int|
            0 <= i < keys.len() ==> (#[trigger] keys[i]).timestamp <= timestamps_in(
                keys,
                order,
            ).last(),
{
    let last = order.len() - 1;
    assert forall|i: int| 0 <= i < keys.len() implies (#[trigger] keys[i]).timestamp
        <= timestamps_in(keys, order).last() by {
        assert(order.contains(i as usize));
        let j = choose|j: int| 0 <= j < order.len() && order[j] == i as usize;
        assert(timestamps_in(keys, order).last() == keys[order[last] as int].timestamp);
        assert(keys[order[j] as int] == keys[i]);
        if j < last {
            assert(key_le(
                OrderBy::TimeThenSymbol,
                keys[order[j] as int],
                keys[order[last] as int],
            ));
        }
    }
}

} // verus!
