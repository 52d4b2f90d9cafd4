//! What a fetch task does with each answer of the upstream service.
//!
//! A task asks for one symbol in one period. Every answer is classified as
//! records, as "no data", or as a transient failure, and the task reacts:
//! it hands its records to the collector, ends empty, waits and asks again,
//! or gives up once the dataset's ceiling of attempts is reached. The
//! caller makes the calls and sleeps; the rules are here.

use vstd::prelude::*;

verus! {

/// The datasets that are fetched symbol by symbol.
#[derive(Clone, Copy, Debug, PartialEq, Eq, Structural)]
pub enum DatasetKind {
    /// Reference details of a symbol.
    SymbolDetails,
    /// One-minute aggregate bars.
    MinuteBars,
    /// Individual trades.
    TradeTicks,
}

/// One classified answer of the upstream service.
#[derive(Clone, Copy, Debug, PartialEq, Eq, Structural)]
pub enum Outcome {
    /// The call succeeded and returned this many records.
    Records { count: usize },
    /// The service has nothing for this symbol and period.
    NoData,
    /// The call failed in a way that may pass.
    Transient,
}

/// What a task does after an answer.
#[derive(Clone, Copy, Debug, PartialEq, Eq, Structural)]
pub enum Decision {
    /// Hand the records to the collector and count the task as completed.
    Collect { count: usize },
    /// End the task with no records; nothing is wrong.
    Skip,
    /// Wait this many seconds, then ask again.
    RetryAfter { seconds: u64 },
    /// The attempts are used up: the whole run fails.
    Abort,
}

/// How a task ended, with the number of calls it made.
#[derive(Clone, Copy, Debug, PartialEq, Eq, Structural)]
pub enum TaskEnd {
    /// It contributes `count` records.
    Collected { count: usize, attempts: u32 },
    /// It contributes nothing, and succeeded.
    Empty { attempts: u32 },
    /// Every allowed attempt failed.
    Exhausted { attempts: u32 },
    /// The answers ran out before the task ended; `attempts` calls were made.
    Pending { attempts: u32 },
}

/// The most attempts a task of a dataset makes.
pub open spec fn attempt_ceiling(kind: DatasetKind) -> nat {
    match kind {
        DatasetKind::SymbolDetails => 10,
        DatasetKind::TradeTicks => 20,
        DatasetKind::MinuteBars => 50,
    }
}

/// Seconds to wait after the failed attempt with the given number: the
/// backoff is linear, one second per attempt made.
pub open spec fn backoff_after(attempt: nat) -> nat {
    attempt
}

/// The decision after attempt number `attempt` (the first is 1) was answered
/// by `outcome`.
pub open spec fn decision_for(kind: DatasetKind, attempt: nat, outcome: Outcome) -> Decision {
    match outcome {
        Outcome::Records { count } => Decision::Collect { count },
        Outcome::NoData => Decision::Skip,
        Outcome::Transient => if attempt < attempt_ceiling(kind) {
            Decision::RetryAfter { seconds: backoff_after(attempt) as u64 }
        } else {
            Decision::Abort
        },
    }
}

/// How a task ends that has made `made` calls so far and receives `answers`
/// to its further calls, one after the other.
pub open spec fn settle(kind: DatasetKind, answers: Seq<Outcome>, made: nat) -> TaskEnd
    decreases answers.len(),
{
    if answers.len() == 0 {
        TaskEnd::Pending { attempts: made as u32 }
    } else {
        match decision_for(kind, made + 1, answers[0]) {
            Decision::Collect { count } => TaskEnd::Collected {
                count,
                attempts: (made + 1) as u32,
            },
            Decision::Skip => TaskEnd::Empty { attempts: (made + 1) as u32 },
            Decision::Abort => TaskEnd::Exhausted { attempts: (made + 1) as u32 },
            Decision::RetryAfter { seconds } => settle(kind, answers.drop_first(), made + 1),
        }
    }
}

/// The records that a task contributes to its period.
pub open spec fn contribution(end: TaskEnd) -> nat {
    match end {
        TaskEnd::Collected { count, attempts } => count as nat,
        _ => 0,
    }
}

/// The most attempts a task of a dataset makes.
pub fn max_attempts(kind: DatasetKind) -> (n: u32)
    ensures
        n as nat == attempt_ceiling(kind),
{
    match kind {
        DatasetKind::SymbolDetails => 10,
        DatasetKind::TradeTicks => 20,
        DatasetKind::MinuteBars => 50,
    }
}

/// Seconds to wait after the failed attempt with the given number.
pub fn backoff_seconds(attempt: u32) -> (seconds: u64)
    ensures
        seconds as nat == backoff_after(attempt as nat),
{
    attempt as u64
}

/// The decision after attempt number `attempt` (the first is 1) was answered
/// by `outcome`.
pub fn decide(kind: DatasetKind, attempt: u32, outcome: Outcome) -> (d: Decision)
    ensures
        d == decision_for(kind, attempt as nat, outcome),
{
    match outcome {
        Outcome::Records { count } => Decision::Collect { count },
        Outcome::NoData => Decision::Skip,
        Outcome::Transient => if attempt < max_attempts(kind) {
            Decision::RetryAfter { seconds: backoff_seconds(attempt) }
        } else {
            Decision::Abort
        },
    }
}

/// Runs one task against the answers that the service gives to its calls,
/// one after the other, and says how it ends. Answers after the one that
/// ends the task are not read.
pub fn run_task(kind: DatasetKind, answers: &Vec<Outcome>) -> (end: TaskEnd)
    ensures
        end == settle(kind, answers@, 0),
{
    let mut made: u32 = 0;
    let mut i: usize = 0;
    proof {
        assert(answers@.skip(0) =~= answers@);
    }
    while i < answers.len()
        invariant
            i <= answers@.len(),
            made as nat <= attempt_ceiling(kind),
            i < answers@.len() ==> (made as nat) < attempt_ceiling(kind),
            settle(kind, answers@, 0) == settle(kind, answers@.skip(i as int), made as nat),
        decreases answers@.len() - i,
    {
        proof {
            assert(answers@.skip(i as int)[0] == answers@[i as int]);
            assert(answers@.skip(i as int).drop_first() =~= answers@.skip(i as int + 1));
        }
        let attempt: u32 = made + 1;
        match decide(kind, attempt, answers[i]) {
            Decision::Collect { count } => {
                return TaskEnd::Collected { count, attempts: attempt };
            },
            Decision::Skip => {
                return TaskEnd::Empty { attempts: attempt };
            },
            Decision::Abort => {
                return TaskEnd::Exhausted { attempts: attempt };
            },
            Decision::RetryAfter { seconds } => {
                made = attempt;
                i += 1;
            },
        }
    }
    TaskEnd::Pending { attempts: made }
}

/// The first `k` of `answers` are all transient failures.
pub open spec fn starts_with_failures(answers: Seq<Outcome>, k: nat) -> bool {
    &&& k <= answers.len()
    &&& forall|i: int| 0 <= i < k ==> #[trigger] answers[i] == Outcome::Transient
}

/// Failures below the ceiling only move the task on to its next attempt.
proof fn lemma_settle_skips_failures(kind: DatasetKind, answers: Seq<Outcome>, made: nat, k: nat)
    requires
        starts_with_failures(answers, k),
        made + k < attempt_ceiling(kind),
    ensures
        settle(kind, answers, made) == settle(kind, answers.skip(k as int), made + k),
    decreases k,
{
    if k == 0 {
        assert(answers.skip(0) =~= answers);
    } else {
        let rest = answers.drop_first();
        assert(answers[0] == Outcome::Transient);
        assert forall|i: int| 0 <= i < k - 1 implies #[trigger] rest[i] == Outcome::Transient by {
            assert(rest[i] == answers[i + 1]);
        }
        lemma_settle_skips_failures(kind, rest, made + 1, (k - 1) as nat);
        assert(rest.skip(k - 1) =~= answers.skip(k as int));
    }
}

/// A task that is told "no data" ends at once, in success, with no records:
/// it neither asks again nor fails. This holds on the first attempt and
/// after any number of failures below the ceiling.
pub proof fn law_no_data_ends_empty(kind: DatasetKind, answers: Seq<Outcome>, k: nat)
    requires
        starts_with_failures(answers, k),
        k < attempt_ceiling(kind),
        k < answers.len(),
        answers[k as int] == Outcome::NoData,
    ensures
        decision_for(kind, k + 1, Outcome::NoData) == Decision::Skip,
        settle(kind, answers, 0) == (TaskEnd::Empty { attempts: (k + 1) as u32 }),
        contribution(settle(kind, answers, 0)) == 0,
{
    lemma_settle_skips_failures(kind, answers, 0, k);
    assert(answers.skip(k as int)[0] == answers[k as int]);
}

/// A task whose calls fail fewer times than the ceiling and then succeed
/// contributes the records of that one successful answer: none is lost and
/// none is counted twice.
pub proof fn law_success_after_failures(
    kind: DatasetKind,
    answers: Seq<Outcome>,
    k: nat,
    count: usize,
)
    requires
        starts_with_failures(answers, k),
        k < attempt_ceiling(kind),
        k < answers.len(),
        answers[k as int] == (Outcome::Records { count }),
    ensures
        settle(kind, answers, 0) == (TaskEnd::Collected { count, attempts: (k + 1) as u32 }),
        contribution(settle(kind, answers, 0)) == count,
{
    lemma_settle_skips_failures(kind, answers, 0, k);
    assert(answers.skip(k as int)[0] == answers[k as int]);
}

/// A task whose every attempt up to the ceiling fails is exhausted: it
/// made as many calls as the ceiling allows and contributes nothing.
pub proof fn law_ceiling_exhausts(kind: DatasetKind, answers: Seq<Outcome>)
    requires
        starts_with_failures(answers, attempt_ceiling(kind)),
    ensures
        settle(kind, answers, 0) == (TaskEnd::Exhausted {
            attempts: attempt_ceiling(kind) as u32,
        }),
        contribution(settle(kind, answers, 0)) == 0,
{
    let k = (attempt_ceiling(kind) - 1) as nat;
    lemma_settle_skips_failures(kind, answers, 0, k);
    assert(answers.skip(k as int)[0] == answers[k as int]);
}

/// A task is still pending only while every answer so far was a failure
/// and the ceiling is not reached.
pub proof fn law_pending_means_waiting(kind: DatasetKind, answers: Seq<Outcome>, made: nat)
    requires
        made < attempt_ceiling(kind),
    ensures
        (settle(kind, answers, made) is Pending) <==> (starts_with_failures(answers, answers.len())
            && made + answers.len() < attempt_ceiling(kind)),
    decreases answers.len(),
{
    if answers.len() > 0 {
        let rest = answers.drop_first();
        if answers[0] == Outcome::Transient && made + 1 < attempt_ceiling(kind) {
            law_pending_means_waiting(kind, rest, made + 1);
            if starts_with_failures(rest, rest.len()) {
                assert forall|i: int| 0 <= i < answers.len() implies #[trigger] answers[i]
                    == Outcome::Transient by {
                    if i > 0 {
                        assert(rest[i - 1] == answers[i]);
                    }
                }
            }
            if starts_with_failures(answers, answers.len()) {
                assert forall|i: int| 0 <= i < rest.len() implies #[trigger] rest[i]
                    == Outcome::Transient by {
                    assert(rest[i] == answers[i + 1]);
                }
            }
        } else if answers[0] != Outcome::Transient {
            assert(!starts_with_failures(answers, answers.len()));
        }
    }
}

/// `needle` occurs in `text` as a run of consecutive characters.
pub open spec fn occurs_in(needle: Seq<char>, text: Seq<char>) -> bool {
    exists|i: int|
        0 <= i && i + needle.len() <= text.len() && #[trigger] text.subrange(
            i,
            i + needle.len(),
        ) == needle
}

/// Whether a failed call means that the service has nothing for the symbol.
/// An empty response means so for every dataset. Beyond that, for bars and
/// trades it is a response that ended before any data, and for symbol
/// details a "not found" status in the error's message.
pub open spec fn means_no_data(
    kind: DatasetKind,
    empty_response: bool,
    unexpected_eof: bool,
    message: Seq<char>,
) -> bool {
    empty_response || match kind {
        DatasetKind::SymbolDetails => occurs_in("status: 404"@, message),
        _ => unexpected_eof,
    }
}

/// `str::contains` of std, with a string as the pattern: whether the pattern
/// matches a sub-slice of the text.
#[verifier::external_body]
fn text_contains(text: &str, needle: &str) -> (found: bool)
    ensures
        found == occurs_in(needle@, text@),
{
    text.contains(needle)
}

/// Classifies a failed call from what the error shows: whether the
/// response was empty, whether it ended unexpectedly, and its message.
pub fn classify_failure(
    kind: DatasetKind,
    empty_response: bool,
    unexpected_eof: bool,
    message: &str,
) -> (outcome: Outcome)
    ensures
        outcome == if means_no_data(kind, empty_response, unexpected_eof, message@) {
            Outcome::NoData
        } else {
            Outcome::Transient
        },
{
    let no_data: bool = empty_response || match kind {
        DatasetKind::SymbolDetails => text_contains(message, "status: 404"),
        _ => unexpected_eof,
    };
    if no_data {
        Outcome::NoData
    } else {
        Outcome::Transient
    }
}

} // verus!
