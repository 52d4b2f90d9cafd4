//! The stages that a period passes through, and what is left to do for a
//! day.
//!
//! A period is planned, its symbols are discovered, its tasks are fetched,
//! the records are put in order and committed. A period whose output is
//! already there is skipped. An error that cannot be recovered from ends
//! the period, and the run, from any stage.

use vstd::prelude::*;

verus! {

/// Where a period stands.
#[derive(Clone, Copy, Debug, PartialEq, Eq, Structural)]
pub enum Stage {
    Planned,
    Discovering,
    Fetching,
    Aggregating,
    Committing,
    Done,
    Failed,
}

/// What happened to a period.
#[derive(Clone, Copy, Debug, PartialEq, Eq, Structural)]
pub enum Event {
    /// The period's output is already there.
    OutputExists,
    /// Work on the period begins.
    Started,
    /// The period's symbols are known.
    SymbolsKnown,
    /// Every task of the period has ended, none in failure.
    TasksSettled,
    /// The records are in their order.
    Sorted,
    /// The records are durable and their count agreed.
    Committed,
    /// An error that cannot be recovered from.
    Fatal,
}

/// What is left to do for one day.
#[derive(Clone, Copy, Debug, PartialEq, Eq, Structural)]
pub struct DayPlan {
    /// List the day's symbols and download their details.
    pub fetch_tickers: bool,
    /// Download the day's trades.
    pub fetch_trades: bool,
}

/// A period in this stage is over.
pub open spec fn is_terminal(stage: Stage) -> bool {
    stage == Stage::Done || stage == Stage::Failed
}

/// How far a stage is along the way.
pub open spec fn stage_rank(stage: Stage) -> nat {
    match stage {
        Stage::Planned => 0,
        Stage::Discovering => 1,
        Stage::Fetching => 2,
        Stage::Aggregating => 3,
        Stage::Committing => 4,
        Stage::Done => 5,
        Stage::Failed => 6,
    }
}

/// The stage that follows `stage` on `event`; `None` where the event has no
/// place in that stage.
pub open spec fn next_stage(stage: Stage, event: Event) -> Option<Stage> {
    match (stage, event) {
        (Stage::Done, _) => None,
        (Stage::Failed, _) => None,
        (_, Event::Fatal) => Some(Stage::Failed),
        (Stage::Planned, Event::OutputExists) => Some(Stage::Done),
        (Stage::Planned, Event::Started) => Some(Stage::Discovering),
        (Stage::Discovering, Event::SymbolsKnown) => Some(Stage::Fetching),
        (Stage::Fetching, Event::TasksSettled) => Some(Stage::Aggregating),
        (Stage::Aggregating, Event::Sorted) => Some(Stage::Committing),
        (Stage::Committing, Event::Committed) => Some(Stage::Done),
        _ => None,
    }
}

/// The stage that follows `stage` on `event`; `None` where the event has no
/// place in that stage.
pub fn advance(stage: Stage, event: Event) -> (next: Option<Stage>)
    ensures
        next == next_stage(stage, event),
{
    match (stage, event) {
        (Stage::Done, _) => None,
        (Stage::Failed, _) => None,
        (_, Event::Fatal) => Some(Stage::Failed),
        (Stage::Planned, Event::OutputExists) => Some(Stage::Done),
        (Stage::Planned, Event::Started) => Some(Stage::Discovering),
        (Stage::Discovering, Event::SymbolsKnown) => Some(Stage::Fetching),
        (Stage::Fetching, Event::TasksSettled) => Some(Stage::Aggregating),
        (Stage::Aggregating, Event::Sorted) => Some(Stage::Committing),
        (Stage::Committing, Event::Committed) => Some(Stage::Done),
        _ => None,
    }
}

/// A period that is done or has failed stays so: no event moves it.
pub proof fn law_terminal_stages_stay(stage: Stage, event: Event)
    requires
        is_terminal(stage),
    ensures
        next_stage(stage, event).is_none(),
{
}

/// From every stage in which a period is not yet over, a fatal error leads
/// to failure.
pub proof fn law_fatal_fails_from_anywhere(stage: Stage)
    requires
        !is_terminal(stage),
    ensures
        next_stage(stage, Event::Fatal) == Some(Stage::Failed),
{
}

/// Every step leads further along the way, so no period returns to a stage
/// that it has left.
pub proof fn law_stages_only_advance(stage: Stage, event: Event)
    requires
        next_stage(stage, event).is_some(),
    ensures
        stage_rank(stage) < stage_rank(next_stage(stage, event).unwrap()),
{
}

/// A period is done only by a commit, or because its output was there
/// before anything was fetched.
pub proof fn law_done_only_by_commit_or_skip(stage: Stage, event: Event)
    requires
        next_stage(stage, event) == Some(Stage::Done),
    ensures
        (stage == Stage::Committing && event == Event::Committed) || (stage == Stage::Planned
            && event == Event::OutputExists),
{
}

/// Whether the symbols of a period are known once the period is in
/// `stage`: they are from the moment the fetch begins, and stay so unless
/// the period fails.
pub open spec fn symbols_known_in(stage: Stage) -> bool {
    2 <= stage_rank(stage) <= 5
}

/// Whether a dataset that is fetched for the symbols of another may begin
/// its own fetch: as soon as the symbols of the other are known, without
/// waiting for its commit.
pub fn dependent_may_fetch(prerequisite: Stage) -> (may: bool)
    ensures
        may == symbols_known_in(prerequisite),
{
    match prerequisite {
        Stage::Fetching | Stage::Aggregating | Stage::Committing | Stage::Done => true,
        _ => false,
    }
}

/// Whether the trades of a day count as downloaded. That the file is there
/// is the only sign; what it holds is not looked at.
pub fn valid_trades_file(exists: bool) -> (valid: bool)
    ensures
        valid == exists,
{
    if !exists {
        return false;
    }
    true
}

/// What is left to do for a day. The symbols are listed and their details
/// downloaded unless the file of the day's details is there and can be
/// decoded, whether or not it holds a record; the trades are downloaded
/// unless their file is there.
pub fn plan_day(tickers_file_decodable: bool, trades_file_exists: bool) -> (plan: DayPlan)
    ensures
        plan.fetch_tickers == !tickers_file_decodable,
        plan.fetch_trades == !trades_file_exists,
{
    DayPlan {
        fetch_tickers: !tickers_file_decodable,
        fetch_trades: !valid_trades_file(trades_file_exists),
    }
}

} // verus!
