use market_ingest::stage::{advance, dependent_may_fetch, plan_day, valid_trades_file};
use market_ingest::stage::{DayPlan, Event, Stage};

const STAGES: [Stage; 7] = [
    Stage::Planned,
    Stage::Discovering,
    Stage::Fetching,
    Stage::Aggregating,
    Stage::Committing,
    Stage::Done,
    Stage::Failed,
];

const EVENTS: [Event; 7] = [
    Event::OutputExists,
    Event::Started,
    Event::SymbolsKnown,
    Event::TasksSettled,
    Event::Sorted,
    Event::Committed,
    Event::Fatal,
];

#[test]
fn period_runs_through_its_stages() {
    let mut stage = Stage::Planned;
    let events = [
        Event::Started,
        Event::SymbolsKnown,
        Event::TasksSettled,
        Event::Sorted,
        Event::Committed,
    ];
    let expected = [
        Stage::Discovering,
        Stage::Fetching,
        Stage::Aggregating,
        Stage::Committing,
        Stage::Done,
    ];
    for (event, want) in events.iter().zip(expected.iter()) {
        stage = advance(stage, *event).unwrap();
        assert_eq!(stage, *want);
    }
}

#[test]
fn period_with_output_is_skipped() {
    assert_eq!(advance(Stage::Planned, Event::OutputExists), Some(Stage::Done));
    assert_eq!(advance(Stage::Discovering, Event::OutputExists), None);
    assert_eq!(advance(Stage::Fetching, Event::OutputExists), None);
}

#[test]
fn fatal_error_fails_every_running_stage() {
    for stage in &STAGES[..5] {
        assert_eq!(advance(*stage, Event::Fatal), Some(Stage::Failed));
    }
}

#[test]
fn finished_period_takes_no_event() {
    for event in EVENTS.iter() {
        assert_eq!(advance(Stage::Done, *event), None);
        assert_eq!(advance(Stage::Failed, *event), None);
    }
}

#[test]
fn events_out_of_turn_are_refused() {
    let mut allowed = 0;
    for stage in STAGES.iter() {
        for event in EVENTS.iter() {
            if advance(*stage, *event).is_some() {
                allowed += 1;
            }
        }
    }
    // Six steps forward and a fatal error from each of five stages.
    assert_eq!(allowed, 11);
    assert_eq!(advance(Stage::Planned, Event::Committed), None);
    assert_eq!(advance(Stage::Fetching, Event::Sorted), None);
    assert_eq!(advance(Stage::Fetching, Event::Committed), None);
    assert_eq!(advance(Stage::Committing, Event::Started), None);
}

#[test]
fn trades_file_counts_when_it_is_there() {
    assert!(valid_trades_file(true));
    assert!(!valid_trades_file(false));
}

#[test]
fn day_with_nothing_downloaded_fetches_both() {
    assert_eq!(plan_day(false, false), DayPlan { fetch_tickers: true, fetch_trades: true });
}

#[test]
fn day_with_a_tickers_file_fetches_only_trades() {
    assert_eq!(plan_day(true, false), DayPlan { fetch_tickers: false, fetch_trades: true });
}

#[test]
fn day_with_everything_downloaded_fetches_nothing() {
    assert_eq!(plan_day(true, true), DayPlan { fetch_tickers: false, fetch_trades: false });
}

#[test]
fn day_with_trades_but_no_tickers_file_fetches_tickers() {
    assert_eq!(plan_day(false, true), DayPlan { fetch_tickers: true, fetch_trades: false });
}

#[test]
fn dependent_dataset_waits_for_the_symbols() {
    assert!(!dependent_may_fetch(Stage::Planned));
    assert!(!dependent_may_fetch(Stage::Discovering));
    assert!(dependent_may_fetch(Stage::Fetching));
    assert!(dependent_may_fetch(Stage::Aggregating));
    assert!(dependent_may_fetch(Stage::Committing));
    assert!(dependent_may_fetch(Stage::Done));
    assert!(!dependent_may_fetch(Stage::Failed));
}
