use market_ingest::calendar::{Day, NANOS_PER_DAY};
use market_ingest::planner::{add_month, download_agg1m, month_before, month_of_day};
use market_ingest::planner::{month_window, months_between, plan_month, settlement_cutoff};
use market_ingest::planner::{MarketDays, Window, YearMonth};

fn ym(year: i32, month: u32) -> YearMonth {
    YearMonth { year, month }
}

fn day(year: i32, month: u32, day: u32) -> Day {
    Day::from_ymd(year, month, day).unwrap()
}

fn stamp_on(d: Day) -> i64 {
    d.number as i64 * NANOS_PER_DAY + 34_200_000_000_000
}

#[test]
fn month_after_a_month() {
    assert_eq!(add_month(ym(2020, 3)), ym(2020, 4));
    assert_eq!(add_month(ym(2020, 11)), ym(2020, 12));
    assert_eq!(add_month(ym(2020, 12)), ym(2021, 1));
    assert_eq!(add_month(ym(-1, 12)), ym(0, 1));
    assert_eq!(add_month(ym(i32::MAX, 11)), ym(i32::MAX, 12));
}

#[test]
fn months_are_ordered_by_year_then_month() {
    assert!(month_before(ym(2019, 12), ym(2020, 1)));
    assert!(month_before(ym(2020, 1), ym(2020, 2)));
    assert!(!month_before(ym(2020, 2), ym(2020, 2)));
    assert!(!month_before(ym(2020, 3), ym(2020, 2)));
    assert!(!month_before(ym(2021, 1), ym(2020, 12)));
}

#[test]
fn months_between_two_months() {
    assert_eq!(
        months_between(ym(2019, 11), ym(2020, 3)),
        vec![ym(2019, 11), ym(2019, 12), ym(2020, 1), ym(2020, 2)]
    );
    assert_eq!(months_between(ym(2020, 3), ym(2020, 4)), vec![ym(2020, 3)]);
}

#[test]
fn no_months_when_the_start_is_not_before_the_end() {
    assert_eq!(months_between(ym(2020, 3), ym(2020, 3)), vec![]);
    assert_eq!(months_between(ym(2020, 4), ym(2020, 3)), vec![]);
    assert_eq!(months_between(ym(2021, 1), ym(2020, 12)), vec![]);
}

#[test]
fn window_of_a_month_with_nothing_committed() {
    // March 2020 runs from day 18322 to day 18352.
    let w = month_window(Day::new(18322), Day::new(18353), None, Day::new(18400));
    assert_eq!(w, Window::Fetch { from: Day::new(18322), to: Day::new(18352) });
}

#[test]
fn window_ends_today_in_the_running_month() {
    let w = month_window(Day::new(18322), Day::new(18353), None, Day::new(18341));
    assert_eq!(w, Window::Fetch { from: Day::new(18322), to: Day::new(18341) });
}

#[test]
fn month_with_committed_rows_is_not_planned_again() {
    // Rows up to the tenth day of the month: the month is committed.
    let last = stamp_on(Day::new(18331));
    let w = month_window(Day::new(18322), Day::new(18353), Some(last), Day::new(18400));
    assert_eq!(w, Window::AlreadyDownloaded);
    // A row on the first day is enough.
    let last = stamp_on(Day::new(18322));
    let w = month_window(Day::new(18322), Day::new(18353), Some(last), Day::new(18400));
    assert_eq!(w, Window::AlreadyDownloaded);
}

#[test]
fn commit_in_an_earlier_month_does_not_move_the_window() {
    let last = stamp_on(Day::new(18300));
    let w = month_window(Day::new(18322), Day::new(18353), Some(last), Day::new(18400));
    assert_eq!(w, Window::Fetch { from: Day::new(18322), to: Day::new(18352) });
}

#[test]
fn committed_month_is_not_planned_again() {
    let last = stamp_on(Day::new(18352));
    let w = month_window(Day::new(18322), Day::new(18353), Some(last), Day::new(18400));
    assert_eq!(w, Window::AlreadyDownloaded);
    let later = stamp_on(Day::new(18360));
    let w = month_window(Day::new(18322), Day::new(18353), Some(later), Day::new(18400));
    assert_eq!(w, Window::AlreadyDownloaded);
}

#[test]
fn month_that_ends_on_a_weekend_is_not_planned_again() {
    // May 2020 runs from day 18383 to day 18413, a Sunday; the last bars
    // are of Friday the 29th, day 18411.
    let last = stamp_on(Day::new(18411));
    let w = month_window(Day::new(18383), Day::new(18414), Some(last), Day::new(18500));
    assert_eq!(w, Window::AlreadyDownloaded);
}

#[test]
fn month_before_the_last_commit_is_not_planned_again() {
    let last = stamp_on(Day::new(18500));
    let w = month_window(Day::new(18322), Day::new(18353), Some(last), Day::new(18600));
    assert_eq!(w, Window::AlreadyDownloaded);
}

#[test]
fn window_of_a_month_that_has_just_begun() {
    let w = month_window(Day::new(18322), Day::new(18353), None, Day::new(18323));
    assert_eq!(w, Window::Fetch { from: Day::new(18322), to: Day::new(18323) });
}

#[test]
fn commit_on_the_last_day_before_the_month_leaves_the_window() {
    let last = stamp_on(Day::new(18321));
    let w = month_window(Day::new(18322), Day::new(18353), Some(last), Day::new(18400));
    assert_eq!(w, Window::Fetch { from: Day::new(18322), to: Day::new(18352) });
}

#[test]
fn month_in_the_future_has_no_window() {
    let w = month_window(Day::new(18322), Day::new(18353), None, Day::new(18322));
    assert_eq!(w, Window::AlreadyDownloaded);
    let w = month_window(Day::new(18322), Day::new(18353), None, Day::new(18000));
    assert_eq!(w, Window::AlreadyDownloaded);
}

#[test]
fn window_at_the_ends_of_the_range() {
    let w = month_window(Day::new(i32::MIN), Day::new(i32::MIN), Some(i64::MIN), Day::new(0));
    assert_eq!(w, Window::AlreadyDownloaded);
    let w = month_window(Day::new(i32::MIN), Day::new(i32::MAX), Some(i64::MAX), Day::new(0));
    assert_eq!(w, Window::AlreadyDownloaded);
    let w = month_window(Day::new(i32::MIN), Day::new(i32::MAX), Some(i64::MIN), Day::new(0));
    assert_eq!(w, Window::AlreadyDownloaded);
    let w = month_window(Day::new(i32::MIN), Day::new(i32::MAX), None, Day::new(0));
    assert_eq!(w, Window::Fetch { from: Day::new(i32::MIN), to: Day::new(0) });
    let w = month_window(Day::new(i32::MAX), Day::new(i32::MIN), None, Day::new(i32::MAX));
    assert_eq!(w, Window::AlreadyDownloaded);
    let w = month_window(Day::new(0), Day::new(31), Some(i64::MIN), Day::new(i32::MAX));
    assert_eq!(w, Window::Fetch { from: Day::new(0), to: Day::new(30) });
}

#[test]
fn plan_of_a_month_by_its_name() {
    let w = plan_month(ym(2020, 3), None, day(2020, 6, 1));
    assert_eq!(w, Some(Window::Fetch { from: day(2020, 3, 1), to: day(2020, 3, 31) }));
    let w = plan_month(ym(2020, 2), None, day(2020, 6, 1));
    assert_eq!(w, Some(Window::Fetch { from: day(2020, 2, 1), to: day(2020, 2, 29) }));
    let w = plan_month(ym(2019, 12), Some(stamp_on(day(2019, 11, 29))), day(2019, 12, 20));
    assert_eq!(w, Some(Window::Fetch { from: day(2019, 12, 1), to: day(2019, 12, 20) }));
}

#[test]
fn plan_of_a_committed_month_is_empty() {
    let w = plan_month(ym(2019, 12), Some(stamp_on(day(2019, 12, 10))), day(2019, 12, 20));
    assert_eq!(w, Some(Window::AlreadyDownloaded));
    let w = plan_month(ym(2019, 12), Some(stamp_on(day(2019, 12, 31))), day(2020, 6, 1));
    assert_eq!(w, Some(Window::AlreadyDownloaded));
    let w = plan_month(ym(2020, 5), Some(stamp_on(day(2020, 5, 29))), day(2020, 8, 1));
    assert_eq!(w, Some(Window::AlreadyDownloaded));
    let w = plan_month(ym(2020, 5), Some(stamp_on(day(2020, 7, 1))), day(2020, 8, 1));
    assert_eq!(w, Some(Window::AlreadyDownloaded));
}

#[test]
fn month_that_cannot_be_planned() {
    assert_eq!(plan_month(ym(2020, 0), None, day(2020, 6, 1)), None);
    assert_eq!(plan_month(ym(2020, 13), None, day(2020, 6, 1)), None);
    assert_eq!(plan_month(ym(i32::MAX, 12), None, day(2020, 6, 1)), None);
    assert_eq!(plan_month(ym(400_000, 1), None, day(2020, 6, 1)), None);
}

#[test]
fn month_in_which_a_day_falls() {
    assert_eq!(month_of_day(Day::new(0)), Some(ym(1970, 1)));
    assert_eq!(month_of_day(Day::new(18322)), Some(ym(2020, 3)));
    assert_eq!(month_of_day(Day::new(18321)), Some(ym(2020, 2)));
    assert_eq!(month_of_day(Day::new(i32::MAX)), None);
}

#[test]
fn first_run_starts_at_the_earliest_month() {
    let months = download_agg1m(None, day(2004, 3, 15));
    assert_eq!(months, Some(vec![ym(2004, 1), ym(2004, 2)]));
}

#[test]
fn run_resumes_in_the_month_after_the_last_commit() {
    let last = stamp_on(day(2020, 2, 14));
    let months = download_agg1m(Some(last), day(2020, 5, 3));
    assert_eq!(months, Some(vec![ym(2020, 3), ym(2020, 4)]));
    let last = stamp_on(day(2019, 12, 31));
    let months = download_agg1m(Some(last), day(2020, 2, 1));
    assert_eq!(months, Some(vec![ym(2020, 1)]));
}

#[test]
fn run_does_not_start_before_the_earliest_month() {
    let last = stamp_on(day(1999, 6, 30));
    let months = download_agg1m(Some(last), day(2004, 3, 15));
    assert_eq!(months, Some(vec![ym(2004, 1), ym(2004, 2)]));
    let months = download_agg1m(Some(0), day(2004, 2, 1));
    assert_eq!(months, Some(vec![ym(2004, 1)]));
    let last = stamp_on(day(2003, 12, 31));
    let months = download_agg1m(Some(last), day(2004, 2, 1));
    assert_eq!(months, Some(vec![ym(2004, 1)]));
}

#[test]
fn nothing_to_download_in_the_running_month() {
    let last = stamp_on(day(2020, 5, 1));
    assert_eq!(download_agg1m(Some(last), day(2020, 5, 3)), Some(vec![]));
    let last = stamp_on(day(2020, 4, 30));
    assert_eq!(download_agg1m(Some(last), day(2020, 5, 3)), Some(vec![]));
    assert_eq!(download_agg1m(None, day(2004, 1, 31)), Some(vec![]));
    assert_eq!(download_agg1m(None, day(2003, 6, 1)), Some(vec![]));
}

#[test]
fn months_up_to_the_last_commit_are_not_planned_again() {
    let last = stamp_on(day(2020, 2, 14));
    let months = download_agg1m(Some(last), day(2021, 1, 10)).unwrap();
    assert_eq!(months.len(), 10);
    assert_eq!(months[0], ym(2020, 3));
    for m in months.iter() {
        assert!(month_before(ym(2020, 2), *m));
    }
}

#[test]
fn planned_months_have_a_window_and_committed_ones_have_none() {
    let last = stamp_on(day(2020, 5, 29));
    let today = day(2020, 8, 10);
    let months = download_agg1m(Some(last), today).unwrap();
    assert_eq!(months, vec![ym(2020, 6), ym(2020, 7)]);
    assert_eq!(
        plan_month(ym(2020, 6), Some(last), today),
        Some(Window::Fetch { from: day(2020, 6, 1), to: day(2020, 6, 30) })
    );
    assert_eq!(plan_month(ym(2020, 5), Some(last), today), Some(Window::AlreadyDownloaded));
    assert_eq!(plan_month(ym(2020, 4), Some(last), today), Some(Window::AlreadyDownloaded));
}

#[test]
fn no_plan_where_the_calendar_ends() {
    assert_eq!(download_agg1m(None, Day::new(i32::MAX)), None);
    assert_eq!(download_agg1m(None, Day::new(i32::MIN)), None);
}

#[test]
fn cutoff_is_three_days_back() {
    assert_eq!(settlement_cutoff(Day::new(18322)), Some(Day::new(18319)));
    assert_eq!(settlement_cutoff(Day::new(i32::MIN + 2)), None);
}

#[test]
fn market_days_of_a_week() {
    // 2020-03-01 was a Sunday.
    let span = MarketDays { from: Day::new(18322), to: Day::new(18329) };
    let days = span.days();
    assert_eq!(
        days,
        vec![Day::new(18323), Day::new(18324), Day::new(18325), Day::new(18326), Day::new(18327)]
    );
}

#[test]
fn market_days_one_by_one() {
    let mut span = MarketDays { from: Day::new(18326), to: Day::new(18331) };
    assert_eq!(span.next(), Some(Day::new(18326)));
    assert_eq!(span.from, Day::new(18327));
    assert_eq!(span.next(), Some(Day::new(18327)));
    assert_eq!(span.next(), Some(Day::new(18330)));
    assert_eq!(span.from, Day::new(18331));
    assert_eq!(span.next(), None);
    assert_eq!(span.next(), None);
    assert_eq!(span.to, Day::new(18331));
}

#[test]
fn weekend_has_no_market_day() {
    let mut span = MarketDays { from: Day::new(18328), to: Day::new(18330) };
    assert_eq!(span.next(), None);
    assert_eq!(span.from, Day::new(18330));
    assert_eq!(MarketDays { from: Day::new(18328), to: Day::new(18330) }.days(), vec![]);
}

#[test]
fn empty_span_has_no_market_day() {
    let mut span = MarketDays { from: Day::new(18325), to: Day::new(18325) };
    assert_eq!(span.next(), None);
    assert_eq!(span.from, Day::new(18325));
    let mut span = MarketDays { from: Day::new(18326), to: Day::new(18320) };
    assert_eq!(span.next(), None);
    assert_eq!(span.from, Day::new(18326));
    let mut span = MarketDays { from: Day::new(i32::MAX), to: Day::new(i32::MAX) };
    assert_eq!(span.next(), None);
}

#[test]
fn market_days_of_the_month_of_march() {
    let span = MarketDays { from: day(2020, 3, 1), to: day(2020, 4, 1) };
    assert_eq!(span.days().len(), 22);
}
