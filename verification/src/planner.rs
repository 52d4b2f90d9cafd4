//! Which periods still need downloading.
//!
//! Nothing is stored about earlier runs: the planner starts from the latest
//! timestamp found in what is already committed. A month is the unit: a
//! month that holds a committed row, or that lies before one that does, is
//! never planned again, and the run resumes with the month after it.

use crate::calendar::{civil_day_number, day_number_civil, day_of_nanos, is_market_open};
use crate::calendar::{day_of_timestamp, market_open_on, Day};
use vstd::prelude::*;

verus! {

/// The first month for which minute bars are downloaded.
pub const EARLIEST_BAR_YEAR: i32 = 2004;

/// Days that the provider takes to settle its data: the most recent days
/// are left for a later run.
pub const SETTLEMENT_LAG_DAYS: u16 = 3;

/// A calendar month.
#[derive(Clone, Copy, Debug, PartialEq, Eq, Structural)]
pub struct YearMonth {
    pub year: i32,
    pub month: u32,
}

impl YearMonth {
    /// The month's number is 1 to 12.
    pub open spec fn wf(&self) -> bool {
        1 <= self.month <= 12
    }

    /// Months counted from January of year 0, by which months are ordered.
    pub open spec fn index(&self) -> int {
        self.year * 12 + (self.month - 1)
    }
}

/// The days of one month that a run asks the provider for.
#[derive(Clone, Copy, Debug, PartialEq, Eq, Structural)]
pub enum Window {
    /// Ask for the days `from` to `to`.
    Fetch { from: Day, to: Day },
    /// What could be asked for is already there.
    AlreadyDownloaded,
}

/// Whether a row is committed on or after the day `month_start`: the month
/// that starts on that day, or a later one, is committed.
pub open spec fn committed_from(month_start: int, last: Option<i64>) -> bool {
    match last {
        Some(ts) => day_of_nanos(ts as int) >= month_start,
        None => false,
    }
}

/// Last day of a month's window: the month's last day, but not after today.
pub open spec fn window_to(next_month_start: int, today: int) -> int {
    if next_month_start - 1 <= today {
        next_month_start - 1
    } else {
        today
    }
}

/// The window of a month that starts on day `month_start` and is followed by
/// a month that starts on day `next_month_start`: none when the month is
/// committed or its first day is not before the window's last day, else from
/// the month's first day on.
pub open spec fn window_of(month_start: int, next_month_start: int, last: Option<i64>, today: int)
    -> Window {
    if committed_from(month_start, last) || month_start >= window_to(next_month_start, today) {
        Window::AlreadyDownloaded
    } else {
        Window::Fetch {
            from: Day { number: month_start as i32 },
            to: Day { number: window_to(next_month_start, today) as i32 },
        }
    }
}

/// The month after `m`.
pub open spec fn month_after(m: YearMonth) -> YearMonth {
    if m.month == 12 {
        YearMonth { year: (m.year + 1) as i32, month: 1 }
    } else {
        YearMonth { year: m.year, month: (m.month + 1) as u32 }
    }
}

/// The month after `m`. The year after the last one that an `i32` holds has
/// no number, so the last month of that year has no successor here.
pub fn add_month(m: YearMonth) -> (next: YearMonth)
    requires
        m.wf(),
        !(m.year == i32::MAX && m.month == 12),
    ensures
        next == month_after(m),
        next.wf(),
        next.index() == m.index() + 1,
{
    if m.month == 12 {
        YearMonth { year: m.year + 1, month: 1 }
    } else {
        YearMonth { year: m.year, month: m.month + 1 }
    }
}

/// Whether month `a` lies before month `b`.
pub fn month_before(a: YearMonth, b: YearMonth) -> (r: bool)
    requires
        a.wf(),
        b.wf(),
    ensures
        r == (a.index() < b.index()),
{
    a.year < b.year || (a.year == b.year && a.month < b.month)
}

/// The months from `from` up to, but without, `to`, in rising sequence.
pub fn months_between(from: YearMonth, to: YearMonth) -> (months: Vec<YearMonth>)
    requires
        from.wf(),
        to.wf(),
    ensures
        months@.len() == if from.index() < to.index() {
            to.index() - from.index()
        } else {
            0
        },
        forall|i: int|
            0 <= i < months@.len() ==> (#[trigger] months@[i]).wf() && months@[i].index()
                == from.index() + i,
{
    let mut months: Vec<YearMonth> = Vec::new();
    let mut at: YearMonth = from;
    while month_before(at, to)
        invariant
            at.wf(),
            to.wf(),
            at.index() == from.index() + months@.len(),
            at.index() <= to.index() || months@.len() == 0,
            forall|i: int|
                0 <= i < months@.len() ==> (#[trigger] months@[i]).wf() && months@[i].index()
                    == from.index() + i,
        decreases to.index() - at.index(),
    {
        months.push(at);
        at = add_month(at);
    }
    months
}

/// The window of one month, from the day numbers of its first day and of
/// the first day of the month after it, the latest committed timestamp and
/// today's day.
pub fn month_window(month_start: Day, next_month_start: Day, last: Option<i64>, today: Day) -> (w:
    Window)
    ensures
        w == window_of(
            month_start.number as int,
            next_month_start.number as int,
            last,
            today.number as int,
        ),
{
    let committed: bool = match last {
        Some(ts) => day_of_timestamp(ts).number >= month_start.number,
        None => false,
    };
    let month_end: i64 = next_month_start.number as i64 - 1;
    let to: i64 = if month_end <= today.number as i64 {
        month_end
    } else {
        today.number as i64
    };
    if committed || month_start.number as i64 >= to {
        Window::AlreadyDownloaded
    } else {
        Window::Fetch { from: month_start, to: Day { number: to as i32 } }
    }
}

/// The month in which a day falls, as the calendar gives it.
pub open spec fn month_of(number: int) -> Option<YearMonth> {
    match day_number_civil(number) {
        Some((year, month, day)) => Some(YearMonth { year: year as i32, month: month as u32 }),
        None => None,
    }
}

/// The earliest month for which minute bars are downloaded.
pub open spec fn earliest_month() -> YearMonth {
    YearMonth { year: EARLIEST_BAR_YEAR, month: 1 }
}

/// The later of two months.
pub open spec fn later_month(a: YearMonth, b: YearMonth) -> YearMonth {
    if a.index() >= b.index() {
        a
    } else {
        b
    }
}

/// The month at which the download of minute bars resumes: the month after
/// that of the latest committed timestamp, but not before the earliest
/// month; the earliest month when nothing is committed. `None` where the
/// calendar does not reach the day of the timestamp, or no month follows.
pub open spec fn resume_month(last: Option<i64>) -> Option<YearMonth> {
    match last {
        Some(ts) => match month_of(day_of_nanos(ts as int)) {
            Some(m) => if m.year == i32::MAX && m.month == 12 {
                None
            } else {
                Some(later_month(month_after(m), earliest_month()))
            },
            None => None,
        },
        None => Some(earliest_month()),
    }
}

/// Day number of the first day of a month, as the calendar gives it.
pub open spec fn first_day_of(m: YearMonth) -> Option<int> {
    civil_day_number(m.year as int, m.month as int, 1)
}

/// Whether `m` can be planned: it is a month, one follows it, and the
/// calendar has the first day of both.
pub open spec fn plannable(m: YearMonth) -> bool {
    &&& m.wf()
    &&& !(m.year == i32::MAX && m.month == 12)
    &&& first_day_of(m).is_some()
    &&& first_day_of(month_after(m)).is_some()
}

/// The month in which `day` falls, where the calendar reaches that day.
pub fn month_of_day(day: Day) -> (r: Option<YearMonth>)
    ensures
        r == month_of(day.number as int),
        r.is_some() ==> r.unwrap().wf(),
{
    match day.civil() {
        Some(c) => Some(YearMonth { year: c.year, month: c.month }),
        None => None,
    }
}

/// The window of the month `m`, or `None` where `m` cannot be planned.
pub fn plan_month(m: YearMonth, last: Option<i64>, today: Day) -> (r: Option<Window>)
    ensures
        r.is_some() == plannable(m),
        plannable(m) ==> r == Some(
            window_of(
                first_day_of(m).unwrap(),
                first_day_of(month_after(m)).unwrap(),
                last,
                today.number as int,
            ),
        ),
{
    if m.month < 1 || m.month > 12 || (m.year == i32::MAX && m.month == 12) {
        return None;
    }
    let next: YearMonth = add_month(m);
    match Day::from_ymd(m.year, m.month, 1) {
        Some(month_start) => match Day::from_ymd(next.year, next.month, 1) {
            Some(next_month_start) => Some(month_window(month_start, next_month_start, last, today)),
            None => None,
        },
        None => None,
    }
}

/// The months for which minute bars are to be downloaded, in rising
/// sequence: from the resume month up to, but without, the month of
/// `today`. The month of the latest committed timestamp and the months
/// before it are not among them. `None` where there is no resume month or
/// the calendar does not reach `today`.
pub fn download_agg1m(last: Option<i64>, today: Day) -> (r: Option<Vec<YearMonth>>)
    ensures
        r.is_some() == (resume_month(last).is_some() && month_of(today.number as int).is_some()),
        r.is_some() ==> {
            let from = resume_month(last).unwrap();
            let to = month_of(today.number as int).unwrap();
            let months = r.unwrap()@;
            &&& months.len() == if from.index() < to.index() {
                to.index() - from.index()
            } else {
                0
            }
            &&& forall|i: int|
                0 <= i < months.len() ==> (#[trigger] months[i]).wf() && months[i].index()
                    == from.index() + i
        },
        r.is_some() ==> match last {
            Some(ts) => {
                let committed = month_of(day_of_nanos(ts as int)).unwrap();
                &&& committed.wf()
                &&& forall|i: int|
                    0 <= i < r.unwrap()@.len() ==> committed.index() < (
                    #[trigger] r.unwrap()@[i]).index()
            },
            None => true,
        },
{
    let earliest: YearMonth = YearMonth { year: EARLIEST_BAR_YEAR, month: 1 };
    let from: Option<YearMonth> = match last {
        Some(ts) => match month_of_day(day_of_timestamp(ts)) {
            Some(m) => if m.year == i32::MAX && m.month == 12 {
                None
            } else {
                let next: YearMonth = add_month(m);
                if month_before(next, earliest) {
                    Some(earliest)
                } else {
                    Some(next)
                }
            },
            None => None,
        },
        None => Some(earliest),
    };
    match from {
        Some(from) => match month_of_day(today) {
            Some(to) => Some(months_between(from, to)),
            None => None,
        },
        None => None,
    }
}

/// The last day that a run asks for: `today` less the settlement lag.
pub fn settlement_cutoff(today: Day) -> (r: Option<Day>)
    ensures
        r == if today.number - SETTLEMENT_LAG_DAYS >= i32::MIN {
            Some(Day { number: (today.number - SETTLEMENT_LAG_DAYS) as i32 })
        } else {
            None
        },
{
    today.back(SETTLEMENT_LAG_DAYS)
}

/// A month that holds a committed row, or that lies before a month that
/// does, is not planned again: it has no window, whatever day it is today.
pub proof fn law_committed_month_not_replanned(
    month_start: int,
    next_month_start: int,
    ts: i64,
    today: int,
)
    requires
        day_of_nanos(ts as int) >= month_start,
    ensures
        window_of(month_start, next_month_start, Some(ts), today) == Window::AlreadyDownloaded,
{
}

/// A window begins on the first day of its month and ends within the month
/// and not after today; every committed row lies before it.
pub proof fn law_window_lies_after_commits(
    month_start: int,
    next_month_start: int,
    last: Option<i64>,
    today: int,
)
    ensures
        window_of(month_start, next_month_start, last, today) is Fetch ==> {
            &&& month_start < window_to(next_month_start, today)
            &&& window_to(next_month_start, today) < next_month_start
            &&& window_to(next_month_start, today) <= today
            &&& match last {
                Some(ts) => day_of_nanos(ts as int) < month_start,
                None => true,
            }
        },
{
}

/// The run resumes after the month of the latest committed timestamp, and
/// not before the earliest month: neither that month nor any month before
/// it is the resume month, so none of them is among the months that
/// `download_agg1m` returns.
pub proof fn law_resume_after_last_commit(ts: i64, m: YearMonth)
    requires
        month_of(day_of_nanos(ts as int)) == Some(m),
        m.wf(),
        resume_month(Some(ts)).is_some(),
    ensures
        resume_month(Some(ts)).unwrap().index() > m.index(),
        resume_month(Some(ts)).unwrap().index() >= earliest_month().index(),
        resume_month(Some(ts)).unwrap().index() == m.index() + 1 || resume_month(
            Some(ts),
        ).unwrap() == earliest_month(),
{
}

/// The market days of a span of days, from `from` up to, but without, `to`.
#[derive(Clone, Copy, Debug, PartialEq, Eq, Structural)]
pub struct MarketDays {
    pub from: Day,
    pub to: Day,
}

/// No day from `from` up to, but without, `to` is a market day.
pub open spec fn none_open(from: int, to: int) -> bool {
    forall|n: int| from <= n < to ==> !#[trigger] market_open_on(n)
}

impl MarketDays {
    /// The next market day of the span, which is then taken off its start;
    /// `None` when no market day is left, and the span is then empty.
    pub fn next(&mut self) -> (r: Option<Day>)
        ensures
            final(self).to == old(self).to,
            match r {
                Some(day) => {
                    &&& old(self).from.number <= day.number < old(self).to.number
                    &&& market_open_on(day.number as int)
                    &&& none_open(old(self).from.number as int, day.number as int)
                    &&& final(self).from.number == day.number + 1
                },
                None => {
                    &&& none_open(old(self).from.number as int, old(self).to.number as int)
                    &&& final(self).from.number == if old(self).from.number < old(
                        self,
                    ).to.number {
                        old(self).to.number
                    } else {
                        old(self).from.number
                    }
                },
            },
    {
        while self.from.number < self.to.number && !is_market_open(&self.from)
            invariant
                self.to == old(self).to,
                old(self).from.number <= self.from.number,
                self.from.number <= self.to.number || self.from == old(self).from,
                none_open(old(self).from.number as int, self.from.number as int),
            decreases self.to.number - self.from.number,
        {
            self.from = Day { number: self.from.number + 1 };
        }
        if self.from.number < self.to.number {
            let day: Day = self.from;
            self.from = Day { number: day.number + 1 };
            Some(day)
        } else {
            None
        }
    }

    /// All market days of the span, in rising sequence.
    pub fn days(&self) -> (days: Vec<Day>)
        ensures
            forall|i: int|
                0 <= i < days@.len() ==> self.from.number <= (#[trigger] days@[i]).number
                    < self.to.number && market_open_on(days@[i].number as int),
            forall|i: int, j: int|
                0 <= i < j < days@.len() ==> (#[trigger] days@[i]).number < (
                #[trigger] days@[j]).number,
            forall|n: int|
                self.from.number <= n < self.to.number && market_open_on(n) ==> exists|i: int|
                    0 <= i < days@.len() && (#[trigger] days@[i]).number == n,
    {
        let mut days: Vec<Day> = Vec::new();
        let mut rest: MarketDays = *self;
        loop
            invariant
                rest.to == self.to,
                self.from.number <= rest.from.number,
                rest.from.number <= self.to.number || rest.from == self.from,
                forall|i: int|
                    0 <= i < days@.len() ==> self.from.number <= (#[trigger] days@[i]).number
                        < rest.from.number && days@[i].number < self.to.number && market_open_on(
                        days@[i].number as int,
                    ),
                forall|i: int, j: int|
                    0 <= i < j < days@.len() ==> (#[trigger] days@[i]).number < (
                    #[trigger] days@[j]).number,
                forall|n: int|
                    self.from.number <= n < rest.from.number && n < self.to.number
                        && market_open_on(n) ==> exists|i: int|
                        0 <= i < days@.len() && (#[trigger] days@[i]).number == n,
            decreases self.to.number - rest.from.number,
        {
            let ghost before = rest;
            let ghost found = days@;
            match rest.next() {
                Some(day) => {
                    days.push(day);
                    proof {
                        assert forall|n: int|
                            self.from.number <= n < rest.from.number && n < self.to.number
                                && market_open_on(n) implies exists|i: int|
                            0 <= i < days@.len() && (#[trigger] days@[i]).number == n by {
                            if n < before.from.number {
                                let i = choose|i: int|
                                    0 <= i < found.len() && (#[trigger] found[i]).number == n;
                                assert(days@[i].number == n);
                            } else {
                                assert(n == day.number);
                                assert(days@[found.len() as int].number == n);
                            }
                        }
                    }
                },
                None => {
                    return days;
                },
            }
        }
    }
}

} // verus!
