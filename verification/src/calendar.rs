//! Calendar days as day numbers, and nanosecond timestamps.
//!
//! A [`Day`] is the number of days since 1970-01-01 in the proleptic
//! Gregorian calendar. Stepping, comparing and weekdays are plain integer
//! arithmetic on that number; turning a day number into year, month and day
//! (and back) is left to `chrono`.

use vstd::prelude::*;

verus! {

/// Nanoseconds in one day.
pub const NANOS_PER_DAY: i64 = 86_400_000_000_000;

/// The smallest day number whose midnight fits an `i64` nanosecond stamp.
pub const MIN_STAMPED_DAY: i32 = -106_751;

/// The largest day number whose midnight fits an `i64` nanosecond stamp.
pub const MAX_STAMPED_DAY: i32 = 106_751;

/// A calendar day, counted in days since 1970-01-01.
#[derive(Clone, Copy, Debug, PartialEq, Eq, Structural)]
pub struct Day {
    pub number: i32,
}

/// Year, month (1 to 12) and day of the month (1 to 31).
#[derive(Clone, Copy, Debug, PartialEq, Eq, Structural)]
pub struct Civil {
    pub year: i32,
    pub month: u32,
    pub day: u32,
}

/// What `chrono` gives as the day number of a calendar date: `Some` of the
/// number of days since 1970-01-01, or `None` where it accepts no such date.
pub uninterp spec fn civil_day_number(year: int, month: int, day: int) -> Option<int>;

/// What `chrono` gives as the calendar date of a day number: `Some` of year,
/// month and day, or `None` where the number is outside the range of dates
/// it represents.
pub uninterp spec fn day_number_civil(number: int) -> Option<(int, int, int)>;

/// Weekday of a day number, Monday being 0 and Sunday 6.
/// Day 0, 1970-01-01, was a Thursday.
pub open spec fn weekday_of(number: int) -> int {
    (number + 3) % 7
}

/// The market is taken to be open from Monday to Friday.
pub open spec fn market_open_on(number: int) -> bool {
    weekday_of(number) < 5
}

/// The day on which a nanosecond timestamp falls: the floor of the
/// timestamp divided by the length of a day.
pub open spec fn day_of_nanos(ts: int) -> int {
    ts / (NANOS_PER_DAY as int)
}

/// `NaiveDate::from_ymd_opt` followed by `NaiveDate::to_epoch_days`, both of
/// `chrono`. The result is the day number that `chrono` assigns to the
/// calendar date, named `civil_day_number`; nothing more is claimed of it.
#[verifier::external_body]
fn chrono_day_number(year: i32, month: u32, day: u32) -> (r: Option<i32>)
    ensures
        civil_day_number(year as int, month as int, day as int) == match r {
            Some(number) => Some(number as int),
            None => None,
        },
{
    match chrono::NaiveDate::from_ymd_opt(year, month, day) {
        Some(date) => Some(date.to_epoch_days()),
        None => None,
    }
}

/// `NaiveDate::from_epoch_days` of `chrono`, read back through `Datelike`'s
/// `year`, `month` and `day`. The result is the calendar date that `chrono`
/// assigns to the day number, named `day_number_civil`. `Datelike` documents
/// the month as 1 to 12 and the day as 1 to 31, which is stated too.
#[verifier::external_body]
fn chrono_civil(number: i32) -> (r: Option<Civil>)
    ensures
        day_number_civil(number as int) == match r {
            Some(civil) => Some((civil.year as int, civil.month as int, civil.day as int)),
            None => None,
        },
        match r {
            Some(civil) => 1 <= civil.month <= 12 && 1 <= civil.day <= 31,
            None => true,
        },
{
    match chrono::NaiveDate::from_epoch_days(number) {
        Some(date) => Some(
            Civil {
                year: chrono::Datelike::year(&date),
                month: chrono::Datelike::month(&date),
                day: chrono::Datelike::day(&date),
            },
        ),
        None => None,
    }
}

impl Day {
    /// The day with the given number of days since 1970-01-01.
    pub fn new(number: i32) -> (d: Day)
        ensures
            d.number == number,
    {
        Day { number }
    }

    /// The day of a calendar date, where the calendar has such a date.
    pub fn from_ymd(year: i32, month: u32, day: u32) -> (r: Option<Day>)
        ensures
            civil_day_number(year as int, month as int, day as int) == match r {
                Some(d) => Some(d.number as int),
                None => None,
            },
    {
        match chrono_day_number(year, month, day) {
            Some(number) => Some(Day { number }),
            None => None,
        }
    }

    /// Year, month and day of this day, where the calendar reaches it.
    pub fn civil(&self) -> (r: Option<Civil>)
        ensures
            day_number_civil(self.number as int) == match r {
                Some(civil) => Some((civil.year as int, civil.month as int, civil.day as int)),
                None => None,
            },
            match r {
                Some(civil) => 1 <= civil.month <= 12 && 1 <= civil.day <= 31,
                None => true,
            },
    {
        chrono_civil(self.number)
    }

    /// Weekday, Monday being 0 and Sunday 6.
    pub fn weekday(&self) -> (w: u8)
        ensures
            w as int == weekday_of(self.number as int),
            w < 7,
    {
        // 2^31 - 2 is a multiple of 7, so the shift keeps the remainder.
        let shifted: u64 = (self.number as i64 + 3 + 2_147_483_646) as u64;
        assert(2_147_483_646 == 7 * 306_783_378int);
        let w: u64 = shifted % 7;
        w as u8
    }

    /// The following day, unless the day number would overflow.
    pub fn succ(&self) -> (r: Option<Day>)
        ensures
            r == if self.number < i32::MAX {
                Some(Day { number: (self.number + 1) as i32 })
            } else {
                None
            },
    {
        if self.number < i32::MAX {
            Some(Day { number: self.number + 1 })
        } else {
            None
        }
    }

    /// The day that lies `days` days earlier, unless the day number would
    /// overflow.
    pub fn back(&self, days: u16) -> (r: Option<Day>)
        ensures
            r == if self.number - days >= i32::MIN {
                Some(Day { number: (self.number - days) as i32 })
            } else {
                None
            },
    {
        let n: i64 = self.number as i64 - days as i64;
        if n >= i32::MIN as i64 {
            Some(Day { number: n as i32 })
        } else {
            None
        }
    }

    /// Midnight at the start of this day, in nanoseconds since the epoch,
    /// for the days whose midnight fits an `i64`.
    pub fn midnight_nanos(&self) -> (r: Option<i64>)
        ensures
            r == if MIN_STAMPED_DAY <= self.number <= MAX_STAMPED_DAY {
                Some((self.number * NANOS_PER_DAY) as i64)
            } else {
                None
            },
    {
        if MIN_STAMPED_DAY <= self.number && self.number <= MAX_STAMPED_DAY {
            let n: i64 = self.number as i64;
            assert(-106_751 * 86_400_000_000_000 <= n * 86_400_000_000_000
                <= 106_751 * 86_400_000_000_000) by (nonlinear_arith)
                requires
                    -106_751 <= n <= 106_751,
            ;
            Some(n * NANOS_PER_DAY)
        } else {
            None
        }
    }
}

/// Whether the market is open on `day`: Monday to Friday.
pub fn is_market_open(day: &Day) -> (open: bool)
    ensures
        open == market_open_on(day.number as int),
{
    day.weekday() < 5
}

/// The day on which the timestamp `ts`, in nanoseconds since the epoch,
/// falls.
pub fn day_of_timestamp(ts: i64) -> (d: Day)
    ensures
        d.number as int == day_of_nanos(ts as int),
        -106_752 <= d.number <= 106_751,
{
    if ts >= 0 {
        let q: u64 = (ts as u64) / (NANOS_PER_DAY as u64);
        Day { number: q as i32 }
    } else {
        // ts = -(below + 1), so its floor quotient is -(below / n) - 1.
        let below: u64 = (-(ts + 1)) as u64;
        let q: u64 = below / (NANOS_PER_DAY as u64);
        Day { number: -(q as i32) - 1 }
    }
}

} // verus!
