use chrono::Datelike;
use market_ingest::calendar::{day_of_timestamp, is_market_open, Civil, Day, NANOS_PER_DAY};

#[test]
fn epoch_is_day_zero() {
    assert_eq!(Day::from_ymd(1970, 1, 1), Some(Day { number: 0 }));
    assert_eq!(Day::from_ymd(1969, 12, 31), Some(Day { number: -1 }));
}

#[test]
fn known_day_numbers() {
    assert_eq!(Day::from_ymd(2005, 9, 10), Some(Day { number: 13036 }));
    assert_eq!(Day::from_ymd(2020, 3, 1), Some(Day { number: 18322 }));
    assert_eq!(Day::from_ymd(2020, 4, 1), Some(Day { number: 18353 }));
}

#[test]
fn dates_that_do_not_exist_have_no_day() {
    assert_eq!(Day::from_ymd(2023, 4, 31), None);
    assert_eq!(Day::from_ymd(2015, 0, 14), None);
    assert_eq!(Day::from_ymd(2015, 13, 1), None);
    assert_eq!(Day::from_ymd(2015, 2, 29), None);
    assert_eq!(Day::from_ymd(2016, 2, 29), Some(Day { number: 16860 }));
    assert_eq!(Day::from_ymd(400000, 1, 1), None);
}

#[test]
fn civil_date_of_a_day_number() {
    assert_eq!(Day::new(0).civil(), Some(Civil { year: 1970, month: 1, day: 1 }));
    assert_eq!(Day::new(13036).civil(), Some(Civil { year: 2005, month: 9, day: 10 }));
    assert_eq!(Day::new(-1).civil(), Some(Civil { year: 1969, month: 12, day: 31 }));
    assert_eq!(Day::new(i32::MAX).civil(), None);
}

#[test]
fn day_number_and_civil_date_round_trip() {
    let mut number = 12_000;
    while number < 19_000 {
        let civil = Day::new(number).civil().unwrap();
        assert_eq!(Day::from_ymd(civil.year, civil.month, civil.day), Some(Day { number }));
        number += 37;
    }
}

#[test]
fn weekday_counts_from_monday() {
    // 1970-01-01 was a Thursday, 2020-03-01 a Sunday, 2020-03-02 a Monday.
    assert_eq!(Day::new(0).weekday(), 3);
    assert_eq!(Day::new(18322).weekday(), 6);
    assert_eq!(Day::new(18323).weekday(), 0);
    assert_eq!(Day::new(-1).weekday(), 2);
    assert_eq!(Day::new(-4).weekday(), 6);
}

#[test]
fn weekday_agrees_with_the_calendar() {
    let mut number = -40_000;
    while number < 40_000 {
        let date = chrono::NaiveDate::from_epoch_days(number).unwrap();
        let expected = date.weekday().num_days_from_monday() as u8;
        assert_eq!(Day::new(number).weekday(), expected);
        number += 1;
    }
}

#[test]
fn weekday_at_the_ends_of_the_range() {
    assert!(Day::new(i32::MAX).weekday() < 7);
    assert!(Day::new(i32::MIN).weekday() < 7);
    // i32::MAX = 2147483647, and 2147483650 leaves 4 when divided by 7.
    assert_eq!(Day::new(i32::MAX).weekday(), 4);
}

#[test]
fn market_is_closed_on_weekends() {
    // 2020-02-29 was a Saturday.
    assert!(!is_market_open(&Day::new(18321)));
    assert!(!is_market_open(&Day::new(18322)));
    assert!(is_market_open(&Day::new(18323)));
    assert!(is_market_open(&Day::new(18327)));
    assert!(!is_market_open(&Day::new(18328)));
}

#[test]
fn succ_and_back_step_by_days() {
    assert_eq!(Day::new(10).succ(), Some(Day { number: 11 }));
    assert_eq!(Day::new(i32::MAX).succ(), None);
    assert_eq!(Day::new(10).back(3), Some(Day { number: 7 }));
    assert_eq!(Day::new(10).back(0), Some(Day { number: 10 }));
    assert_eq!(Day::new(i32::MIN + 2).back(3), None);
    assert_eq!(Day::new(i32::MIN + 3).back(3), Some(Day { number: i32::MIN }));
}

#[test]
fn timestamp_falls_on_the_day_it_belongs_to() {
    assert_eq!(day_of_timestamp(0), Day { number: 0 });
    assert_eq!(day_of_timestamp(NANOS_PER_DAY - 1), Day { number: 0 });
    assert_eq!(day_of_timestamp(NANOS_PER_DAY), Day { number: 1 });
    assert_eq!(day_of_timestamp(-1), Day { number: -1 });
    assert_eq!(day_of_timestamp(-NANOS_PER_DAY), Day { number: -1 });
    assert_eq!(day_of_timestamp(-NANOS_PER_DAY - 1), Day { number: -2 });
    assert_eq!(day_of_timestamp(18331 * NANOS_PER_DAY + 1_000), Day { number: 18331 });
    assert_eq!(day_of_timestamp(i64::MAX), Day { number: 106_751 });
    assert_eq!(day_of_timestamp(i64::MIN), Day { number: -106_752 });
}

#[test]
fn midnight_of_a_day_in_nanoseconds() {
    assert_eq!(Day::new(0).midnight_nanos(), Some(0));
    assert_eq!(Day::new(1).midnight_nanos(), Some(86_400_000_000_000));
    assert_eq!(Day::new(18322).midnight_nanos(), Some(1_583_020_800_000_000_000));
    assert_eq!(Day::new(-1).midnight_nanos(), Some(-86_400_000_000_000));
    assert_eq!(Day::new(106_751).midnight_nanos(), Some(9_223_286_400_000_000_000));
    assert_eq!(Day::new(106_752).midnight_nanos(), None);
    assert_eq!(Day::new(-106_752).midnight_nanos(), None);
}

#[test]
fn midnight_falls_on_its_own_day() {
    let day = Day::new(18322);
    assert_eq!(day_of_timestamp(day.midnight_nanos().unwrap()), day);
}
