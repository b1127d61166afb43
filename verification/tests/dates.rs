use chrono::{DateTime, Datelike, NaiveDate, TimeDelta};
use rust_changelogs::changelog_generator::write_long_date;
use rust_changelogs::config::{Config, EPOCH_DAY};
use rust_changelogs::date::{Date, Timestamp, UNIX_EPOCH_DAY};
use rust_changelogs::version_manager::VersionManager;

fn day(text: &str) -> Date {
    Date::parse(text).unwrap()
}

#[test]
fn day_numbers_are_those_of_the_calendar() {
    assert_eq!(day("0001-01-01").day_number, 1);
    assert_eq!(day("1970-01-01").day_number, UNIX_EPOCH_DAY);
    assert_eq!(day("1970-01-01").day_number, 719_163);
    assert_eq!(day("2015-12-10").day_number, EPOCH_DAY);
    assert_eq!(
        day("2022-05-19").day_number,
        NaiveDate::from_ymd_opt(2022, 5, 19).unwrap().num_days_from_ce()
    );
    assert_eq!(Date::from_day_number(730_000), day("1999-09-03"));
}

#[test]
fn epoch_is_the_tenth_of_december_2015() {
    let config = Config::new();
    assert_eq!(config.epoch_date, day("2015-12-10"));
    assert_eq!(VersionManager::new(config).epoch_date(), day("2015-12-10"));
    assert_eq!(Config::default().epoch_date, day("2015-12-10"));
}

#[test]
fn dates_are_read_as_chrono_reads_them() {
    assert!(Date::parse("2022-05-19").is_some());
    assert!(Date::parse("2022-02-30").is_none());
    assert!(Date::parse("2022-13-01").is_none());
    assert!(Date::parse("19 May 2022").is_none());
    assert!(Date::parse("").is_none());
    assert_eq!(Date::parse("2022-5-9"), Date::parse("2022-05-09"));
}

#[test]
fn long_dates_name_the_month() {
    assert_eq!(write_long_date(day("2022-05-19")).unwrap(), "19 May, 2022");
    assert_eq!(write_long_date(day("2015-12-10")).unwrap(), "10 December, 2015");
    assert_eq!(write_long_date(day("2024-02-01")).unwrap(), "1 February, 2024");
    assert_eq!(day("2024-02-29").format("%Y/%m/%d").unwrap(), "2024/02/29");
}

#[test]
fn days_without_a_date_have_no_text() {
    assert!(write_long_date(Date::from_day_number(i32::MAX)).is_none());
    assert!(write_long_date(Date::from_day_number(i32::MIN)).is_none());
    assert!(write_long_date(Date::from_day_number(NaiveDate::MAX.num_days_from_ce())).is_some());
    assert!(write_long_date(Date::from_day_number(NaiveDate::MAX.num_days_from_ce() + 1)).is_none());
    assert!(write_long_date(Date::from_day_number(NaiveDate::MIN.num_days_from_ce())).is_some());
    assert!(write_long_date(Date::from_day_number(NaiveDate::MIN.num_days_from_ce() - 1)).is_none());
}

#[test]
fn bad_pattern_gives_no_text() {
    assert!(day("2022-05-19").format("%Q").is_none());
}

#[test]
fn days_are_added_and_counted() {
    let start = day("2022-05-19");
    assert_eq!(start.plus_days(42), Some(day("2022-06-30")));
    assert_eq!(start.plus_days(-19), Some(day("2022-04-30")));
    assert_eq!(start.plus_days(0), Some(start));
    assert_eq!(day("2022-06-30").days_since(start), 42);
    assert_eq!(start.days_since(day("2022-06-30")), -42);
    assert_eq!(Date::from_day_number(i32::MAX).plus_days(1), None);
    assert_eq!(Date::from_day_number(i32::MIN).plus_days(-1), None);
    assert_eq!(Date::from_day_number(i32::MAX).plus_days(i64::MIN), None);
    assert_eq!(
        Date::from_day_number(i32::MIN).plus_days(i32::MAX as i64 - i32::MIN as i64),
        Some(Date::from_day_number(i32::MAX))
    );
    assert_eq!(
        Date::from_day_number(i32::MAX).days_since(Date::from_day_number(i32::MIN)),
        i32::MAX as i64 - i32::MIN as i64
    );
}

#[test]
fn instants_fall_on_days() {
    let at = |seconds: i64| Timestamp { seconds, nanos: 0 }.date();
    assert_eq!(at(0), Some(day("1970-01-01")));
    assert_eq!(at(86_399), Some(day("1970-01-01")));
    assert_eq!(at(86_400), Some(day("1970-01-02")));
    assert_eq!(at(-1), Some(day("1969-12-31")));
    assert_eq!(at(-86_400), Some(day("1969-12-31")));
    assert_eq!(at(-86_401), Some(day("1969-12-30")));
    assert_eq!(at(1_652_918_400), Some(day("2022-05-19")));
    assert_eq!(at(i64::MAX), None);
    assert_eq!(at(i64::MIN), None);
    for seconds in [-1_000_000_007i64, -86_400, -1, 0, 1, 1_700_000_000, 4_102_444_800] {
        let theirs = DateTime::from_timestamp(seconds, 0).unwrap().date_naive();
        assert_eq!(at(seconds).unwrap().day_number, theirs.num_days_from_ce());
    }
}

#[test]
fn whole_days_are_counted_towards_zero() {
    let at = |seconds: i64, nanos: u32| Timestamp { seconds, nanos };
    assert_eq!(at(86_400, 0).whole_days_since(at(0, 0)), 1);
    assert_eq!(at(86_399, 999_999_999).whole_days_since(at(0, 0)), 0);
    assert_eq!(at(86_400, 0).whole_days_since(at(0, 1)), 0);
    assert_eq!(at(0, 0).whole_days_since(at(86_400, 0)), -1);
    assert_eq!(at(0, 1).whole_days_since(at(86_400, 0)), 0);
    assert_eq!(at(0, 0).whole_days_since(at(86_399, 0)), 0);
    assert_eq!(at(10 * 86_400 + 5, 0).whole_days_since(at(7, 500)), 9);
    assert_eq!(at(i64::MAX, 999_999_999).whole_days_since(at(i64::MIN, 0)), 213_503_982_334_601);
    let cases = [
        (1_700_000_000i64, 0u32, 1_600_000_000i64, 0u32),
        (1_600_000_000, 5, 1_700_000_000, 0),
        (1_600_000_000, 0, 1_700_000_000, 999_999_999),
        (86_400, 0, 0, 1),
        (0, 1, 86_400, 0),
    ];
    for (a, an, b, bn) in cases {
        let theirs: TimeDelta =
            DateTime::from_timestamp(a, an).unwrap() - DateTime::from_timestamp(b, bn).unwrap();
        assert_eq!(at(a, an).whole_days_since(at(b, bn)), theirs.num_days());
    }
}

#[test]
fn instants_are_written_by_rfc_3339() {
    let at = |seconds: i64, nanos: u32| Timestamp { seconds, nanos }.rfc3339();
    assert_eq!(at(0, 0).unwrap(), "1970-01-01T00:00:00+00:00");
    assert_eq!(at(1_652_918_400, 123_000_000).unwrap(), "2022-05-19T00:00:00.123+00:00");
    assert_eq!(at(1_652_918_461, 123_456_789).unwrap(), "2022-05-19T00:01:01.123456789+00:00");
    assert!(at(i64::MAX, 0).is_none());
    assert!(at(0, 2_000_000_000).is_none());
}
