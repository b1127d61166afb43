//! Calendar days and instants as plain numbers, and the texts that
//! `chrono` reads them from and writes them as.

use chrono::{DateTime, Datelike, NaiveDate};
use std::fmt::Write;
use vstd::prelude::*;

verus! {

/// The day number of 1 January 1970.
pub const UNIX_EPOCH_DAY: i32 = 719_163;

/// The seconds of one day.
pub const SECONDS_PER_DAY: i64 = 86_400;

/// The nanoseconds of one second.
pub const NANOS_PER_SECOND: i64 = 1_000_000_000;

/// A calendar day, held as its number in the proleptic Gregorian calendar:
/// 1 January of the year 1 is day 1.
#[derive(Clone, Copy, Debug, PartialEq, Eq, Structural)]
pub struct Date {
    pub day_number: i32,
}

impl View for Date {
    type V = int;

    open spec fn view(&self) -> int {
        self.day_number as int
    }
}

/// An instant, held as the seconds since 1 January 1970, 0:00 UTC, and the
/// nanoseconds since the last whole second.
#[derive(Clone, Copy, Debug, PartialEq, Eq, Structural)]
pub struct Timestamp {
    pub seconds: i64,
    pub nanos: u32,
}

/// The day that `chrono` reads from a text, as `NaiveDate::from_str` does,
/// by its day number; nothing where it reports an error.
pub uninterp spec fn chrono_parse_date(text: Seq<char>) -> Option<int>;

/// The text that `chrono` writes for the day with this number under an
/// strftime pattern; nothing where it has no such day or rejects the
/// pattern.
pub uninterp spec fn chrono_format_date(day_number: int, pattern: Seq<char>) -> Option<Seq<char>>;

/// The RFC 3339 text that `chrono` writes for an instant in UTC; nothing
/// where it has no such instant.
pub uninterp spec fn chrono_rfc3339(seconds: int, nanos: int) -> Option<Seq<char>>;

/// Calls `NaiveDate::from_str` and takes the day's number with
/// `Datelike::num_days_from_ce`.
#[verifier::external_body]
fn read_date(text: &str) -> (found: Option<Date>)
    ensures
        match found {
            Some(day) => chrono_parse_date(text@) == Some(day@),
            None => chrono_parse_date(text@) is None,
        },
{
    match text.parse::<NaiveDate>() {
        Ok(day) => Some(Date { day_number: day.num_days_from_ce() }),
        Err(_) => None,
    }
}

/// Calls `NaiveDate::from_num_days_from_ce_opt` and writes the day with
/// `NaiveDate::format`.
#[verifier::external_body]
fn write_date(day: Date, pattern: &str) -> (text: Option<String>)
    ensures
        match text {
            Some(t) => chrono_format_date(day@, pattern@) == Some(t@),
            None => chrono_format_date(day@, pattern@) is None,
        },
{
    let day = NaiveDate::from_num_days_from_ce_opt(day.day_number)?;
    let mut out = String::new();
    match write!(out, "{}", day.format(pattern)) {
        Ok(()) => Some(out),
        Err(_) => None,
    }
}

/// Calls `DateTime::from_timestamp` and writes the instant with
/// `DateTime::to_rfc3339`.
#[verifier::external_body]
fn write_rfc3339(at: Timestamp) -> (text: Option<String>)
    ensures
        match text {
            Some(t) => chrono_rfc3339(at.seconds as int, at.nanos as int) == Some(t@),
            None => chrono_rfc3339(at.seconds as int, at.nanos as int) is None,
        },
{
    match DateTime::from_timestamp(at.seconds, at.nanos) {
        Some(instant) => Some(instant.to_rfc3339()),
        None => None,
    }
}

/// The quotient of `a` by a positive `b`, rounded towards zero.
pub open spec fn quotient_towards_zero(a: int, b: int) -> int {
    if a >= 0 {
        a / b
    } else {
        -((-a) / b)
    }
}

/// The whole days that have passed from `earlier` to `later`, counted as
/// `chrono` counts the days of a time span: the parts of a day are left
/// out, towards zero.
pub open spec fn whole_days_between(earlier: Timestamp, later: Timestamp) -> int {
    let nanos = (later.seconds - earlier.seconds) * NANOS_PER_SECOND + (later.nanos
        - earlier.nanos);
    quotient_towards_zero(
        quotient_towards_zero(nanos, NANOS_PER_SECOND as int),
        SECONDS_PER_DAY as int,
    )
}

/// The number of the day that an instant falls on, in UTC.
pub open spec fn day_number_of(seconds: int) -> int {
    seconds / (SECONDS_PER_DAY as int) + UNIX_EPOCH_DAY
}

fn divide_towards_zero(a: i128, b: i128) -> (q: i128)
    requires
        b > 0,
        a > i128::MIN,
    ensures
        q == quotient_towards_zero(a as int, b as int),
{
    if a >= 0 {
        a / b
    } else {
        let positive: i128 = -a;
        let q: i128 = positive / b;
        assert(0 <= q <= positive) by (nonlinear_arith)
            requires
                q == positive / b,
                positive >= 0,
                b > 0,
        ;
        -q
    }
}

impl Date {
    /// The day with the given number.
    pub fn from_day_number(day_number: i32) -> (day: Date)
        ensures
            day@ == day_number,
    {
        Date { day_number }
    }

    /// Reads a day written as year, month and day with hyphens between,
    /// as `chrono` reads it.
    pub fn parse(text: &str) -> (found: Option<Date>)
        ensures
            match found {
                Some(day) => chrono_parse_date(text@) == Some(day@),
                None => chrono_parse_date(text@) is None,
            },
    {
        read_date(text)
    }

    /// The day written under an strftime pattern, as `chrono` writes it.
    pub fn format(&self, pattern: &str) -> (text: Option<String>)
        ensures
            match text {
                Some(t) => chrono_format_date(self@, pattern@) == Some(t@),
                None => chrono_format_date(self@, pattern@) is None,
            },
    {
        write_date(*self, pattern)
    }

    /// The day `days` days later, or earlier below zero; `None` where its
    /// number does not fit in 32 bits.
    pub fn plus_days(&self, days: i64) -> (moved: Option<Date>)
        ensures
            match moved {
                Some(day) => day@ == self@ + days,
                None => self@ + days < i32::MIN || self@ + days > i32::MAX,
            },
    {
        let target: i128 = self.day_number as i128 + days as i128;
        if target < i32::MIN as i128 || target > i32::MAX as i128 {
            None
        } else {
            Some(Date { day_number: target as i32 })
        }
    }

    /// The days from `earlier` to this day; below zero where this day
    /// comes first.
    pub fn days_since(&self, earlier: Date) -> (days: i64)
        ensures
            days == self@ - earlier@,
    {
        self.day_number as i64 - earlier.day_number as i64
    }
}

impl Timestamp {
    /// The day that the instant falls on, in UTC; `None` where its number
    /// does not fit in 32 bits.
    pub fn date(&self) -> (day: Option<Date>)
        ensures
            match day {
                Some(d) => d@ == day_number_of(self.seconds as int),
                None => day_number_of(self.seconds as int) < i32::MIN || day_number_of(
                    self.seconds as int,
                ) > i32::MAX,
            },
    {
        let whole: i64 = if self.seconds >= 0 {
            self.seconds / SECONDS_PER_DAY
        } else {
            -1 - ((-(self.seconds + 1)) / SECONDS_PER_DAY)
        };
        assert(whole == self.seconds as int / 86_400) by {
            if self.seconds < 0 {
                let m = -(self.seconds as int + 1);
                assert(self.seconds as int == 86_400 * (-1 - m / 86_400) + (86_399 - m % 86_400));
                vstd::arithmetic::div_mod::lemma_fundamental_div_mod_converse(
                    self.seconds as int,
                    86_400,
                    -1 - m / 86_400,
                    86_399 - m % 86_400,
                );
            }
        }
        let number: i64 = whole + UNIX_EPOCH_DAY as i64;
        if number < i32::MIN as i64 || number > i32::MAX as i64 {
            None
        } else {
            Some(Date { day_number: number as i32 })
        }
    }

    /// The whole days that have passed since `earlier`.
    pub fn whole_days_since(&self, earlier: Timestamp) -> (days: i64)
        ensures
            days == whole_days_between(earlier, *self),
    {
        let seconds: i128 = self.seconds as i128 - earlier.seconds as i128;
        assert(NANOS_PER_SECOND == 1_000_000_000);
        let nanos: i128 = seconds * 1_000_000_000 + (self.nanos as i128 - earlier.nanos as i128);
        let whole_seconds = divide_towards_zero(nanos, NANOS_PER_SECOND as i128);
        let days = divide_towards_zero(whole_seconds, SECONDS_PER_DAY as i128);
        days as i64
    }

    /// The instant as RFC 3339 writes it, as `chrono` does.
    pub fn rfc3339(&self) -> (text: Option<String>)
        ensures
            match text {
                Some(t) => chrono_rfc3339(self.seconds as int, self.nanos as int) == Some(t@),
                None => chrono_rfc3339(self.seconds as int, self.nanos as int) is None,
            },
    {
        write_rfc3339(*self)
    }
}

} // verus!
