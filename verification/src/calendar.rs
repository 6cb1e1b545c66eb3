//! Calendar arithmetic on instants given as whole seconds since the Unix
//! epoch. What needs a calendar is asked of `chrono`; what is plain
//! arithmetic is done here.

use chrono::{DateTime, Datelike, NaiveDate, TimeZone, Utc};
use std::fmt::Write;
use vstd::prelude::*;

verus! {

/// Seconds in a day.
pub const SECONDS_PER_DAY: i64 = 86_400;

/// Day number, counted from January 1 of the year 1 as day 1, of the day
/// the Unix epoch begins.
pub const EPOCH_DAY_NUMBER: i64 = 719_163;

/// The pattern of a calendar day written as year, month and day.
pub open spec fn day_pattern() -> Seq<char> {
    "%Y-%m-%d"@
}

/// The first second of `chrono`'s calendar: midnight of January 1 of the
/// year -262143.
pub const FIRST_INSTANT: i64 = -8_334_601_228_800;

/// The last second of `chrono`'s calendar: the last second of December 31
/// of the year 262142.
pub const LAST_INSTANT: i64 = 8_210_266_876_799;

/// The calendar can represent this number of seconds since the epoch.
pub open spec fn is_instant(secs: i64) -> bool {
    FIRST_INSTANT <= secs <= LAST_INSTANT
}

/// The instant the calendar makes of a number of seconds since the epoch:
/// the same number when it can represent it, nothing otherwise.
pub open spec fn utc_instant(secs: i64) -> Option<i64> {
    if is_instant(secs) {
        Some(secs)
    } else {
        None
    }
}

/// The day number `chrono` reads from `text` under `pattern`, counted from
/// January 1 of the year 1 as day 1; nothing when the text does not fit.
pub uninterp spec fn parsed_day_number(text: Seq<char>, pattern: Seq<char>) -> Option<i32>;

/// The text `chrono` writes for the instant `secs` under `pattern`; nothing
/// when the instant cannot be represented or the pattern cannot be written.
pub uninterp spec fn formatted_utc(secs: i64, pattern: Seq<char>) -> Option<Seq<char>>;

/// Calls `chrono::TimeZone::timestamp_opt` on `Utc` with no nanoseconds and
/// reads the seconds back with `DateTime::timestamp`. Claimed: the seconds
/// are accepted exactly when their day lies between the first and the last
/// day `chrono` has a date for, and an instant that is accepted reads back
/// as the seconds it was made from.
#[verifier::external_body]
fn checked_timestamp(secs: i64) -> (r: Option<i64>)
    ensures
        r == utc_instant(secs),
{
    match Utc.timestamp_opt(secs, 0).single() {
        Some(instant) => Some(instant.timestamp()),
        None => None,
    }
}

/// Calls `chrono::NaiveDate::parse_from_str` and reads the day number with
/// `Datelike::num_days_from_ce`. Claimed: the result is fixed by the text
/// and the pattern alone.
#[verifier::external_body]
fn parse_day_number(text: &str, pattern: &str) -> (r: Option<i32>)
    ensures
        r == parsed_day_number(text@, pattern@),
{
    match NaiveDate::parse_from_str(text, pattern) {
        Ok(day) => Some(day.num_days_from_ce()),
        Err(_) => None,
    }
}

/// Calls `chrono::DateTime::from_timestamp` and writes the instant with
/// `DateTime::format`. Claimed: the result is fixed by the seconds and the
/// pattern alone.
#[verifier::external_body]
fn format_utc(secs: i64, pattern: &str) -> (r: Option<String>)
    ensures
        match formatted_utc(secs, pattern@) {
            Some(text) => r is Some && r->0@ == text,
            None => r is None,
        },
{
    match DateTime::from_timestamp(secs, 0) {
        Some(instant) => {
            let mut out = String::new();
            match write!(out, "{}", instant.format(pattern)) {
                Ok(()) => Some(out),
                Err(_) => None,
            }
        },
        None => None,
    }
}

/// The instant for `secs`, if the calendar can represent it.
pub fn instant_from_seconds(secs: i64) -> (r: Option<i64>)
    ensures
        r == utc_instant(secs),
{
    checked_timestamp(secs)
}

/// Midnight UTC of the day with the given day number, in seconds since the
/// epoch.
pub open spec fn spec_midnight(day_number: i32) -> i64 {
    ((day_number - EPOCH_DAY_NUMBER) * SECONDS_PER_DAY) as i64
}

/// Midnight UTC of a day number, if there is one.
pub fn midnight_of(day_number: Option<i32>) -> (r: Option<i64>)
    ensures
        r == match day_number {
            Some(d) => Some(spec_midnight(d)),
            None => None,
        },
{
    match day_number {
        Some(d) => Some((d as i64 - EPOCH_DAY_NUMBER) * SECONDS_PER_DAY),
        None => None,
    }
}

/// Midnight UTC of the day a text names as year, month and day; nothing
/// when the text names no day.
pub fn parse_day(text: &str) -> (r: Option<i64>)
    ensures
        r == match parsed_day_number(text@, day_pattern()) {
            Some(d) => Some(spec_midnight(d)),
            None => None,
        },
{
    midnight_of(parse_day_number(text, "%Y-%m-%d"))
}

/// The day of the instant `secs`, written as year, month and day.
pub fn day_text(secs: i64) -> (r: Option<String>)
    ensures
        match formatted_utc(secs, day_pattern()) {
            Some(text) => r is Some && r->0@ == text,
            None => r is None,
        },
{
    format_utc(secs, "%Y-%m-%d")
}

/// The instant `days` days away from `secs`; nothing when it lies outside
/// the representable seconds.
pub open spec fn spec_shift_days(secs: i64, days: i64) -> Option<i64> {
    let shifted = secs + days * SECONDS_PER_DAY;
    if i64::MIN <= shifted <= i64::MAX {
        Some(shifted as i64)
    } else {
        None
    }
}

pub fn shift_days(secs: i64, days: i64) -> (r: Option<i64>)
    ensures
        r == spec_shift_days(secs, days),
{
    let step: i128 = days as i128 * 86_400;
    let shifted: i128 = secs as i128 + step;
    if shifted < i64::MIN as i128 || shifted > i64::MAX as i128 {
        None
    } else {
        Some(shifted as i64)
    }
}

/// Whole seconds from `earlier` to `later`; negative when `later` is the
/// earlier one.
pub fn seconds_between(earlier: i64, later: i64) -> (d: i128)
    ensures
        d == later - earlier,
{
    later as i128 - earlier as i128
}

} // verus!
