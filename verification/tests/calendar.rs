use rust_iss::calendar::{
    day_text, instant_from_seconds, midnight_of, parse_day, seconds_between, shift_days,
    FIRST_INSTANT, LAST_INSTANT,
};

#[test]
fn representable_seconds_read_back_unchanged() {
    for secs in [0i64, -1, 1, 1_638_360_000, -2_208_988_800, 4_102_444_800] {
        assert_eq!(instant_from_seconds(secs), Some(secs));
    }
}

#[test]
fn seconds_beyond_the_calendar_are_turned_down() {
    assert_eq!(instant_from_seconds(i64::MAX), None);
    assert_eq!(instant_from_seconds(i64::MIN), None);
}

#[test]
fn the_calendar_ends_where_the_constants_say() {
    assert_eq!(FIRST_INSTANT, -8_334_601_228_800);
    assert_eq!(LAST_INSTANT, 8_210_266_876_799);
    assert_eq!(instant_from_seconds(FIRST_INSTANT), Some(FIRST_INSTANT));
    assert_eq!(instant_from_seconds(FIRST_INSTANT - 1), None);
    assert_eq!(instant_from_seconds(FIRST_INSTANT + 1), Some(FIRST_INSTANT + 1));
    assert_eq!(instant_from_seconds(LAST_INSTANT), Some(LAST_INSTANT));
    assert_eq!(instant_from_seconds(LAST_INSTANT + 1), None);
    assert_eq!(instant_from_seconds(LAST_INSTANT - 1), Some(LAST_INSTANT - 1));
    assert_eq!(instant_from_seconds(FIRST_INSTANT - 86_400), None);
    assert_eq!(instant_from_seconds(LAST_INSTANT + 86_400), None);
    assert_eq!(day_text(FIRST_INSTANT).unwrap(), "-262143-01-01");
    assert_eq!(day_text(LAST_INSTANT).unwrap(), "+262142-12-31");
}

#[test]
fn a_far_future_instant_is_still_on_the_calendar() {
    assert_eq!(instant_from_seconds(999_999_999_999), Some(999_999_999_999));
    assert_eq!(day_text(999_999_999_999).unwrap(), "+33658-09-27");
}

#[test]
fn days_are_written_as_year_month_day() {
    assert_eq!(day_text(0).unwrap(), "1970-01-01");
    assert_eq!(day_text(86_399).unwrap(), "1970-01-01");
    assert_eq!(day_text(86_400).unwrap(), "1970-01-02");
    assert_eq!(day_text(-1).unwrap(), "1969-12-31");
    assert_eq!(day_text(1_638_360_000).unwrap(), "2021-12-01");
    assert_eq!(day_text(1_709_164_800).unwrap(), "2024-02-29");
    assert!(day_text(i64::MAX).is_none());
}

#[test]
fn days_are_read_as_midnight_utc() {
    assert_eq!(parse_day("1970-01-01"), Some(0));
    assert_eq!(parse_day("2021-12-01"), Some(1_638_316_800));
    assert_eq!(parse_day("2024-02-29"), Some(1_709_164_800));
    assert_eq!(parse_day("2023-02-29"), None);
    assert_eq!(parse_day("2021-12-01T00:00:00"), None);
    assert_eq!(parse_day(""), None);
}

#[test]
fn reading_a_written_day_gives_its_midnight() {
    for secs in [0i64, 1_638_360_000, 1_700_000_000, -86_400 * 365] {
        let midnight = secs - secs.rem_euclid(86_400);
        assert_eq!(parse_day(&day_text(secs).unwrap()), Some(midnight));
    }
}

#[test]
fn midnight_counts_from_the_epoch_day() {
    assert_eq!(midnight_of(None), None);
    assert_eq!(midnight_of(Some(719_163)), Some(0));
    assert_eq!(midnight_of(Some(719_164)), Some(86_400));
    assert_eq!(midnight_of(Some(719_162)), Some(-86_400));
    assert_eq!(midnight_of(Some(i32::MAX)), Some((i32::MAX as i64 - 719_163) * 86_400));
    assert_eq!(midnight_of(Some(i32::MIN)), Some((i32::MIN as i64 - 719_163) * 86_400));
}

#[test]
fn shifting_by_days_stays_within_the_seconds() {
    assert_eq!(shift_days(0, 7), Some(604_800));
    assert_eq!(shift_days(1_000, -30), Some(1_000 - 2_592_000));
    assert_eq!(shift_days(5, 0), Some(5));
    assert_eq!(shift_days(i64::MAX, 1), None);
    assert_eq!(shift_days(i64::MIN, -1), None);
    assert_eq!(shift_days(0, i64::MAX), None);
    assert_eq!(shift_days(i64::MAX, -1), Some(i64::MAX - 86_400));
}

#[test]
fn seconds_between_never_overflows() {
    assert_eq!(seconds_between(10, 310), 300);
    assert_eq!(seconds_between(310, 10), -300);
    assert_eq!(seconds_between(i64::MIN, i64::MAX), i64::MAX as i128 - i64::MIN as i128);
}
