use chrono::TimeZone;
use safe_touch::clock::{
    parse_timestamp, read_stamp, single_instant, valid_date_time, wants_year, CivilTime,
    Timestamp,
};
use safe_touch::error::TimeError;
use safe_touch::stamp::{century, check_shape, complete_stamp, is_all_digits, render_decimal};

fn local_seconds(year: i32, month: u32, day: u32, hour: u32, minute: u32, second: u32) -> i64 {
    chrono::Local
        .with_ymd_and_hms(year, month, day, hour, minute, second)
        .single()
        .unwrap()
        .timestamp()
}

#[test]
fn twelve_digits_are_taken_as_they_are() {
    assert_eq!(complete_stamp("202501011200", 2026), Ok("202501011200".to_string()));
    assert_eq!(complete_stamp("199912312359", -4), Ok("199912312359".to_string()));
}

#[test]
fn ten_digits_get_the_current_century() {
    assert_eq!(complete_stamp("2501011200", 2026), Ok("202501011200".to_string()));
    assert_eq!(complete_stamp("9912312359", 1999), Ok("199912312359".to_string()));
    assert_eq!(complete_stamp("2501011200", 12026), Ok("1202501011200".to_string()));
    assert_eq!(complete_stamp("2501011200", 950), Ok("92501011200".to_string()));
}

#[test]
fn eight_digits_get_the_current_year() {
    assert_eq!(complete_stamp("01011200", 2026), Ok("202601011200".to_string()));
    assert_eq!(complete_stamp("12312359", 1999), Ok("199912312359".to_string()));
    assert_eq!(complete_stamp("01011200", -44), Ok("-4401011200".to_string()));
}

#[test]
fn shape_rules_apply_in_order() {
    assert_eq!(complete_stamp("2025-01-01", 2026), Err(TimeError::InvalidTimestampFormat));
    assert_eq!(complete_stamp("20250101120a", 2026), Err(TimeError::InvalidTimestampFormat));
    assert_eq!(complete_stamp("202501011200.30", 2026), Err(TimeError::InvalidTimestampFormat));
    assert_eq!(complete_stamp("1234567890123456x", 2026), Err(TimeError::InvalidTimestampFormat));
    assert_eq!(complete_stamp("123456789012345", 2026), Err(TimeError::TimestampTooLong));
    assert_eq!(complete_stamp("12345678901234567890", 2026), Err(TimeError::TimestampTooLong));
    assert_eq!(complete_stamp("20250101120030", 2026), Err(TimeError::InvalidTimestampFormat));
    assert_eq!(complete_stamp("2025010112003", 2026), Err(TimeError::InvalidTimestampFormat));
    assert_eq!(complete_stamp("20250101120", 2026), Err(TimeError::InvalidTimestampFormat));
    assert_eq!(complete_stamp("202501011", 2026), Err(TimeError::InvalidTimestampFormat));
    assert_eq!(complete_stamp("1234567", 2026), Err(TimeError::InvalidTimestampFormat));
    assert_eq!(complete_stamp("", 2026), Err(TimeError::InvalidTimestampFormat));
}

#[test]
fn only_ascii_digits_count_as_digits() {
    assert!(is_all_digits("0123456789"));
    assert!(is_all_digits(""));
    assert!(!is_all_digits("12a4"));
    assert!(!is_all_digits("12 4"));
    assert!(!is_all_digits("-124"));
    assert!(!is_all_digits("/"));
    assert!(!is_all_digits(":"));
    assert!(!is_all_digits("\u{661}\u{662}"));
    assert!(!is_all_digits("12\u{e9}"));
    assert_eq!(complete_stamp("\u{661}\u{662}\u{663}\u{664}", 2026), Err(TimeError::InvalidTimestampFormat));
}

#[test]
fn integers_are_written_in_decimal() {
    assert_eq!(render_decimal(0), "0");
    assert_eq!(render_decimal(7), "7");
    assert_eq!(render_decimal(10), "10");
    assert_eq!(render_decimal(2026), "2026");
    assert_eq!(render_decimal(-5), "-5");
    assert_eq!(render_decimal(-120), "-120");
    assert_eq!(render_decimal(i32::MAX), "2147483647");
    assert_eq!(render_decimal(i32::MIN), "-2147483648");
    for n in [-1001, -1, 1, 99, 100, 101, 65535, 1000000] {
        assert_eq!(render_decimal(n), format!("{}", n));
    }
}

#[test]
fn century_rounds_toward_zero() {
    assert_eq!(century(2026), 20);
    assert_eq!(century(1999), 19);
    assert_eq!(century(2000), 20);
    assert_eq!(century(99), 0);
    assert_eq!(century(0), 0);
    assert_eq!(century(-99), 0);
    assert_eq!(century(-150), -1);
    assert_eq!(century(i32::MIN), -21474836);
    assert_eq!(century(i32::MAX), 21474836);
}

#[test]
fn stamp_is_read_as_date_and_time() {
    let noon = CivilTime { year: 2025, month: 1, day: 1, hour: 12, minute: 0, second: 0 };
    assert_eq!(read_stamp("202501011200", 2026), Ok(noon));
    assert_eq!(read_stamp("202501011200", 1987), Ok(noon));
    assert_eq!(read_stamp("2501011200", 2026), Ok(noon));
    assert_eq!(read_stamp("01011200", 2025), Ok(noon));
    assert_eq!(
        read_stamp("12312359", 1999),
        Ok(CivilTime { year: 1999, month: 12, day: 31, hour: 23, minute: 59, second: 0 })
    );
    assert_eq!(
        read_stamp("202402290000", 2026),
        Ok(CivilTime { year: 2024, month: 2, day: 29, hour: 0, minute: 0, second: 0 })
    );
}

#[test]
fn dates_that_do_not_exist_are_invalid() {
    assert_eq!(read_stamp("202502301200", 2026), Err(TimeError::InvalidTimestampFormat));
    assert_eq!(read_stamp("202502290000", 2026), Err(TimeError::InvalidTimestampFormat));
    assert_eq!(read_stamp("202513011200", 2026), Err(TimeError::InvalidTimestampFormat));
    assert_eq!(read_stamp("202500011200", 2026), Err(TimeError::InvalidTimestampFormat));
    assert_eq!(read_stamp("202501002400", 2026), Err(TimeError::InvalidTimestampFormat));
    assert_eq!(read_stamp("202501012400", 2026), Err(TimeError::InvalidTimestampFormat));
    assert_eq!(read_stamp("202501011260", 2026), Err(TimeError::InvalidTimestampFormat));
    assert_eq!(read_stamp("02301200", 2026), Err(TimeError::InvalidTimestampFormat));
    assert_eq!(read_stamp("123", 2026), Err(TimeError::InvalidTimestampFormat));
    assert_eq!(read_stamp("1234567890123456", 2026), Err(TimeError::TimestampTooLong));
}

#[test]
fn twelve_digit_stamp_gives_that_local_minute() {
    for year in [2026, 1987, 0, -5, i32::MAX] {
        assert_eq!(
            parse_timestamp("202501011200", year),
            Ok(Timestamp { seconds: local_seconds(2025, 1, 1, 12, 0, 0), nanos: 0 })
        );
    }
    assert_eq!(
        parse_timestamp("199907152030", 2026),
        Ok(Timestamp { seconds: local_seconds(1999, 7, 15, 20, 30, 0), nanos: 0 })
    );
}

#[test]
fn fourteen_digit_stamp_is_refused() {
    assert_eq!(parse_timestamp("20250101120030", 2026), Err(TimeError::InvalidTimestampFormat));
}

#[test]
fn short_stamps_are_completed_from_the_year_given() {
    assert_eq!(
        parse_timestamp("03041506", 2024),
        Ok(Timestamp { seconds: local_seconds(2024, 3, 4, 15, 6, 0), nanos: 0 })
    );
    assert_eq!(
        parse_timestamp("0103041506", 2024),
        Ok(Timestamp { seconds: local_seconds(2001, 3, 4, 15, 6, 0), nanos: 0 })
    );
    assert_eq!(
        parse_timestamp("9903041506", 1987),
        Ok(Timestamp { seconds: local_seconds(1999, 3, 4, 15, 6, 0), nanos: 0 })
    );
    assert_eq!(parse_timestamp("02291200", 2024).map(|at| at.seconds), Ok(local_seconds(2024, 2, 29, 12, 0, 0)));
    assert_eq!(parse_timestamp("02291200", 2025), Err(TimeError::InvalidTimestampFormat));
}

#[test]
fn stamps_that_name_no_time_are_refused() {
    assert_eq!(parse_timestamp("yesterday", 2026), Err(TimeError::InvalidTimestampFormat));
    assert_eq!(parse_timestamp("123456789012345", 2026), Err(TimeError::TimestampTooLong));
    assert_eq!(parse_timestamp("202502301200", 2026), Err(TimeError::InvalidTimestampFormat));
    assert_eq!(parse_timestamp("", 2026), Err(TimeError::InvalidTimestampFormat));
}

#[test]
fn only_short_stamps_want_the_year() {
    assert!(wants_year("01011200"));
    assert!(wants_year("2501011200"));
    assert!(wants_year("99999999"));
    assert!(!wants_year("202501011200"));
    assert!(!wants_year("20250101120030"));
    assert!(!wants_year("0101120"));
    assert!(!wants_year("0101120a"));
    assert!(!wants_year(""));
    assert!(!wants_year("1234567890123456"));
}

#[test]
fn shape_is_checked_without_a_year() {
    assert_eq!(check_shape("202501011200"), Ok(()));
    assert_eq!(check_shape("2501011200"), Ok(()));
    assert_eq!(check_shape("01011200"), Ok(()));
    assert_eq!(check_shape("99999999"), Ok(()));
    assert_eq!(check_shape("0101-200"), Err(TimeError::InvalidTimestampFormat));
    assert_eq!(check_shape("123456789"), Err(TimeError::InvalidTimestampFormat));
    assert_eq!(check_shape("12345678901234"), Err(TimeError::InvalidTimestampFormat));
    assert_eq!(check_shape("123456789012345"), Err(TimeError::TimestampTooLong));
    assert_eq!(check_shape("12345678901234x"), Err(TimeError::InvalidTimestampFormat));
}

#[test]
fn what_was_read_is_valid_or_refused() {
    let noon = CivilTime { year: 2025, month: 1, day: 1, hour: 12, minute: 0, second: 0 };
    assert_eq!(valid_date_time(Some(noon)), Ok(noon));
    assert_eq!(valid_date_time(None), Err(TimeError::InvalidTimestampFormat));
}

#[test]
fn offsets_after_the_epoch_are_taken_as_they_are() {
    assert_eq!(Timestamp::from_epoch_offset(false, 0, 0), Some(Timestamp { seconds: 0, nanos: 0 }));
    assert_eq!(
        Timestamp::from_epoch_offset(false, 1_735_732_800, 123_456_789),
        Some(Timestamp { seconds: 1_735_732_800, nanos: 123_456_789 })
    );
    assert_eq!(
        Timestamp::from_epoch_offset(false, i64::MAX as u64, 999_999_999),
        Some(Timestamp { seconds: i64::MAX, nanos: 999_999_999 })
    );
    assert_eq!(Timestamp::from_epoch_offset(false, i64::MAX as u64 + 1, 0), None);
    assert_eq!(Timestamp::from_epoch_offset(false, 5, 1_000_000_000), None);
    assert_eq!(Timestamp::from_epoch_offset(true, 5, u32::MAX), None);
}

#[test]
fn offsets_before_the_epoch_round_the_seconds_down() {
    assert_eq!(Timestamp::from_epoch_offset(true, 0, 0), Some(Timestamp { seconds: 0, nanos: 0 }));
    assert_eq!(Timestamp::from_epoch_offset(true, 10, 0), Some(Timestamp { seconds: -10, nanos: 0 }));
    assert_eq!(
        Timestamp::from_epoch_offset(true, 0, 1),
        Some(Timestamp { seconds: -1, nanos: 999_999_999 })
    );
    assert_eq!(
        Timestamp::from_epoch_offset(true, 1, 250_000_000),
        Some(Timestamp { seconds: -2, nanos: 750_000_000 })
    );
    assert_eq!(
        Timestamp::from_epoch_offset(true, 86_399, 999_999_999),
        Some(Timestamp { seconds: -86_400, nanos: 1 })
    );
    assert_eq!(
        Timestamp::from_epoch_offset(true, 1u64 << 63, 0),
        Some(Timestamp { seconds: i64::MIN, nanos: 0 })
    );
    assert_eq!(
        Timestamp::from_epoch_offset(true, i64::MAX as u64, 1),
        Some(Timestamp { seconds: i64::MIN, nanos: 999_999_999 })
    );
    assert_eq!(Timestamp::from_epoch_offset(true, 1u64 << 63, 1), None);
    assert_eq!(Timestamp::from_epoch_offset(true, (1u64 << 63) + 1, 0), None);
    assert_eq!(Timestamp::from_epoch_offset(true, u64::MAX, 0), None);
}

#[test]
fn no_single_instant_is_ambiguous_or_invalid() {
    let at = Timestamp { seconds: 1735732800, nanos: 0 };
    assert_eq!(single_instant(Some(at)), Ok(at));
    assert_eq!(single_instant(None), Err(TimeError::AmbiguousOrInvalidLocalTime));
}

#[test]
fn every_time_error_has_its_own_message() {
    let all = [
        TimeError::InvalidTimestampFormat,
        TimeError::TimestampTooLong,
        TimeError::AmbiguousOrInvalidLocalTime,
        TimeError::ReferenceFileUnreadable,
    ];
    for (i, a) in all.iter().enumerate() {
        for b in all.iter().skip(i + 1) {
            assert_ne!(a.message(), b.message());
        }
    }
    assert_eq!(TimeError::TimestampTooLong.message(), "Timestamp too long");
}
