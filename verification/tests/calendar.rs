use handan::calendar::{days_from_civil, days_in_month, is_leap, unix_seconds};
use handan::{parse_retry_after, RetryAdvice};

#[test]
fn leap_years_follow_the_gregorian_rule() {
    for (year, leap) in [
        (2000, true),
        (1900, false),
        (2100, false),
        (2024, true),
        (2023, false),
        (0, true),
        (-4, true),
        (-100, false),
        (-400, true),
        (-1, false),
    ] {
        assert_eq!(is_leap(year), leap, "{year}");
    }
    assert!(is_leap(i64::MIN) == (i64::MIN % 4 == 0 && i64::MIN % 100 != 0 || i64::MIN % 400 == 0));
}

#[test]
fn months_have_their_lengths() {
    let lengths: Vec<u32> = (0..=13).map(|m| days_in_month(2023, m)).collect();
    assert_eq!(lengths, [0, 31, 28, 31, 30, 31, 30, 31, 31, 30, 31, 30, 31, 0]);
    assert_eq!(days_in_month(2024, 2), 29);
    assert_eq!(days_in_month(2024, u32::MAX), 0);
}

/// Day by day over a full cycle and more, on both sides of the epoch.
#[test]
fn each_day_is_one_more_than_the_day_before() {
    let mut expected = days_from_civil(1500, 1, 1);
    for year in 1500..=2500 {
        for month in 1..=12 {
            for day in 1..=days_in_month(year, month) {
                assert_eq!(days_from_civil(year, month, day), expected, "{year}-{month}-{day}");
                expected += 1;
            }
        }
    }
}

#[test]
fn the_calendar_repeats_every_400_years() {
    for year in [-801, -400, 0, 1600, 1970, 2023, 25_000_000_000] {
        for month in 1..=12 {
            assert_eq!(
                days_from_civil(year + 400, month, 17) - days_from_civil(year, month, 17),
                146_097
            );
        }
    }
}

#[test]
fn known_day_numbers() {
    assert_eq!(days_from_civil(1969, 12, 31), -1);
    assert_eq!(days_from_civil(1994, 11, 6), 9_075);
    assert_eq!(days_from_civil(2000, 1, 1), 10_957);
    assert_eq!(days_from_civil(0, 3, 1), -719_468);
    assert_eq!(days_from_civil(-1, 12, 31), -719_529);
    // A day past the end of the month counts on.
    assert_eq!(days_from_civil(2023, 1, 32), days_from_civil(2023, 2, 1));
}

#[test]
fn far_years_are_counted_without_overflow() {
    assert_eq!(
        days_from_civil(25_000_000_000_000_000, 3, 1),
        62_500_000_000_000 * 146_097 - 719_468
    );
    assert_eq!(
        days_from_civil(-25_000_000_000_000_000, 3, 1),
        -62_500_000_000_000 * 146_097 - 719_468
    );
}

#[test]
fn seconds_are_counted_from_the_epoch() {
    assert_eq!(unix_seconds(1970, 1, 1, 0, 0, 0), Some(0));
    assert_eq!(unix_seconds(1970, 1, 2, 1, 2, 3), Some(90_123));
    assert_eq!(unix_seconds(1994, 11, 6, 8, 49, 37), Some(784_111_777));
    assert_eq!(unix_seconds(1969, 12, 31, 23, 59, 60), None);
    assert_eq!(unix_seconds(600_000_000_000, 1, 1, 0, 0, 0), None);
    assert_eq!(unix_seconds(i64::MAX, 1, 1, 0, 0, 0), None);
    assert_eq!(unix_seconds(i64::MIN, 1, 1, 0, 0, 0), None);
}

/// Dates written out as RFC 9110 has them, read back.
#[test]
fn written_dates_read_back() {
    let names = [
        "Jan", "Feb", "Mar", "Apr", "May", "Jun", "Jul", "Aug", "Sep", "Oct", "Nov", "Dec",
    ];
    for year in [1970, 1972, 1999, 2000, 2023, 2100, 9999] {
        for month in 1..=12u32 {
            for day in [1, 15, days_in_month(year, month)] {
                let name = names[month as usize - 1];
                let value = format!("Day, {day:02} {name} {year:04} 12:34:56 GMT");
                let days = days_from_civil(year, month, day) as u64;
                let unix_secs = days * 86_400 + 45_296;
                assert_eq!(parse_retry_after(&value), Some(RetryAdvice::At { unix_secs }), "{value}");
            }
            let past_end = days_in_month(year, month) + 1;
            let name = names[month as usize - 1];
            let value = format!("Day, {past_end} {name} {year:04} 12:34:56 GMT");
            assert_eq!(parse_retry_after(&value), None, "{value}");
        }
    }
}
