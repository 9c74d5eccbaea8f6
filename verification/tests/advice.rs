use core::time::Duration;
use handan::calendar::days_from_civil;
use handan::{parse_retry_after, RetryAdvice};
use std::time::{SystemTime, UNIX_EPOCH};

#[test]
fn delta_seconds_form() {
    assert_eq!(
        parse_retry_after("120"),
        Some(RetryAdvice::After(Duration::from_secs(120)))
    );
    // Whitespace is normal in a header value.
    assert_eq!(
        parse_retry_after("  30  "),
        Some(RetryAdvice::After(Duration::from_secs(30)))
    );
    // Zero is valid advice: come back immediately.
    assert_eq!(
        parse_retry_after("0"),
        Some(RetryAdvice::After(Duration::ZERO))
    );
}

/// The example from RFC 9110, against an independently computed epoch value.
#[test]
fn http_date_form_matches_the_rfc_example() {
    assert_eq!(
        parse_retry_after("Sun, 06 Nov 1994 08:49:37 GMT"),
        Some(RetryAdvice::At {
            unix_secs: 784_111_777
        })
    );
}

#[test]
fn http_date_form_tolerates_a_single_digit_day() {
    assert_eq!(
        parse_retry_after("Sun, 6 Nov 1994 08:49:37 GMT"),
        Some(RetryAdvice::At {
            unix_secs: 784_111_777
        })
    );
}

#[test]
fn rejected_shapes_yield_no_advice() {
    for bad in [
        "",
        "   ",
        "soon",
        "-5",                             // negative delta-seconds
        "1.5",                            // fractional
        "Sun, 06 Nov 1994 08:49:37 PST",  // non-GMT zone: do not guess
        "Sun, 06 Nov 1994 08:49:37",      // no zone
        "Sun, 06 Xxx 1994 08:49:37 GMT",  // bad month
        "Sun, 31 Feb 1994 08:49:37 GMT",  // day out of range for month
        "Sun, 00 Nov 1994 08:49:37 GMT",  // day zero
        "Sun, 06 Nov 1994 25:49:37 GMT",  // hour out of range
        "Sunday, 06-Nov-94 08:49:37 GMT", // obsolete rfc850: stated limit
        "Sun Nov  6 08:49:37 1994",       // obsolete asctime: stated limit
        "Sun, 06 Nov 1969 08:49:37 GMT",  // before the epoch
    ] {
        assert_eq!(parse_retry_after(bad), None, "{bad:?} must not parse");
    }
}

#[test]
fn leap_day_and_leap_century_are_correct() {
    // 2000 is a leap year (divisible by 400): Feb 29 exists.
    assert!(parse_retry_after("Tue, 29 Feb 2000 00:00:00 GMT").is_some());
    // 1900 was NOT a leap year (divisible by 100, not 400), but it also predates the
    // epoch, so assert the arithmetic directly instead.
    assert_eq!(days_from_civil(2000, 3, 1) - days_from_civil(2000, 2, 28), 2);
    assert_eq!(days_from_civil(1900, 3, 1) - days_from_civil(1900, 2, 28), 1);
    // 2100 will not be a leap year either.
    assert_eq!(days_from_civil(2100, 3, 1) - days_from_civil(2100, 2, 28), 1);
    assert_eq!(parse_retry_after("Mon, 29 Feb 2100 00:00:00 GMT"), None);
}

#[test]
fn the_epoch_itself_is_day_zero() {
    assert_eq!(days_from_civil(1970, 1, 1), 0);
    assert_eq!(
        parse_retry_after("Thu, 01 Jan 1970 00:00:00 GMT"),
        Some(RetryAdvice::At { unix_secs: 0 })
    );
}

#[test]
fn a_past_date_resolves_to_zero_rather_than_underflowing() {
    let advice = RetryAdvice::At {
        unix_secs: 784_111_777,
    };
    assert_eq!(advice.delay_from(900_000_000), Duration::ZERO);
    assert_eq!(advice.delay_from(784_111_677), Duration::from_secs(100));
}

#[test]
fn delta_seconds_ignores_the_clock() {
    let advice = RetryAdvice::After(Duration::from_secs(42));
    assert_eq!(advice.delay_from(0), Duration::from_secs(42));
    assert_eq!(advice.delay_from(u64::MAX), Duration::from_secs(42));
}

fn at(unix_secs: u64) -> Option<RetryAdvice> {
    Some(RetryAdvice::At { unix_secs })
}

#[test]
fn white_space_of_any_kind_and_amount_is_ignored() {
    for value in [
        "\t Sun, 06 Nov 1994 08:49:37 GMT\r\n",
        "Sun,  06\tNov   1994 08:49:37\u{a0}GMT",
        "\u{3000}Sun,\u{2003}06 Nov 1994 08:49:37 GMT\u{2028}",
    ] {
        assert_eq!(parse_retry_after(value), at(784_111_777), "{value:?}");
    }
    assert_eq!(
        parse_retry_after("\u{85}\u{1680}7\u{205f}"),
        Some(RetryAdvice::After(Duration::from_secs(7)))
    );
    // A zero-width space is not white space, and two numbers are no number.
    assert_eq!(parse_retry_after("\u{200b}7"), None);
    assert_eq!(parse_retry_after("1 2"), None);
}

#[test]
fn delta_seconds_reach_to_64_bits() {
    assert_eq!(
        parse_retry_after("18446744073709551615"),
        Some(RetryAdvice::After(Duration::from_secs(u64::MAX)))
    );
    assert_eq!(parse_retry_after("18446744073709551616"), None);
    assert_eq!(parse_retry_after("99999999999999999999999999"), None);
    assert_eq!(
        parse_retry_after("000000000000000000000000000060"),
        Some(RetryAdvice::After(Duration::from_secs(60)))
    );
    // A sign makes it no run of digits.
    assert_eq!(parse_retry_after("+5"), None);
    // Digits of other scripts are not decimal digits here.
    assert_eq!(parse_retry_after("\u{665}"), None);
}

#[test]
fn the_weekday_is_not_looked_at() {
    for weekday in ["Sun,", "Mon,", "Sunday", "x", "\u{5224}\u{65ad}"] {
        let value = format!("{weekday} 06 Nov 1994 08:49:37 GMT");
        assert_eq!(parse_retry_after(&value), at(784_111_777), "{value}");
    }
    assert_eq!(parse_retry_after("06 Nov 1994 08:49:37 GMT"), None);
}

#[test]
fn months_and_the_zone_are_known_in_any_case() {
    let starts = [
        ("JAN", 0),
        ("feb", 31),
        ("mAR", 59),
        ("Apr", 90),
        ("mAy", 120),
        ("jun", 151),
        ("JUl", 181),
        ("aug", 212),
        ("SEP", 243),
        ("oct", 273),
        ("nOv", 304),
        ("dec", 334),
    ];
    for (month, days) in starts {
        let value = format!("Day, 1 {month} 1970 00:00:00 gMt");
        assert_eq!(parse_retry_after(&value), at(days * 86_400), "{value}");
    }
    assert_eq!(parse_retry_after("Sun, 06 November 1994 08:49:37 GMT"), None);
    assert_eq!(parse_retry_after("Sun, 06 Nov 1994 08:49:37 GMT+1"), None);
    assert_eq!(parse_retry_after("Sun, 06 Nov 1994 08:49:37 GMT x"), None);
}

#[test]
fn the_time_of_day_has_bounds() {
    assert_eq!(parse_retry_after("D, 1 Jan 1970 23:59:59 GMT"), at(86_399));
    // A leap second is the first second of the next minute.
    assert_eq!(parse_retry_after("D, 1 Jan 1970 23:59:60 GMT"), at(86_400));
    assert_eq!(parse_retry_after("D, 1 Jan 1970 1:2:3 GMT"), at(3_723));
    for bad in [
        "24:00:00", "00:60:00", "00:00:61", "00:00", "00:00:00:00", "::", "0:0:", "-1:00:00", "a:00:00",
        "+:00:00", "00:00:18446744073709551617",
    ] {
        let value = format!("D, 1 Jan 1970 {bad} GMT");
        assert_eq!(parse_retry_after(&value), None, "{value}");
    }
}

#[test]
fn numbers_in_a_date_carry_no_sign() {
    assert_eq!(parse_retry_after("D, 2 Jan 1970 00:00:01 GMT"), at(86_401));
    for bad in [
        "Sun, +6 Nov 1994 08:49:37 GMT",
        "D, +2 Jan 1970 00:00:01 GMT",
        "D, -2 Jan 1970 00:00:01 GMT",
        "D, 2 Jan +1970 00:00:01 GMT",
        "D, 2 Jan -1970 00:00:01 GMT",
        "D, 2 Jan 1970 +0:00:01 GMT",
        "D, 2 Jan 1970 00:+0:01 GMT",
        "D, 2 Jan 1970 00:00:+1 GMT",
        "D, 2 Jan 1970 00:00:-0 GMT",
    ] {
        assert_eq!(parse_retry_after(bad), None, "{bad}");
    }
}

#[test]
fn values_that_differ_in_weekday_and_letter_case_are_read_alike() {
    for (a, b) in [
        ("Sun, 06 Nov 1994 08:49:37 GMT", "Mon, 06 nOV 1994 08:49:37 gmt"),
        ("Sun, 06 Xxx 1994 08:49:37 GMT", "Tue, 06 xXX 1994 08:49:37 Gmt"),
        ("Sun, 31 Feb 1994 08:49:37 PST", "Wed, 31 FEB 1994 08:49:37 pst"),
        ("Sun, 06 Nov 1994 08:49:37", "Thu, 06 NOV 1994 08:49:37"),
        ("Sun,", "Fri,"),
    ] {
        assert_eq!(parse_retry_after(a), parse_retry_after(b), "{a} {b}");
    }
}

#[test]
fn years_out_of_range_are_declined() {
    for year in [
        "-1",
        "-1970",
        "0",
        "1969",
        "-9223372036854775808",
        "-9223372036854775809",
        "9223372036854775807",
        "9223372036854775808",
        "600000000000",
        "600000000001",
        "584554051224",
        "",
    ] {
        let value = format!("D, 1 Jan {year} 00:00:00 GMT");
        assert_eq!(parse_retry_after(&value), None, "{value}");
    }
    // The last second that 64 bits hold, and the one after it.
    assert_eq!(parse_retry_after("D, 9 Nov 584554051223 07:00:15 GMT"), at(u64::MAX));
    assert_eq!(parse_retry_after("D, 9 Nov 584554051223 07:00:16 GMT"), None);
    assert_eq!(parse_retry_after("D, 31 Dec 9999 23:59:59 GMT"), at(253_402_300_799));
}

#[test]
fn a_duration_is_handed_on_as_it_is() {
    let advice = RetryAdvice::After(Duration::new(1, 500_000_000));
    assert_eq!(advice.delay_from(7), Duration::from_millis(1_500));
    assert_eq!(advice.delay_now(), Duration::from_millis(1_500));
}

#[test]
fn a_clock_reading_is_taken_in_whole_seconds() {
    let advice = RetryAdvice::At { unix_secs: 100 };
    let clock = UNIX_EPOCH + Duration::new(40, 999_999_999);
    assert_eq!(advice.delay_at(&clock), Duration::from_secs(60));
    let late = UNIX_EPOCH + Duration::from_secs(101);
    assert_eq!(advice.delay_at(&late), Duration::ZERO);
    assert_eq!(advice.delay_at(&UNIX_EPOCH), Duration::from_secs(100));
}

#[test]
fn a_clock_before_the_epoch_counts_as_the_epoch() {
    let advice = RetryAdvice::At { unix_secs: 100 };
    let early = UNIX_EPOCH - Duration::from_secs(50);
    assert_eq!(advice.delay_at(&early), Duration::from_secs(100));
}

#[test]
fn the_system_clock_is_read() {
    let now = SystemTime::now().duration_since(UNIX_EPOCH).unwrap().as_secs();
    assert_eq!(RetryAdvice::At { unix_secs: now - 1_000 }.delay_now(), Duration::ZERO);
    let delay = RetryAdvice::At { unix_secs: now + 1_000 }.delay_now();
    assert!(delay <= Duration::from_secs(1_000));
    assert!(delay >= Duration::from_secs(900));
}

#[test]
fn waiting_never_makes_the_wait_longer() {
    let advice = RetryAdvice::At { unix_secs: 1_000 };
    let mut before = advice.delay_from(0);
    for now in 1..=1_100 {
        let after = advice.delay_from(now);
        assert!(after <= before, "{now}");
        before = after;
    }
}
