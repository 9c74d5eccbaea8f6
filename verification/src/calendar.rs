//! The proleptic Gregorian calendar, counted in days from 1970-01-01.
//!
//! The specification counts: a date is as many days after the epoch as the
//! years and months before it are long. [`days_from_civil`] computes the same
//! number in closed form.

use vstd::prelude::*;

verus! {

/// The first year that lies wholly at or after the Unix epoch.
pub const EPOCH_YEAR: i64 = 1970;

/// Whether `year` has a 29 February.
pub open spec fn leap_year(year: int) -> bool {
    (year % 4 == 0 && year % 100 != 0) || year % 400 == 0
}

/// How many days `year` has.
pub open spec fn year_length(year: int) -> int {
    if leap_year(year) {
        366
    } else {
        365
    }
}

/// How many days `month` of `year` has; none if there is no such month.
pub open spec fn month_length(year: int, month: int) -> int {
    if month == 2 {
        if leap_year(year) {
            29
        } else {
            28
        }
    } else if month == 4 || month == 6 || month == 9 || month == 11 {
        30
    } else if 1 <= month <= 12 {
        31
    } else {
        0
    }
}

/// A bound on the years that can be written as seconds since the Unix epoch in
/// 64 bits: no later year can.
pub const YEAR_BOUND: i64 = 600_000_000_000;

/// Whether the calendar has this date.
pub open spec fn valid_date(year: int, month: int, day: int) -> bool {
    1 <= month <= 12 && 1 <= day <= month_length(year, month)
}

/// Days from 1970-01-01 to the first of January of `year`, negative for the
/// years before 1970.
pub open spec fn days_before_year(year: int) -> int
    decreases (if year >= EPOCH_YEAR { year - EPOCH_YEAR } else { EPOCH_YEAR - year }),
{
    if year == EPOCH_YEAR {
        0
    } else if year > EPOCH_YEAR {
        days_before_year(year - 1) + year_length(year - 1)
    } else {
        days_before_year(year + 1) - year_length(year)
    }
}

/// Days from the first of January of `year` to the first of `month`.
pub open spec fn days_before_month(year: int, month: int) -> int
    decreases month,
{
    if month <= 1 {
        0
    } else {
        days_before_month(year, month - 1) + month_length(year, month - 1)
    }
}

/// Days from 1970-01-01 to the given date.
pub open spec fn days_since_epoch(year: int, month: int, day: int) -> int {
    days_before_year(year) + days_before_month(year, month) + (day - 1)
}

/// Whether 64 bits hold the number of days from 1970-01-01 to the given date: they
/// do for every year within 25,000,000,000,000,000 of year 0, and for some beyond.
pub open spec fn countable(year: int, month: int, day: int) -> bool {
    ||| -25_000_000_000_000_000 <= year <= 25_000_000_000_000_000
    ||| i64::MIN <= days_since_epoch(year, month, day) <= i64::MAX
}

/// Seconds from the Unix epoch to a time of day on a date, all in GMT.
pub open spec fn seconds_since_epoch(
    year: int,
    month: int,
    day: int,
    hour: int,
    min: int,
    sec: int,
) -> int {
    days_since_epoch(year, month, day) * 86_400 + hour * 3_600 + min * 60 + sec
}

/// The leap years from year 1 through `year`, counted on below year 1 with
/// the opposite sign.
pub open spec fn leap_years_through(year: int) -> int {
    year / 4 - year / 100 + year / 400
}

/// Counting year by year gives 365 days a year and one more for each leap
/// year passed.
pub proof fn lemma_days_before_year(year: int)
    ensures
        days_before_year(year) == 365 * (year - 1970) + leap_years_through(year - 1)
            - leap_years_through(1969),
    decreases (if year >= EPOCH_YEAR { year - EPOCH_YEAR } else { EPOCH_YEAR - year }),
{
    if year > EPOCH_YEAR {
        lemma_days_before_year(year - 1);
        lemma_leap_years_step(year - 1);
    } else if year < EPOCH_YEAR {
        lemma_days_before_year(year + 1);
        lemma_leap_years_step(year);
    }
}

/// One more year passed is one more leap year passed exactly if it was one.
proof fn lemma_leap_years_step(year: int)
    ensures
        leap_years_through(year) - leap_years_through(year - 1) == (if leap_year(year) {
            1int
        } else {
            0int
        }),
{
    assert(year / 4 - (year - 1) / 4 == (if year % 4 == 0 { 1int } else { 0int }));
    assert(year / 100 - (year - 1) / 100 == (if year % 100 == 0 { 1int } else { 0int }));
    assert(year / 400 - (year - 1) / 400 == (if year % 400 == 0 { 1int } else { 0int }));
}

/// The months passed before each month, added up.
pub proof fn lemma_days_before_month(year: int)
    ensures
        days_before_month(year, 1) == 0,
        days_before_month(year, 2) == 31,
        days_before_month(year, 3) == 31 + month_length(year, 2),
        days_before_month(year, 4) == 62 + month_length(year, 2),
        days_before_month(year, 5) == 92 + month_length(year, 2),
        days_before_month(year, 6) == 123 + month_length(year, 2),
        days_before_month(year, 7) == 153 + month_length(year, 2),
        days_before_month(year, 8) == 184 + month_length(year, 2),
        days_before_month(year, 9) == 215 + month_length(year, 2),
        days_before_month(year, 10) == 245 + month_length(year, 2),
        days_before_month(year, 11) == 276 + month_length(year, 2),
        days_before_month(year, 12) == 306 + month_length(year, 2),
        days_before_month(year, 13) == year_length(year),
{
    reveal_with_fuel(days_before_month, 13);
}

/// Every 400 years have the same length, so the days of the years before
/// `year` can be counted by eras.
proof fn lemma_era_length(year: int)
    ensures
        (year / 400) * 146_097 + (year % 400) * 365 + (year % 400) / 4 - (year % 400) / 100
            == 365 * year + leap_years_through(year),
{
    let era = year / 400;
    let yoe = year % 400;
    assert(year == 400 * era + yoe);
    assert(year / 4 == 100 * era + yoe / 4);
    assert(year / 100 == 4 * era + yoe / 100);
}

/// A year and the one 400 years later are equally long, and 146,097 days apart.
pub proof fn lemma_era_step(year: int)
    ensures
        leap_year(year + 400) == leap_year(year),
        days_before_year(year + 400) == days_before_year(year) + 146_097,
{
    assert((year + 400) % 4 == year % 4);
    assert((year + 400) % 100 == year % 100);
    assert((year + 400) % 400 == year % 400);
    lemma_days_before_year(year);
    lemma_days_before_year(year + 400);
    let last = year - 1;
    assert((last + 400) / 4 == last / 4 + 100);
    assert((last + 400) / 100 == last / 100 + 4);
    assert((last + 400) / 400 == last / 400 + 1);
    assert(leap_years_through(year + 400 - 1) == leap_years_through(last) + 97);
}

/// Years that are equally long have equally long months.
pub proof fn lemma_same_months(year: int, other: int, month: int)
    requires
        leap_year(year) == leap_year(other),
    ensures
        month_length(year, month) == month_length(other, month),
        days_before_month(year, month) == days_before_month(other, month),
    decreases month,
{
    if month > 1 {
        lemma_same_months(year, other, month - 1);
    }
}

/// With years that begin in March, the months before the `n`th are
/// `(153 * n + 2) / 5` days long, whatever the year.
proof fn lemma_march_years(year: int, month: int)
    requires
        1 <= month <= 12,
    ensures
        ({
            let march_year = if month <= 2 {
                year - 1
            } else {
                year
            };
            days_before_year(year) + days_before_month(year, month) == 365 * march_year
                + leap_years_through(march_year) + (153 * ((month + 9) % 12) + 2) / 5 - 719_468
        }),
{
    lemma_days_before_year(year);
    lemma_days_before_month(year);
    lemma_leap_years_step(year);
    assert(leap_years_through(1969) == 477);
    let before = days_before_month(year, month);
    let shift = (153 * ((month + 9) % 12) + 2) / 5;
    if month == 1 {
        assert(before == 0 && shift == 306);
    } else if month == 2 {
        assert(before == 31 && shift == 337);
    } else {
        assert(before == shift + 31 + month_length(year, 2));
    }
}

/// A year ends as many days later as it is long.
pub proof fn lemma_days_before_year_step(year: int)
    ensures
        days_before_year(year + 1) == days_before_year(year) + year_length(year),
{
    lemma_days_before_year(year);
    lemma_days_before_year(year + 1);
    lemma_leap_years_step(year);
}

/// Later years begin later.
pub proof fn lemma_days_before_year_monotone(year: int, later: int)
    requires
        year <= later,
    ensures
        days_before_year(year) <= days_before_year(later),
    decreases later - year,
{
    if year < later {
        lemma_days_before_year_monotone(year, later - 1);
        lemma_days_before_year_step(later - 1);
    }
}

/// A date lies within its year.
pub proof fn lemma_date_within_year(year: int, month: int, day: int)
    requires
        valid_date(year, month, day),
    ensures
        days_before_year(year) <= days_since_epoch(year, month, day) < days_before_year(year + 1),
{
    lemma_days_before_month(year);
    lemma_days_before_year_step(year);
    assert(days_before_month(year, month + 1) == days_before_month(year, month) + month_length(
        year,
        month,
    ));
}

/// The years since the epoch, and the years before it, are 365 or 366 days
/// long.
pub proof fn lemma_days_before_year_bounds(year: int)
    ensures
        year >= 1970 ==> 365 * (year - 1970) <= days_before_year(year) <= 366 * (year - 1970),
        year <= 1970 ==> 366 * (year - 1970) <= days_before_year(year) <= 365 * (year - 1970),
    decreases (if year >= EPOCH_YEAR { year - EPOCH_YEAR } else { EPOCH_YEAR - year }),
{
    if year > EPOCH_YEAR {
        lemma_days_before_year_bounds(year - 1);
    } else if year < EPOCH_YEAR {
        lemma_days_before_year_bounds(year + 1);
    }
}

/// Whether `year` has a 29 February.
#[must_use]
#[verifier::spinoff_prover]
pub fn is_leap(year: i64) -> (leap: bool)
    ensures
        leap == leap_year(year as int),
{
    let by_4: bool = year % 4 == 0;
    assert(by_4 == (year as int % 4 == 0));
    let by_100: bool = year % 100 == 0;
    assert(by_100 == (year as int % 100 == 0));
    let by_400: bool = year % 400 == 0;
    assert(by_400 == (year as int % 400 == 0));
    (by_4 && !by_100) || by_400
}

/// How many days `month` of `year` has; zero if there is no such month.
#[must_use]
pub fn days_in_month(year: i64, month: u32) -> (days: u32)
    ensures
        days == month_length(year as int, month as int),
{
    match month {
        1 | 3 | 5 | 7 | 8 | 10 | 12 => 31,
        4 | 6 | 9 | 11 => 30,
        2 => if is_leap(year) {
            29
        } else {
            28
        },
        _ => 0,
    }
}

/// Days since 1970-01-01 for a proleptic Gregorian date.
///
/// Howard Hinnant's `days_from_civil`: years are taken to begin in March, so
/// that the leap day comes last, and are grouped into eras of 400 years, which
/// are all equally long. The day may lie past the end of the month; it then
/// counts on into the following ones.
#[must_use]
#[verifier::spinoff_prover]
pub fn days_from_civil(year: i64, month: u32, day: u32) -> (days: i64)
    requires
        1 <= month <= 12,
        countable(year as int, month as int, day as int),
    ensures
        days == days_since_epoch(year as int, month as int, day as int),
{
    let month: i128 = month as i128;
    let day: i128 = day as i128;
    let calendar_year: i128 = year as i128;
    let year: i128 = if month <= 2 {
        calendar_year - 1
    } else {
        calendar_year
    };
    let era: i128 = (if year >= 0 {
        year
    } else {
        year - 399
    }) / 400;
    assert(era == year as int / 400);
    let yoe: i128 = year - era * 400;
    assert(yoe == year as int % 400);
    let mp: i128 = (month + 9) % 12;
    let doy: i128 = (153 * mp + 2) / 5 + day - 1;
    assert(doy == (153 * ((month + 9) as int % 12) + 2) / 5 + day - 1);
    let doe: i128 = yoe * 365 + yoe / 4 - yoe / 100 + doy;
    let days: i128 = era * 146_097 + doe - 719_468;
    proof {
        lemma_era_length(year as int);
        lemma_march_years(calendar_year as int, month as int);
        lemma_days_before_year_bounds(calendar_year as int);
        lemma_days_before_month(calendar_year as int);
    }
    days as i64
}

/// Seconds from the Unix epoch to a time of day on a date, all in GMT.
///
/// Declines a date before 1970, and one so late that the number of seconds does
/// not fit in 64 bits. The second may be 60: a leap second is the first second
/// of the minute after it.
#[must_use]
pub fn unix_seconds(year: i64, month: u32, day: u32, hour: u64, min: u64, sec: u64) -> (secs:
    Option<u64>)
    requires
        valid_date(year as int, month as int, day as int),
        hour <= 23,
        min <= 59,
        sec <= 60,
    ensures
        ({
            let total = seconds_since_epoch(
                year as int,
                month as int,
                day as int,
                hour as int,
                min as int,
                sec as int,
            );
            match secs {
                Some(secs) => secs == total && year >= EPOCH_YEAR,
                None => year < EPOCH_YEAR || total > u64::MAX,
            }
        }),
        secs matches Some(secs) ==> secs == days_since_epoch(
            year as int,
            month as int,
            day as int,
        ) * 86_400 + hour * 3_600 + min * 60 + sec,
        secs is None <==> year < 1970 || days_since_epoch(year as int, month as int, day as int)
            * 86_400 + hour * 3_600 + min * 60 + sec > 18_446_744_073_709_551_615,
{
    proof {
        lemma_date_within_year(year as int, month as int, day as int);
        lemma_days_before_year_bounds(year as int);
        lemma_days_before_year_bounds(year as int + 1);
    }
    if year < EPOCH_YEAR || year > YEAR_BOUND {
        return None;
    }
    let days: u64 = days_from_civil(year, month, day) as u64;
    let time: u64 = hour * 3_600 + min * 60 + sec;
    match days.checked_mul(86_400) {
        Some(midnight) => midnight.checked_add(time),
        None => None,
    }
}

} // verus!
