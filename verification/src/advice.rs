//! The server's own `Retry-After` advice, in both forms of RFC 9110.

use crate::calendar::{self, days_in_month, unix_seconds, EPOCH_YEAR};
use crate::text::{
    self, chars_of, eq_ignoring_case, is_all_digits, parse_digits, split_fields, split_words, trim,
};
use crate::time::{self, unix_secs_at};
use core::time::Duration;
use std::time::SystemTime;
use vstd::prelude::*;

verus! {

/// The upstream's advice about when to come back, as it was actually stated.
///
/// Both forms are kept distinct rather than turned into a [`Duration`] at once,
/// because that takes a clock, and what reads a clock cannot be tested
/// deterministically. Resolve with [`RetryAdvice::delay_from`], supplying your own
/// notion of now.
#[derive(Debug, Clone, Copy, PartialEq, Eq)]
pub enum RetryAdvice {
    /// The delta-seconds form (RFC 9110, section 10.2.3): `Retry-After: 120`.
    After(Duration),
    /// The HTTP-date form: `Retry-After: Sun, 06 Nov 1994 08:49:37 GMT`, carried
    /// as seconds since the Unix epoch.
    At { unix_secs: u64 },
}

/// What a [`RetryAdvice`] says, in numbers.
pub enum AdviceView {
    /// Come back after this many nanoseconds.
    After { nanos: nat },
    /// Come back this many seconds after the Unix epoch.
    At { unix_secs: nat },
}

impl AdviceView {
    /// How long to wait, in nanoseconds, when it is `now` seconds after the Unix
    /// epoch.
    pub open spec fn delay_nanos(self, now: int) -> nat {
        match self {
            AdviceView::After { nanos } => nanos,
            AdviceView::At { unix_secs } => if unix_secs > now {
                ((unix_secs - now) * 1_000_000_000) as nat
            } else {
                0
            },
        }
    }
}

impl View for RetryAdvice {
    type V = AdviceView;

    open spec fn view(&self) -> AdviceView {
        match *self {
            RetryAdvice::After(d) => AdviceView::After { nanos: time::duration_nanos(d) },
            RetryAdvice::At { unix_secs } => AdviceView::At { unix_secs: unix_secs as nat },
        }
    }
}

/// What advice, if any, is given.
pub open spec fn advice_view(advice: Option<RetryAdvice>) -> Option<AdviceView> {
    match advice {
        Some(a) => Some(a@),
        None => None,
    }
}

/// The English abbreviation of a month's name.
pub open spec fn month_name(month: int) -> Seq<char> {
    if month == 1 {
        seq!['J', 'a', 'n']
    } else if month == 2 {
        seq!['F', 'e', 'b']
    } else if month == 3 {
        seq!['M', 'a', 'r']
    } else if month == 4 {
        seq!['A', 'p', 'r']
    } else if month == 5 {
        seq!['M', 'a', 'y']
    } else if month == 6 {
        seq!['J', 'u', 'n']
    } else if month == 7 {
        seq!['J', 'u', 'l']
    } else if month == 8 {
        seq!['A', 'u', 'g']
    } else if month == 9 {
        seq!['S', 'e', 'p']
    } else if month == 10 {
        seq!['O', 'c', 't']
    } else if month == 11 {
        seq!['N', 'o', 'v']
    } else {
        seq!['D', 'e', 'c']
    }
}

/// The first month from `month` on that goes by `name`, in any letter case.
pub open spec fn month_number_from(name: Seq<char>, month: int) -> Option<int>
    decreases 13 - month,
{
    if month > 12 {
        None
    } else if text::same_ignoring_case(month_name(month), name) {
        Some(month)
    } else {
        month_number_from(name, month + 1)
    }
}

/// The month that goes by `name`, in any letter case.
pub open spec fn month_number(name: Seq<char>) -> Option<int> {
    month_number_from(name, 1)
}

/// The hour, minute and second of a time of day `hh:mm:ss`. The second may be 60.
pub open spec fn time_of_day(time: Seq<char>) -> Option<(int, int, int)> {
    let parts = text::fields(time, ':');
    if parts.len() != 3 {
        None
    } else {
        match (
            text::digits_number(parts[0], 23),
            text::digits_number(parts[1], 59),
            text::digits_number(parts[2], 60),
        ) {
            (Some(hour), Some(min), Some(sec)) => Some((hour as int, min as int, sec as int)),
            _ => None,
        }
    }
}

/// The year, month and day that three words write, if the calendar has that date.
pub open spec fn date_of(day: Seq<char>, month: Seq<char>, year: Seq<char>) -> Option<
    (int, int, int),
> {
    match (
        text::digits_number(day, u32::MAX as nat),
        month_number(month),
        text::digits_number(year, i64::MAX as nat),
    ) {
        (Some(day), Some(month), Some(year)) => if calendar::valid_date(
            year as int,
            month,
            day as int,
        ) {
            Some((year as int, month, day as int))
        } else {
            None
        },
        _ => None,
    }
}

/// The seconds from the Unix epoch to an HTTP-date: six words, which are a weekday
/// that is not looked at, the day, the month, the year, the time of day, and `GMT`.
///
/// Not a date here: one before the year 1970, and one whose number of seconds does
/// not fit in 64 bits.
pub open spec fn imf_fixdate_secs(value: Seq<char>) -> Option<nat> {
    let w = text::words(value);
    if w.len() != 6 || !text::same_ignoring_case(w[5], seq!['G', 'M', 'T']) {
        None
    } else {
        match (date_of(w[1], w[2], w[3]), time_of_day(w[4])) {
            (Some((year, month, day)), Some((hour, min, sec))) => {
                let secs = calendar::seconds_since_epoch(year, month, day, hour, min, sec);
                if year >= EPOCH_YEAR && secs <= u64::MAX {
                    Some(secs as nat)
                } else {
                    None
                }
            },
            _ => None,
        }
    }
}

/// The advice that a `Retry-After` header value gives: a number of seconds, or a
/// date.
pub open spec fn advice_of(value: Seq<char>) -> Option<AdviceView> {
    let value = text::trimmed(value);
    if value.len() == 0 {
        None
    } else if text::all_digits(value) {
        match text::digits_number(value, u64::MAX as nat) {
            Some(secs) => Some(AdviceView::After { nanos: secs * 1_000_000_000 }),
            None => None,
        }
    } else {
        match imf_fixdate_secs(value) {
            Some(unix_secs) => Some(AdviceView::At { unix_secs }),
            None => None,
        }
    }
}

impl RetryAdvice {
    /// Resolve to a delay, given the caller's notion of the current time as
    /// seconds since the Unix epoch.
    ///
    /// A date already in the past yields [`Duration::ZERO`] (the advice is
    /// satisfied, retry now) rather than underflowing.
    #[must_use]
    pub fn delay_from(self, now_unix_secs: u64) -> (delay: Duration)
        ensures
            time::duration_nanos(delay) == self@.delay_nanos(now_unix_secs as int),
            self matches RetryAdvice::At { unix_secs } ==> time::duration_nanos(delay) == (
            if unix_secs > now_unix_secs {
                (unix_secs - now_unix_secs) * 1_000_000_000
            } else {
                0
            }),
            self matches RetryAdvice::After(d) ==> delay == d,
    {
        match self {
            RetryAdvice::After(d) => d,
            RetryAdvice::At { unix_secs } => Duration::from_secs(
                unix_secs.saturating_sub(now_unix_secs),
            ),
        }
    }

    /// Resolve against a reading of the system clock.
    ///
    /// A clock before the Unix epoch counts as one at the epoch.
    #[must_use]
    pub fn delay_at(self, clock: &SystemTime) -> (delay: Duration)
        ensures
            time::duration_nanos(delay) == self@.delay_nanos(time::unix_secs_of(*clock)),
            self matches RetryAdvice::At { unix_secs } ==> {
                let due = unix_secs * 1_000_000_000;
                let now = time::unix_nanos(*clock);
                let wait = time::duration_nanos(delay);
                &&& wait % 1_000_000_000 == 0
                &&& now < 0 ==> wait == due
                &&& 0 <= now < due ==> due <= now + wait < due + 1_000_000_000
                &&& now >= due ==> wait == 0
            },
            self matches RetryAdvice::After(d) ==> delay == d,
    {
        self.delay_from(unix_secs_at(clock))
    }

    /// Resolve against the system clock.
    ///
    /// Prefer [`RetryAdvice::delay_from`] wherever the caller already has a clock
    /// seam: this method exists for call sites that genuinely do not. A system
    /// clock before the Unix epoch yields the advice resolved against zero rather
    /// than panicking.
    #[must_use]
    pub fn delay_now(self) -> (delay: Duration)
        ensures
            exists|clock: SystemTime|
                time::duration_nanos(delay) == self@.delay_nanos(
                    #[trigger] time::unix_secs_of(clock),
                ),
            self matches RetryAdvice::After(d) ==> delay == d,
    {
        self.delay_at(&SystemTime::now())
    }
}

/// The month that goes by `name`, in any letter case.
fn month_from_name(name: &[char]) -> (month: Option<u32>)
    ensures
        match month {
            Some(month) => month_number(name@) == Some(month as int),
            None => month_number(name@) is None,
        },
{
    let mut month: u32 = 1;
    while month <= 12
        invariant
            1 <= month <= 13,
            month_number(name@) == month_number_from(name@, month as int),
        decreases 13 - month,
    {
        if eq_ignoring_case(&name_of_month(month), name) {
            return Some(month);
        }
        month += 1;
    }
    None
}

/// The English abbreviation of a month's name.
fn name_of_month(month: u32) -> (name: [char; 3])
    requires
        1 <= month <= 12,
    ensures
        name@ == month_name(month as int),
{
    match month {
        1 => ['J', 'a', 'n'],
        2 => ['F', 'e', 'b'],
        3 => ['M', 'a', 'r'],
        4 => ['A', 'p', 'r'],
        5 => ['M', 'a', 'y'],
        6 => ['J', 'u', 'n'],
        7 => ['J', 'u', 'l'],
        8 => ['A', 'u', 'g'],
        9 => ['S', 'e', 'p'],
        10 => ['O', 'c', 't'],
        11 => ['N', 'o', 'v'],
        _ => ['D', 'e', 'c'],
    }
}

/// The hour, minute and second of a time of day `hh:mm:ss`.
fn parse_time_of_day(time: &[char]) -> (parts: Option<(u64, u64, u64)>)
    ensures
        match parts {
            Some((hour, min, sec)) => time_of_day(time@) == Some(
                (hour as int, min as int, sec as int),
            ) && hour <= 23 && min <= 59 && sec <= 60,
            None => time_of_day(time@) is None,
        },
{
    let parts: Vec<&[char]> = split_fields(time, ':');
    assert(text::texts(parts@) == text::fields(time@, ':'));
    if parts.len() != 3 {
        return None;
    }
    assert(parts@[0]@ == text::fields(time@, ':')[0]);
    assert(parts@[1]@ == text::fields(time@, ':')[1]);
    assert(parts@[2]@ == text::fields(time@, ':')[2]);
    let hour: u64 = parse_digits(parts[0], 23)?;
    let min: u64 = parse_digits(parts[1], 59)?;
    let sec: u64 = parse_digits(parts[2], 60)?;
    Some((hour, min, sec))
}

/// `Sun, 06 Nov 1994 08:49:37 GMT`, as seconds since the Unix epoch.
///
/// Words rather than fixed columns: the grammar mandates a fixed width, but real
/// servers do emit a single-digit day, and rejecting those would discard advice we
/// can plainly read. The zone is mandatory and must be GMT: anything else is not
/// an IMF-fixdate, and guessing an offset would be worse than declining.
fn parse_imf_fixdate(value: &[char]) -> (secs: Option<u64>)
    ensures
        match secs {
            Some(secs) => imf_fixdate_secs(value@) == Some(secs as nat),
            None => imf_fixdate_secs(value@) is None,
        },
{
    let parts: Vec<&[char]> = split_words(value);
    assert(text::texts(parts@) == text::words(value@));
    if parts.len() != 6 {
        return None;
    }
    proof {
        assert(parts@[1]@ == text::words(value@)[1]);
        assert(parts@[2]@ == text::words(value@)[2]);
        assert(parts@[3]@ == text::words(value@)[3]);
        assert(parts@[4]@ == text::words(value@)[4]);
        assert(parts@[5]@ == text::words(value@)[5]);
    }
    let day: u32 = parse_digits(parts[1], u32::MAX as u64)? as u32;
    let month: u32 = month_from_name(parts[2])?;
    let year: i64 = parse_digits(parts[3], i64::MAX as u64)? as i64;
    if !eq_ignoring_case(parts[5], &['G', 'M', 'T']) {
        return None;
    }
    let (hour, min, sec) = parse_time_of_day(parts[4])?;
    if day == 0 || day > days_in_month(year, month) {
        return None;
    }
    unix_seconds(year, month, day, hour, min, sec)
}

/// Parse a `Retry-After` header value.
///
/// Accepts both forms that RFC 9110, section 10.2.3, defines:
///
/// - delta-seconds: `120`
/// - HTTP-date (IMF-fixdate): `Sun, 06 Nov 1994 08:49:37 GMT`
///
/// Returns `None` for anything else, which callers must treat as *no advice given*
/// and fall back to their own backoff. A number of seconds or a date that 64 bits
/// cannot hold is declined, and so is a date before 1970.
///
/// Only IMF-fixdate is accepted. RFC 9110 says a recipient *should* also accept the
/// obsolete rfc850 (`Sunday, 06-Nov-94 08:49:37 GMT`) and asctime
/// (`Sun Nov  6 08:49:37 1994`) forms; those return `None` here.
#[must_use]
pub fn parse_retry_after(value: &str) -> (advice: Option<RetryAdvice>)
    ensures
        advice_view(advice) == advice_of(value@),
        match advice {
            Some(RetryAdvice::After(d)) => advice_of(value@) == Some(
                AdviceView::After { nanos: time::duration_nanos(d) },
            ),
            Some(RetryAdvice::At { unix_secs }) => advice_of(value@) == Some(
                AdviceView::At { unix_secs: unix_secs as nat },
            ),
            None => advice_of(value@) is None,
        },
{
    let chars: Vec<char> = chars_of(value);
    let value: &[char] = trim(&chars);
    if value.len() == 0 {
        return None;
    }
    // delta-seconds first: it is what nearly every upstream sends, and it is
    // unambiguous (a bare run of digits is never a date).
    if is_all_digits(value) {
        match parse_digits(value, u64::MAX) {
            Some(secs) => Some(RetryAdvice::After(Duration::from_secs(secs))),
            None => None,
        }
    } else {
        match parse_imf_fixdate(value) {
            Some(unix_secs) => Some(RetryAdvice::At { unix_secs }),
            None => None,
        }
    }
}

} // verus!
