//! What holds of the library as a whole.
//!
//! Each law is stated over the specification functions in which the executable
//! functions say what they return, and holds of every input.

use crate::advice::{self, AdviceView};
use crate::calendar;
use crate::status;
use crate::text;
use crate::verdict::{self, JudgmentView, Verdict};
use vstd::prelude::*;

verus! {

// ---------------------------------------------------------------------------
// Status codes
// ---------------------------------------------------------------------------
/// A class predicate claims no code outside its own range: no code is in two
/// classes, and a code from 200 to 599 is in one unless it is a `3xx`.
pub proof fn classes_do_not_overlap(code: u16)
    ensures
        !(status::success_code(code) && status::client_error_code(code)),
        !(status::success_code(code) && status::server_error_code(code)),
        !(status::client_error_code(code) && status::server_error_code(code)),
        (status::success_code(code) || status::client_error_code(code)
            || status::server_error_code(code)) <==> (200 <= code < 600 && !(300 <= code < 400)),
{
}

/// A server error is transient only if it is one of four: every other `5xx` is a
/// permanent refusal. Two client errors are transient, and nothing else is.
pub proof fn transient_codes_by_class(code: u16)
    ensures
        status::server_error_code(code) ==> (status::transient_code(code) <==> code == 500 || code
            == 502 || code == 503 || code == 504),
        status::client_error_code(code) ==> (status::transient_code(code) <==> code == 408 || code
            == 429),
        status::transient_code(code) ==> status::client_error_code(code)
            || status::server_error_code(code),
{
}

/// A status code can be read back from its rendering.
pub proof fn rendered_code_reads_back(code: u16)
    ensures
        text::digits_number(text::decimal(code as nat), u16::MAX as nat) == Some(code as nat),
{
    text::lemma_decimal(code as nat);
}

// ---------------------------------------------------------------------------
// Verdicts and judgments
// ---------------------------------------------------------------------------
/// No two verdicts are rendered alike.
pub proof fn verdicts_render_distinctly(a: Verdict, b: Verdict)
    requires
        a != b,
    ensures
        a.name() != b.name(),
{
    reveal_strlit("success");
    reveal_strlit("unchanged");
    reveal_strlit("absent");
    reveal_strlit("unauthorized");
    reveal_strlit("throttled");
    reveal_strlit("server-error");
    reveal_strlit("other");
    if a.name() == b.name() {
        assert(a.name().len() == b.name().len());
        assert(a.name()[0] == b.name()[0]);
        assert(a.name()[2] == b.name()[2]);
    }
}

/// Both entry points reach the same verdict on every status, given that the signal
/// says what the header says.
pub proof fn entry_points_agree(code: u16, retry_after: Option<Seq<char>>)
    ensures
        verdict::judged_signalled(code, verdict::header_advice(retry_after) is Some).verdict
            == verdict::judged(code, retry_after).verdict,
{
}

/// Retry advice, or a signal, makes any status `Throttled` that is not settled by its
/// code; without it such a status is `Throttled` only if it is `429`, `Unauthorized` if
/// it is `401` or `403`, and else `Other`. A settled status is judged the same either
/// way.
pub proof fn signal_decides_unless_settled(code: u16)
    ensures
        verdict::settled_code(code) ==> verdict::verdict_of(code, true) == verdict::verdict_of(
            code,
            false,
        ),
        !verdict::settled_code(code) ==> verdict::verdict_of(code, true) == Verdict::Throttled,
        !verdict::settled_code(code) ==> verdict::verdict_of(code, false) == (if code == 429 {
            Verdict::Throttled
        } else if code == 401 || code == 403 {
            Verdict::Unauthorized
        } else {
            Verdict::Other
        }),
{
}

/// A header that cannot be read is judged as no header: the advice is absent, never
/// made up, and the verdict is the one that the status alone gives.
pub proof fn unreadable_header_is_no_header(code: u16, value: Seq<char>)
    requires
        advice::advice_of(value) is None,
    ensures
        verdict::judged(code, Some(value)) == verdict::judged(code, None),
{
}

/// A `429` is a throttle, and worth retrying, whatever its header says.
pub proof fn too_many_requests_is_a_throttle(
    retry_after: Option<Seq<char>>,
    temporary_refusal_signalled: bool,
)
    ensures
        verdict::judged(429, retry_after).verdict == Verdict::Throttled,
        verdict::judged(429, retry_after).transient(),
        verdict::judged_signalled(429, temporary_refusal_signalled).verdict == Verdict::Throttled,
        verdict::judged_signalled(429, temporary_refusal_signalled).transient(),
{
}

/// Whether to retry agrees with the set of transient statuses, except where advice
/// overrides it: it makes every status worth retrying that is not settled by its code.
pub proof fn transience_follows_status_but_for_advice(code: u16, retry_after: Option<Seq<char>>)
    ensures
        verdict::judged(code, retry_after).transient() <==> status::transient_code(code) || (
        !verdict::settled_code(code) && verdict::header_advice(retry_after) is Some),
{
}

/// A judgment from a signal reports no advice and no delay, at any time.
pub proof fn signal_fabricates_no_advice(
    code: u16,
    temporary_refusal_signalled: bool,
    now: int,
)
    ensures
        verdict::judged_signalled(code, temporary_refusal_signalled).advice is None,
        verdict::judged_signalled(code, temporary_refusal_signalled).delay_nanos(now) is None,
{
}

/// Both entry points make consistent judgments, and a consistent judgment claims
/// nothing that its status does not bear out: `Success`, `Unchanged`, `Absent` and
/// `ServerError` stand for their statuses exactly, the other three share the rest, of
/// which `429` is always `Throttled` and only `401` and `403` can be `Unauthorized`, and
/// a judgment that carries advice is neither `Unauthorized` nor `Other`.
pub proof fn judgments_are_consistent(
    code: u16,
    retry_after: Option<Seq<char>>,
    temporary_refusal_signalled: bool,
    j: JudgmentView,
)
    requires
        j.consistent(),
    ensures
        verdict::judged(code, retry_after).consistent(),
        verdict::judged_signalled(code, temporary_refusal_signalled).consistent(),
        j.verdict == Verdict::Success <==> status::success_code(j.code),
        j.verdict == Verdict::Unchanged <==> j.code == 304,
        j.verdict == Verdict::Absent <==> (j.code == 404 || j.code == 410),
        j.verdict == Verdict::ServerError <==> status::server_error_code(j.code),
        (j.verdict == Verdict::Throttled || j.verdict == Verdict::Unauthorized || j.verdict
            == Verdict::Other) <==> !verdict::settled_code(j.code),
        j.code == 429 ==> j.verdict == Verdict::Throttled,
        j.verdict == Verdict::Unauthorized ==> j.code == 401 || j.code == 403,
        j.verdict == Verdict::Other ==> j.code != 401 && j.code != 403,
        j.advice is Some ==> j.verdict != Verdict::Unauthorized && j.verdict != Verdict::Other,
{
}

// ---------------------------------------------------------------------------
// Delays
// ---------------------------------------------------------------------------
/// Advice in seconds is the same at any time.
pub proof fn delta_seconds_ignores_the_clock(nanos: nat, now: int, later: int)
    ensures
        (AdviceView::After { nanos }).delay_nanos(now) == nanos,
        (AdviceView::After { nanos }).delay_nanos(now) == (AdviceView::After {
            nanos,
        }).delay_nanos(later),
{
}

/// A date in the past is no wait at all, and one in the future is the wait that
/// ends at that date.
pub proof fn date_is_waited_for(unix_secs: nat, now: int)
    ensures
        unix_secs <= now ==> (AdviceView::At { unix_secs }).delay_nanos(now) == 0,
        unix_secs > now ==> now * 1_000_000_000 + (AdviceView::At { unix_secs }).delay_nanos(now)
            == unix_secs * 1_000_000_000,
{
}

/// Waiting never makes the remaining wait longer.
pub proof fn delay_never_grows(advice: AdviceView, now: int, later: int)
    requires
        now <= later,
    ensures
        advice.delay_nanos(later) <= advice.delay_nanos(now),
{
}

// ---------------------------------------------------------------------------
// The calendar
// ---------------------------------------------------------------------------
/// The date after a date.
pub open spec fn next_date(year: int, month: int, day: int) -> (int, int, int) {
    if day < calendar::month_length(year, month) {
        (year, month, day + 1)
    } else if month < 12 {
        (year, month + 1, 1)
    } else {
        (year + 1, 1, 1)
    }
}

/// The day after a date is one day later, through the ends of months and years and
/// through leap days.
pub proof fn next_date_is_next_day(year: int, month: int, day: int)
    requires
        calendar::valid_date(year, month, day),
    ensures
        ({
            let (y, m, d) = next_date(year, month, day);
            calendar::valid_date(y, m, d) && calendar::days_since_epoch(y, m, d)
                == calendar::days_since_epoch(year, month, day) + 1
        }),
{
    calendar::lemma_days_before_month(year);
    calendar::lemma_days_before_month(year + 1);
    calendar::lemma_days_before_year_step(year);
}

/// Later dates have larger numbers of days; so no two dates have the same.
pub proof fn later_dates_count_more_days(
    year: int,
    month: int,
    day: int,
    later_year: int,
    later_month: int,
    later_day: int,
)
    requires
        calendar::valid_date(year, month, day),
        calendar::valid_date(later_year, later_month, later_day),
        year < later_year || (year == later_year && (month < later_month || (month == later_month
            && day < later_day))),
    ensures
        calendar::days_since_epoch(year, month, day) < calendar::days_since_epoch(
            later_year,
            later_month,
            later_day,
        ),
{
    if year < later_year {
        calendar::lemma_date_within_year(year, month, day);
        calendar::lemma_date_within_year(later_year, later_month, later_day);
        calendar::lemma_days_before_year_monotone(year + 1, later_year);
    } else {
        calendar::lemma_days_before_month(year);
    }
}

/// The calendar repeats every 400 years, which are 146,097 days: three of four
/// centuries end without a leap day.
pub proof fn calendar_repeats_every_400_years(year: int, month: int, day: int)
    requires
        1 <= month <= 12,
    ensures
        calendar::valid_date(year + 400, month, day) == calendar::valid_date(year, month, day),
        calendar::days_since_epoch(year + 400, month, day) == calendar::days_since_epoch(
            year,
            month,
            day,
        ) + 146_097,
{
    calendar::lemma_era_step(year);
    calendar::lemma_same_months(year, year + 400, month);
}

/// The dates before 1970 are those with a negative number of days.
pub proof fn dates_before_1970_count_below_zero(year: int, month: int, day: int)
    requires
        calendar::valid_date(year, month, day),
    ensures
        calendar::days_since_epoch(year, month, day) < 0 <==> year < 1970,
{
    calendar::lemma_date_within_year(year, month, day);
    calendar::lemma_days_before_year_bounds(year);
    calendar::lemma_days_before_year_bounds(year + 1);
}

// ---------------------------------------------------------------------------
// The `Retry-After` header
// ---------------------------------------------------------------------------
/// A header value is read by its words alone: how much white space, and of what
/// kind, stands around and between them makes no difference.
pub proof fn words_decide(a: Seq<char>, b: Seq<char>)
    requires
        text::words(a) == text::words(b),
    ensures
        advice::advice_of(a) == advice::advice_of(b),
{
    let ta = text::trimmed(a);
    let tb = text::trimmed(b);
    text::lemma_words_trimmed(a);
    text::lemma_words_trimmed(b);
    text::lemma_trimmed_ends(a);
    text::lemma_trimmed_ends(b);
    if ta.len() == 0 {
        assert(text::words(ta).len() == 0);
        text::lemma_no_words(tb);
        if tb.len() > 0 {
            assert(text::white_space(tb[0]));
        }
    } else if tb.len() == 0 {
        assert(text::words(tb).len() == 0);
        text::lemma_no_words(ta);
        assert(text::white_space(ta[0]));
    } else if text::all_digits(ta) {
        text::lemma_trimmed_digits(a);
        text::lemma_trimmed_one_word(b);
    } else if text::all_digits(tb) {
        text::lemma_trimmed_digits(b);
        text::lemma_trimmed_one_word(a);
    }
}

/// White space around a header value makes no difference.
pub proof fn surrounding_white_space_is_ignored(
    before: Seq<char>,
    value: Seq<char>,
    after: Seq<char>,
)
    requires
        text::blank(before),
        text::blank(after),
    ensures
        advice::advice_of(before + value + after) == advice::advice_of(value),
{
    text::lemma_words_before_blank(before + value, after);
    text::lemma_words_after_blank(before, value);
    words_decide(before + value + after, value);
}

/// Every run of decimal digits is advice in seconds, unless the number is beyond 64
/// bits: then it is no advice. It is never a date.
pub proof fn digits_are_delta_seconds(value: Seq<char>)
    requires
        value.len() > 0,
        text::all_digits(value),
    ensures
        advice::advice_of(value) == (if text::digits_value(value) <= u64::MAX {
            Some(AdviceView::After { nanos: text::digits_value(value) * 1_000_000_000 })
        } else {
            None
        }),
{
    text::lemma_digits_unbroken(value);
    text::lemma_one_word(value);
    text::lemma_trimmed_one_word(value);
}

/// Every number of seconds of 64 bits, written in decimal, is read back as that
/// advice.
pub proof fn delta_seconds_read_back(secs: u64)
    ensures
        advice::advice_of(text::decimal(secs as nat)) == Some(
            AdviceView::After { nanos: secs as nat * 1_000_000_000 },
        ),
{
    text::lemma_decimal(secs as nat);
    digits_are_delta_seconds(text::decimal(secs as nat));
}

/// Whatever is read as advice is either one word of digits, read as seconds, or six
/// words of which the last is `GMT`, read as a date. So no other zone is read, nor is
/// a date without one, nor the obsolete forms of HTTP-date, which have four words
/// and five.
pub proof fn advice_has_one_of_two_shapes(value: Seq<char>)
    requires
        advice::advice_of(value) is Some,
    ensures
        ({
            let w = text::words(value);
            match advice::advice_of(value)->0 {
                AdviceView::After { .. } => w.len() == 1 && text::all_digits(w[0]),
                AdviceView::At { .. } => w.len() == 6 && text::same_ignoring_case(
                    w[5],
                    seq!['G', 'M', 'T'],
                ),
            }
        }),
{
    text::lemma_words_trimmed(value);
    if text::all_digits(text::trimmed(value)) {
        text::lemma_trimmed_digits(value);
    }
}

/// Every date that is read lies within the years from 1970 on and is one that the
/// calendar has, at a time of day of which only the second may be 60.
pub proof fn dates_read_are_dates(value: Seq<char>)
    requires
        advice::advice_of(value) matches Some(AdviceView::At { .. }),
    ensures
        exists|year: int, month: int, day: int, hour: int, min: int, sec: int|
            {
                &&& year >= 1970
                &&& calendar::valid_date(year, month, day)
                &&& 0 <= hour <= 23 && 0 <= min <= 59 && 0 <= sec <= 60
                &&& advice::advice_of(value)->0->unix_secs
                    == #[trigger] calendar::seconds_since_epoch(year, month, day, hour, min, sec)
            },
{
    let w = text::words(text::trimmed(value));
    let (year, month, day) = advice::date_of(w[1], w[2], w[3])->0;
    let (hour, min, sec) = advice::time_of_day(w[4])->0;
    assert(advice::advice_of(value)->0->unix_secs == calendar::seconds_since_epoch(
        year,
        month,
        day,
        hour,
        min,
        sec,
    )) by {
        calendar::lemma_date_within_year(year, month, day);
        calendar::lemma_days_before_year_bounds(year);
    }
}

/// Two header values are read alike if they have the same words, except for the letter
/// case of the month and of the zone, and except for the first word, which in a date is
/// the day name: it is redundant with the date and is not looked at. (A first word that
/// is also the only one must be the same, or no number in either value.)
pub proof fn weekday_and_letter_case_make_no_difference(a: Seq<char>, b: Seq<char>)
    requires
        text::words(a).len() == text::words(b).len(),
        text::words(a).len() == 1 ==> text::words(a)[0] == text::words(b)[0] || (
        !text::all_digits(text::words(a)[0]) && !text::all_digits(text::words(b)[0])),
        forall|i: int|
            1 <= i < text::words(a).len() && i != 2 && i != 5 ==> #[trigger] text::words(a)[i]
                == text::words(b)[i],
        text::words(a).len() > 2 ==> text::same_ignoring_case(
            text::words(a)[2],
            text::words(b)[2],
        ),
        text::words(a).len() > 5 ==> text::same_ignoring_case(
            text::words(a)[5],
            text::words(b)[5],
        ),
    ensures
        advice::imf_fixdate_secs(a) == advice::imf_fixdate_secs(b),
        advice::advice_of(a) == advice::advice_of(b),
{
    let wa = text::words(a);
    let wb = text::words(b);
    if wa.len() == 6 {
        let gmt = seq!['G', 'M', 'T'];
        text::lemma_same_ignoring_case(wa[5], wb[5], gmt);
        lemma_month_number_any_case(wa[2], wb[2], 1);
        assert(wa[1] == wb[1] && wa[3] == wb[3] && wa[4] == wb[4]);
    }
    assert(advice::imf_fixdate_secs(a) == advice::imf_fixdate_secs(b));
    if wa.len() == 1 && wa[0] == wb[0] {
        assert(wa == wb);
        words_decide(a, b);
    } else {
        text::lemma_words_trimmed(a);
        text::lemma_words_trimmed(b);
        if text::trimmed(a).len() > 0 && text::all_digits(text::trimmed(a)) {
            text::lemma_trimmed_digits(a);
        }
        if text::trimmed(b).len() > 0 && text::all_digits(text::trimmed(b)) {
            text::lemma_trimmed_digits(b);
        }
        assert(advice::imf_fixdate_secs(text::trimmed(a)) == advice::imf_fixdate_secs(a));
        assert(advice::imf_fixdate_secs(text::trimmed(b)) == advice::imf_fixdate_secs(b));
    }
}

/// Two names that differ only in letter case are names of the same month.
proof fn lemma_month_number_any_case(a: Seq<char>, b: Seq<char>, month: int)
    requires
        text::same_ignoring_case(a, b),
    ensures
        advice::month_number_from(a, month) == advice::month_number_from(b, month),
    decreases 13 - month,
{
    if month <= 12 {
        text::lemma_same_ignoring_case(a, b, advice::month_name(month));
        lemma_month_number_any_case(a, b, month + 1);
    }
}

/// A month is known by its name in any letter case.
pub proof fn months_are_known_in_any_case(month: int, name: Seq<char>)
    requires
        1 <= month <= 12,
        text::same_ignoring_case(advice::month_name(month), name),
    ensures
        advice::month_number(name) == Some(month),
{
    reveal_with_fuel(advice::month_number_from, 13);
    assert forall|other: int| 1 <= other <= 12 && other != month implies !text::same_ignoring_case(
        advice::month_name(other),
        name,
    ) by {
        if text::same_ignoring_case(advice::month_name(other), name) {
            assert(text::same_letter(advice::month_name(month)[0], name[0]));
            assert(text::same_letter(advice::month_name(month)[1], name[1]));
            assert(text::same_letter(advice::month_name(month)[2], name[2]));
            assert(text::same_letter(advice::month_name(other)[0], name[0]));
            assert(text::same_letter(advice::month_name(other)[1], name[1]));
            assert(text::same_letter(advice::month_name(other)[2], name[2]));
        }
    }
}

/// A time of day: hour, minute and second, parted by colons.
pub open spec fn time_text(hour: Seq<char>, min: Seq<char>, sec: Seq<char>) -> Seq<char> {
    hour + seq![':'] + (min + seq![':'] + sec)
}

/// An HTTP-date: weekday, day, month, year, time of day and zone, parted by spaces.
pub open spec fn date_text(
    weekday: Seq<char>,
    day: Seq<char>,
    month: Seq<char>,
    year: Seq<char>,
    time: Seq<char>,
    zone: Seq<char>,
) -> Seq<char> {
    weekday + seq![' '] + (day + seq![' '] + (month + seq![' '] + (year + seq![' '] + (time + seq![
        ' ',
    ] + zone))))
}

/// Whether `s` is one or more decimal digits.
pub open spec fn number_text(s: Seq<char>) -> bool {
    s.len() > 0 && text::all_digits(s)
}

/// An HTTP-date is read as the seconds from the Unix epoch to it, with any weekday,
/// with a day of one digit or two, and with the month and the zone in any letter case,
/// exactly if the calendar has the date, the time of day is one, the year is 1970 or
/// later, and 64 bits hold the seconds. Else it is no advice.
pub proof fn http_dates_are_read(
    weekday: Seq<char>,
    day: Seq<char>,
    month: int,
    month_word: Seq<char>,
    year: Seq<char>,
    hour: Seq<char>,
    min: Seq<char>,
    sec: Seq<char>,
    zone: Seq<char>,
)
    requires
        weekday.len() > 0,
        text::unbroken(weekday),
        number_text(day),
        1 <= month <= 12,
        text::same_ignoring_case(advice::month_name(month), month_word),
        number_text(year),
        number_text(hour),
        number_text(min),
        number_text(sec),
        text::same_ignoring_case(zone, seq!['G', 'M', 'T']),
    ensures
        ({
            let y = text::digits_value(year) as int;
            let d = text::digits_value(day) as int;
            let h = text::digits_value(hour) as int;
            let m = text::digits_value(min) as int;
            let s = text::digits_value(sec) as int;
            let total = calendar::seconds_since_epoch(y, month, d, h, m, s);
            let value = date_text(
                weekday,
                day,
                month_word,
                year,
                time_text(hour, min, sec),
                zone,
            );
            advice::advice_of(value) == (if calendar::valid_date(y, month, d) && h <= 23 && m <= 59
                && s <= 60 && y >= 1970 && total <= u64::MAX {
                Some(AdviceView::At { unix_secs: total as nat })
            } else {
                None
            })
        }),
{
    let time = time_text(hour, min, sec);
    let value = date_text(weekday, day, month_word, year, time, zone);
    lemma_date_words(weekday, day, month, month_word, year, hour, min, sec, zone);
    lemma_time_fields(hour, min, sec);
    months_are_known_in_any_case(month, month_word);
    text::lemma_words_trimmed(value);
    if text::trimmed(value).len() == 0 {
        assert(text::words(text::trimmed(value)).len() == 0);
    } else if text::all_digits(text::trimmed(value)) {
        text::lemma_trimmed_digits(value);
    }
    assert(text::digit(day[0]) && text::digit(year[0]) && text::digit(hour[0]) && text::digit(
        min[0],
    ) && text::digit(sec[0]));
    let y = text::digits_value(year) as int;
    let d = text::digits_value(day) as int;
    if calendar::valid_date(y, month, d) {
        calendar::lemma_date_within_year(y, month, d);
        calendar::lemma_days_before_year_bounds(y);
    }
}

proof fn lemma_time_fields(hour: Seq<char>, min: Seq<char>, sec: Seq<char>)
    requires
        number_text(hour),
        number_text(min),
        number_text(sec),
    ensures
        text::fields(time_text(hour, min, sec), ':') == seq![hour, min, sec],
        text::unbroken(time_text(hour, min, sec)),
{
    assert forall|i: int| 0 <= i < hour.len() implies #[trigger] hour[i] != ':' by {
        assert(text::digit(hour[i]));
    }
    assert forall|i: int| 0 <= i < min.len() implies #[trigger] min[i] != ':' by {
        assert(text::digit(min[i]));
    }
    assert forall|i: int| 0 <= i < sec.len() implies #[trigger] sec[i] != ':' by {
        assert(text::digit(sec[i]));
    }
    text::lemma_field_then(hour, ':', min + seq![':'] + sec);
    text::lemma_field_then(min, ':', sec);
    text::lemma_one_field(sec, ':');
    assert(seq![hour] + (seq![min] + seq![sec]) == seq![hour, min, sec]);
    text::lemma_digits_unbroken(hour);
    text::lemma_digits_unbroken(min);
    text::lemma_digits_unbroken(sec);
}

proof fn lemma_date_words(
    weekday: Seq<char>,
    day: Seq<char>,
    month: int,
    month_word: Seq<char>,
    year: Seq<char>,
    hour: Seq<char>,
    min: Seq<char>,
    sec: Seq<char>,
    zone: Seq<char>,
)
    requires
        weekday.len() > 0,
        text::unbroken(weekday),
        number_text(day),
        1 <= month <= 12,
        text::same_ignoring_case(advice::month_name(month), month_word),
        number_text(year),
        number_text(hour),
        number_text(min),
        number_text(sec),
        text::same_ignoring_case(zone, seq!['G', 'M', 'T']),
    ensures
        ({
            let time = time_text(hour, min, sec);
            text::words(date_text(weekday, day, month_word, year, time, zone)) == seq![
                weekday,
                day,
                month_word,
                year,
                time,
                zone,
            ]
        }),
{
    let time = time_text(hour, min, sec);
    let gmt = seq!['G', 'M', 'T'];
    assert(text::unbroken(zone)) by {
        assert(text::same_letter(zone[0], gmt[0]));
        assert(text::same_letter(zone[1], gmt[1]));
        assert(text::same_letter(zone[2], gmt[2]));
    }
    lemma_time_fields(hour, min, sec);
    text::lemma_digits_unbroken(day);
    text::lemma_digits_unbroken(year);
    assert(text::unbroken(month_word)) by {
        assert(text::same_letter(advice::month_name(month)[0], month_word[0]));
        assert(text::same_letter(advice::month_name(month)[1], month_word[1]));
        assert(text::same_letter(advice::month_name(month)[2], month_word[2]));
    }
    let last = time + seq![' '] + zone;
    let from_year = year + seq![' '] + last;
    let from_month = month_word + seq![' '] + from_year;
    let from_day = day + seq![' '] + from_month;
    text::lemma_word_then(weekday, ' ', from_day);
    text::lemma_word_then(day, ' ', from_month);
    text::lemma_word_then(month_word, ' ', from_year);
    text::lemma_word_then(year, ' ', last);
    text::lemma_word_then(time, ' ', zone);
    text::lemma_one_word(zone);
    assert(seq![weekday] + (seq![day] + (seq![month_word] + (seq![year] + (seq![time] + seq![
        zone,
    ])))) == seq![weekday, day, month_word, year, time, zone]);
}

/// A number below 100, in two digits.
pub open spec fn two_digits(n: int) -> Seq<char> {
    seq![text::digit_char(n / 10), text::digit_char(n % 10)]
}

/// A number below 10,000, in four digits.
pub open spec fn four_digits(n: int) -> Seq<char> {
    two_digits(n / 100) + two_digits(n % 100)
}

/// A date and a time of day as RFC 9110 has them written:
/// `Sun, 06 Nov 1994 08:49:37 GMT`.
pub open spec fn imf_fixdate(
    weekday: Seq<char>,
    year: int,
    month: int,
    day: int,
    hour: int,
    min: int,
    sec: int,
) -> Seq<char> {
    date_text(
        weekday,
        two_digits(day),
        advice::month_name(month),
        four_digits(year),
        time_text(two_digits(hour), two_digits(min), two_digits(sec)),
        seq!['G', 'M', 'T'],
    )
}

/// Two digits write the number that they are made from.
pub proof fn lemma_two_digits(n: int)
    requires
        0 <= n < 100,
    ensures
        number_text(two_digits(n)),
        text::digits_value(two_digits(n)) == n,
{
    let s = two_digits(n);
    assert(s.drop_last() == seq![text::digit_char(n / 10)]);
    assert(s.drop_last().drop_last() == Seq::<char>::empty());
    assert(text::digits_value(Seq::<char>::empty()) == 0);
    assert(text::digits_value(s.drop_last()) == n / 10);
}

/// Four digits write the number that they are made from.
pub proof fn lemma_four_digits(n: int)
    requires
        0 <= n < 10_000,
    ensures
        number_text(four_digits(n)),
        text::digits_value(four_digits(n)) == n,
{
    let s = four_digits(n);
    let high = two_digits(n / 100);
    lemma_two_digits(n / 100);
    assert(s.drop_last() == high.push(text::digit_char(n % 100 / 10)));
    assert(s.drop_last().drop_last() == high);
    assert(text::digits_value(s.drop_last()) == (n / 100) * 10 + n % 100 / 10);
}

/// Every date from 1970 through 9999, at every second of the day, is read back from
/// its IMF-fixdate as the seconds from the Unix epoch to it.
pub proof fn imf_fixdates_read_back(
    weekday: Seq<char>,
    year: int,
    month: int,
    day: int,
    hour: int,
    min: int,
    sec: int,
)
    requires
        weekday.len() > 0,
        text::unbroken(weekday),
        1970 <= year <= 9999,
        calendar::valid_date(year, month, day),
        0 <= hour <= 23,
        0 <= min <= 59,
        0 <= sec <= 60,
    ensures
        advice::advice_of(imf_fixdate(weekday, year, month, day, hour, min, sec)) == Some(
            AdviceView::At {
                unix_secs: calendar::seconds_since_epoch(
                    year,
                    month,
                    day,
                    hour,
                    min,
                    sec,
                ) as nat,
            },
        ),
{
    lemma_four_digits(year);
    lemma_two_digits(day);
    lemma_two_digits(hour);
    lemma_two_digits(min);
    lemma_two_digits(sec);
    http_dates_are_read(
        weekday,
        two_digits(day),
        month,
        advice::month_name(month),
        four_digits(year),
        two_digits(hour),
        two_digits(min),
        two_digits(sec),
        seq!['G', 'M', 'T'],
    );
    calendar::lemma_date_within_year(year, month, day);
    calendar::lemma_days_before_year_bounds(year + 1);
}

/// A date in the year 1969 or before is no advice: it cannot be told as seconds
/// after the Unix epoch.
pub proof fn dates_before_1970_are_declined(
    weekday: Seq<char>,
    year: int,
    month: int,
    day: int,
    hour: int,
    min: int,
    sec: int,
)
    requires
        weekday.len() > 0,
        text::unbroken(weekday),
        0 <= year < 1970,
        calendar::valid_date(year, month, day),
        0 <= hour <= 23,
        0 <= min <= 59,
        0 <= sec <= 60,
    ensures
        advice::advice_of(imf_fixdate(weekday, year, month, day, hour, min, sec)) is None,
{
    lemma_four_digits(year);
    lemma_two_digits(day);
    lemma_two_digits(hour);
    lemma_two_digits(min);
    lemma_two_digits(sec);
    http_dates_are_read(
        weekday,
        two_digits(day),
        month,
        advice::month_name(month),
        four_digits(year),
        two_digits(hour),
        two_digits(min),
        two_digits(sec),
        seq!['G', 'M', 'T'],
    );
}

} // verus!
