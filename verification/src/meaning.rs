//! What the library's answers are, in plain numbers and characters.
//!
//! The laws here pin the specification functions down from outside: each says what a
//! result is by the characters and numbers that go in and come out, or how the results
//! for two inputs differ. Together they leave one answer for every input.

use crate::advice::{self, AdviceView, RetryAdvice};
use crate::calendar;
use crate::laws;
use crate::status;
use crate::text;
use crate::time;
use crate::verdict::{self, JudgmentView, Verdict};
use core::time::Duration;
use std::time::SystemTime;
use vstd::prelude::*;

verus! {

// ---------------------------------------------------------------------------
// Text
// ---------------------------------------------------------------------------
/// White space is these code points and no others; a blank text has nothing else, and an
/// unbroken one none of it.
pub proof fn white_space_by_code_point(c: char, s: Seq<char>)
    ensures
        text::white_space(c) <==> {
            let n = c as int;
            ||| 9 <= n <= 13
            ||| n == 32
            ||| n == 133
            ||| n == 160
            ||| n == 5760
            ||| 8192 <= n <= 8202
            ||| n == 8232
            ||| n == 8233
            ||| n == 8239
            ||| n == 8287
            ||| n == 12288
        },
        text::blank(s) <==> forall|i: int| 0 <= i < s.len() ==> text::white_space(#[trigger] s[i]),
        text::unbroken(s) <==> forall|i: int|
            0 <= i < s.len() ==> !text::white_space(#[trigger] s[i]),
{
}

/// Trimming keeps one stretch of the text, from `a` to `b`: all that is left out is white
/// space, and the stretch neither begins nor ends with any.
pub proof fn trimming_takes_white_space_off_the_ends(s: Seq<char>) -> (ends: (int, int))
    ensures
        0 <= ends.0 <= ends.1 <= s.len(),
        text::trimmed(s) == s.subrange(ends.0, ends.1),
        forall|i: int| 0 <= i < ends.0 ==> text::white_space(#[trigger] s[i]),
        forall|i: int| ends.1 <= i < s.len() ==> text::white_space(#[trigger] s[i]),
        ends.0 < ends.1 ==> !text::white_space(s[ends.0]) && !text::white_space(s[ends.1 - 1]),
{
    let a = lemma_trimmed_start_at(s);
    let t = s.skip(a);
    let n = lemma_trimmed_end_at(t);
    assert(text::trimmed(s) == s.subrange(a, a + n));
    assert forall|i: int| a + n <= i < s.len() implies text::white_space(#[trigger] s[i]) by {
        assert(text::white_space(t[i - a]));
    }
    if n > 0 {
        assert(t[0] == s[a]);
        assert(t[n - 1] == s[a + n - 1]);
    }
    (a, a + n)
}

proof fn lemma_trimmed_start_at(s: Seq<char>) -> (a: int)
    ensures
        0 <= a <= s.len(),
        text::trimmed_start(s) == s.skip(a),
        forall|i: int| 0 <= i < a ==> text::white_space(#[trigger] s[i]),
        a < s.len() ==> !text::white_space(s[a]),
    decreases s.len(),
{
    if s.len() > 0 && text::white_space(s.first()) {
        let rest = s.drop_first();
        let a = lemma_trimmed_start_at(rest);
        assert(rest.skip(a) == s.skip(a + 1));
        assert forall|i: int| 0 <= i < a + 1 implies text::white_space(#[trigger] s[i]) by {
            if i > 0 {
                assert(text::white_space(rest[i - 1]));
            }
        }
        a + 1
    } else {
        assert(s.skip(0) == s);
        0
    }
}

proof fn lemma_trimmed_end_at(s: Seq<char>) -> (b: int)
    ensures
        0 <= b <= s.len(),
        text::trimmed_end(s) == s.take(b),
        forall|i: int| b <= i < s.len() ==> text::white_space(#[trigger] s[i]),
        b > 0 ==> !text::white_space(s[b - 1]),
    decreases s.len(),
{
    if s.len() > 0 && text::white_space(s.last()) {
        let rest = s.drop_last();
        let b = lemma_trimmed_end_at(rest);
        assert(rest.take(b) == s.take(b));
        assert forall|i: int| b <= i < s.len() implies text::white_space(#[trigger] s[i]) by {
            if i < s.len() - 1 {
                assert(text::white_space(rest[i]));
            }
        }
        b
    } else {
        assert(s.take(s.len() as int) == s);
        s.len() as int
    }
}

/// The words of every text, built up from its end: nothing has no words, white space in
/// front adds none, and characters without white space, alone or with white space after
/// them, are one word in front of the rest.
pub proof fn words_are_runs_between_white_space(w: Seq<char>, space: char, rest: Seq<char>)
    requires
        text::white_space(space),
    ensures
        text::words(Seq::<char>::empty()) == Seq::<Seq<char>>::empty(),
        text::words(seq![space] + rest) == text::words(rest),
        w.len() > 0 && text::unbroken(w) ==> text::words(w) == seq![w],
        w.len() > 0 && text::unbroken(w) ==> text::words(w + seq![space] + rest) == seq![w]
            + text::words(rest),
{
    text::lemma_words_after_blank(seq![space], rest);
    if w.len() > 0 && text::unbroken(w) {
        text::lemma_one_word(w);
        text::lemma_word_then(w, space, rest);
    }
}

/// The fields of every text, built up from its end: characters other than the separator,
/// alone or with a separator after them, are one field in front of the rest.
pub proof fn fields_are_parted_by_every_separator(a: Seq<char>, sep: char, rest: Seq<char>)
    requires
        forall|i: int| 0 <= i < a.len() ==> #[trigger] a[i] != sep,
    ensures
        text::fields(a, sep) == seq![a],
        text::fields(a + seq![sep] + rest, sep) == seq![a] + text::fields(rest, sep),
{
    text::lemma_one_field(a, sep);
    text::lemma_field_then(a, sep, rest);
}

/// Digits are positional, for every length: one digit writes its own value, and a run
/// followed by one more digit writes ten times the run and that digit.
pub proof fn digits_are_positional(s: Seq<char>, c: char)
    ensures
        text::digit(c) <==> 48 <= c as int <= 57,
        text::all_digits(s) <==> forall|i: int|
            0 <= i < s.len() ==> 48 <= (#[trigger] s[i]) as int <= 57,
        48 <= c as int <= 57 ==> text::digits_value(seq![c]) == c as int - 48,
        48 <= c as int <= 57 ==> text::digits_value(s.push(c)) == 10 * text::digits_value(s) + (
        c as int - 48),
{
    if text::all_digits(s) {
        assert forall|i: int| 0 <= i < s.len() implies 48 <= (#[trigger] s[i]) as int <= 57 by {
            assert(text::digit(s[i]));
        }
    }
    assert(s.push(c).drop_last() == s);
    assert(seq![c].drop_last() == Seq::<char>::empty());
    assert(text::digits_value(Seq::<char>::empty()) == 0);
}

/// A number is read from a text exactly if the text is one digit or more, nothing else, and
/// the number is not above the limit.
pub proof fn numbers_are_digits_within_a_limit(s: Seq<char>, max: nat, n: nat)
    ensures
        text::digits_number(s, max) == Some(n) <==> s.len() > 0 && text::all_digits(s)
            && text::digits_value(s) == n && n <= max,
{
}

/// Decimal text is built digit by digit, and begins with a zero only for zero itself: a
/// number below ten is its digit, and any other number is the number without its last digit,
/// and then that digit.
pub proof fn decimal_text_is_positional(n: nat, d: int)
    requires
        0 <= d <= 9,
    ensures
        text::decimal(d as nat) == seq![(48 + d) as char],
        n > 0 ==> text::decimal((10 * n + d) as nat) == text::decimal(n).push((48 + d) as char),
        text::decimal(n).len() > 0,
        text::decimal(n)[0] == '0' <==> n == 0,
    decreases n,
{
    text::lemma_decimal(n);
    if n >= 10 {
        text::lemma_decimal(n / 10);
        decimal_text_is_positional(n / 10, 0);
        assert(text::decimal(n)[0] == text::decimal(n / 10)[0]);
    }
    if n > 0 {
        assert((10 * n + d) as nat / 10 == n);
        assert((10 * n + d) % 10 == d);
    }
}

/// Every run of digits without a leading zero is the decimal text of the number it writes.
pub proof fn digits_without_leading_zero_are_decimal_text(s: Seq<char>)
    requires
        s.len() > 0,
        forall|i: int| 0 <= i < s.len() ==> 48 <= (#[trigger] s[i]) as int <= 57,
        s.len() == 1 || s[0] != '0',
    ensures
        text::decimal(text::digits_value(s)) == s,
        s[0] != '0' ==> text::digits_value(s) > 0,
    decreases s.len(),
{
    let c = s.last();
    assert(48 <= s[s.len() - 1] as int <= 57);
    digits_are_positional(s.drop_last(), c);
    assert(s.drop_last().push(c) == s);
    if s.len() == 1 {
        assert(s == seq![c]);
        decimal_text_is_positional(0, c as int - 48);
    } else {
        let front = s.drop_last();
        assert forall|i: int| 0 <= i < front.len() implies 48 <= (
        #[trigger] front[i]) as int <= 57 by {
            assert(48 <= s[i] as int <= 57);
        }
        digits_without_leading_zero_are_decimal_text(front);
        decimal_text_is_positional(text::digits_value(front), c as int - 48);
    }
}

/// Two characters are the same letter if they are the same character, or an ASCII capital
/// and its small letter; two texts are, if they are so in every place.
pub proof fn letters_by_code_point(a: char, b: char, s: Seq<char>, t: Seq<char>)
    ensures
        text::same_letter(a, b) <==> {
            ||| a as int == b as int
            ||| 65 <= a as int <= 90 && b as int == a as int + 32
            ||| 97 <= a as int <= 122 && b as int == a as int - 32
        },
        text::same_ignoring_case(s, t) <==> s.len() == t.len() && forall|i: int|
            0 <= i < s.len() ==> text::same_letter(#[trigger] s[i], t[i]),
{
}

// ---------------------------------------------------------------------------
// The calendar
// ---------------------------------------------------------------------------
/// Days are counted from the first of January 1970, one for each day, over months of 31,
/// 30, 29 or 28 days. Step by step these distances reach every date.
pub proof fn days_are_counted_from_1970(year: int, month: int, day: int)
    requires
        1 <= month <= 12,
    ensures
        calendar::days_since_epoch(1970, 1, 1) == 0,
        calendar::days_since_epoch(year, month, day + 1) == calendar::days_since_epoch(
            year,
            month,
            day,
        ) + 1,
        month < 12 ==> calendar::days_since_epoch(year, month + 1, 1)
            == calendar::days_since_epoch(year, month, 1) + (if month == 2 {
            if (year % 4 == 0 && year % 100 != 0) || year % 400 == 0 {
                29int
            } else {
                28
            }
        } else if month == 4 || month == 6 || month == 9 || month == 11 {
            30
        } else {
            31
        }),
        calendar::days_since_epoch(year + 1, 1, 1) == calendar::days_since_epoch(year, 12, 1) + 31,
{
    calendar::lemma_days_before_month(year);
    calendar::lemma_days_before_month(year + 1);
    calendar::lemma_days_before_month(1970);
    calendar::lemma_days_before_year_step(year);
}

/// A month is as long as its first is from the first of the next month, and a leap year is
/// one whose first of January is 366 days from the next; no month has a length but the
/// twelve.
pub proof fn months_and_years_are_as_long_as_their_days(year: int, month: int)
    ensures
        1 <= month < 12 ==> calendar::month_length(year, month) == calendar::days_since_epoch(
            year,
            month + 1,
            1,
        ) - calendar::days_since_epoch(year, month, 1),
        calendar::month_length(year, 12) == 31,
        !(1 <= month <= 12) ==> calendar::month_length(year, month) == 0,
        calendar::days_since_epoch(year + 1, 1, 1) - calendar::days_since_epoch(year, 1, 1) == (
        if calendar::leap_year(year) {
            366int
        } else {
            365
        }),
        calendar::leap_year(year) <==> (year % 4 == 0 && year % 100 != 0) || year % 400 == 0,
{
    calendar::lemma_days_before_month(year);
    calendar::lemma_days_before_month(year + 1);
    calendar::lemma_days_before_year_step(year);
}

/// Whether the calendar has this date, by the numbers.
pub open spec fn on_the_calendar(year: int, month: int, day: int) -> bool {
    &&& 1 <= month <= 12
    &&& 1 <= day <= 31
    &&& (month == 4 || month == 6 || month == 9 || month == 11) ==> day <= 30
    &&& month == 2 ==> day <= 29
    &&& month == 2 && day == 29 ==> (year % 4 == 0 && year % 100 != 0) || year % 400 == 0
}

/// The dates of the calendar are those that the lengths of the months allow.
pub proof fn dates_by_the_numbers(year: int, month: int, day: int)
    ensures
        calendar::valid_date(year, month, day) <==> {
            &&& 1 <= month <= 12
            &&& 1 <= day <= 31
            &&& (month == 4 || month == 6 || month == 9 || month == 11) ==> day <= 30
            &&& month == 2 ==> day <= 29
            &&& month == 2 && day == 29 ==> (year % 4 == 0 && year % 100 != 0) || year % 400 == 0
        },
        calendar::valid_date(year, month, day) <==> on_the_calendar(year, month, day),
{
}

// ---------------------------------------------------------------------------
// The `Retry-After` header
// ---------------------------------------------------------------------------
/// A value is advice in seconds exactly if it is one word, made of digits, that writes a
/// number of 64 bits; the wait is that many thousand million nanoseconds.
pub proof fn seconds_are_read_from_one_run_of_digits(value: Seq<char>, nanos: nat)
    ensures
        advice::advice_of(value) == Some(AdviceView::After { nanos }) <==> {
            let w = text::words(value);
            &&& w.len() == 1
            &&& text::all_digits(w[0])
            &&& text::digits_value(w[0]) <= 18_446_744_073_709_551_615
            &&& nanos == text::digits_value(w[0]) * 1_000_000_000
        },
{
    let t = text::trimmed(value);
    text::lemma_words_trimmed(value);
    if t.len() > 0 && text::all_digits(t) {
        text::lemma_trimmed_digits(value);
    }
    if text::words(value).len() == 1 {
        text::lemma_trimmed_one_word(value);
        assert(t.len() > 0) by {
            if t.len() == 0 {
                assert(text::words(t).len() == 0);
            }
        }
    }
}

/// Advice in seconds is positional: one digit is that many seconds, and a run of digits
/// followed by one more is ten times as many seconds as the run, and that digit more, unless
/// 64 bits do not hold them.
pub proof fn seconds_are_read_positionally(value: Seq<char>, secs: nat, c: char)
    requires
        48 <= c as int <= 57,
        value.len() > 0,
        forall|i: int| 0 <= i < value.len() ==> 48 <= (#[trigger] value[i]) as int <= 57,
        advice::advice_of(value) == Some(AdviceView::After { nanos: secs * 1_000_000_000 }),
    ensures
        advice::advice_of(seq![c]) == Some(
            AdviceView::After { nanos: ((c as int - 48) * 1_000_000_000) as nat },
        ),
        advice::advice_of(value.push(c)) == (if 10 * secs + (c as int - 48)
            <= 18_446_744_073_709_551_615 {
            Some(
                AdviceView::After {
                    nanos: ((10 * secs + (c as int - 48)) * 1_000_000_000) as nat,
                },
            )
        } else {
            None
        }),
{
    digits_are_positional(value, c);
    digits_are_positional(seq![c], c);
    assert forall|i: int| 0 <= i < value.push(c).len() implies text::digit(
        #[trigger] value.push(c)[i],
    ) by {
        if i < value.len() {
            assert(value.push(c)[i] == value[i]);
        }
    }
    laws::digits_are_delta_seconds(value);
    laws::digits_are_delta_seconds(seq![c]);
    laws::digits_are_delta_seconds(value.push(c));
}

/// A month goes by three letters, in any case, and no month by anything else.
pub proof fn months_go_by_three_letters(name: Seq<char>)
    ensures
        ({
            let goes_by = |a: char, b: char, c: char|
                name.len() == 3 && text::same_letter(a, name[0]) && text::same_letter(b, name[1])
                    && text::same_letter(c, name[2]);
            &&& advice::month_number(name) == Some(1int) <==> goes_by('J', 'a', 'n')
            &&& advice::month_number(name) == Some(2int) <==> goes_by('F', 'e', 'b')
            &&& advice::month_number(name) == Some(3int) <==> goes_by('M', 'a', 'r')
            &&& advice::month_number(name) == Some(4int) <==> goes_by('A', 'p', 'r')
            &&& advice::month_number(name) == Some(5int) <==> goes_by('M', 'a', 'y')
            &&& advice::month_number(name) == Some(6int) <==> goes_by('J', 'u', 'n')
            &&& advice::month_number(name) == Some(7int) <==> goes_by('J', 'u', 'l')
            &&& advice::month_number(name) == Some(8int) <==> goes_by('A', 'u', 'g')
            &&& advice::month_number(name) == Some(9int) <==> goes_by('S', 'e', 'p')
            &&& advice::month_number(name) == Some(10int) <==> goes_by('O', 'c', 't')
            &&& advice::month_number(name) == Some(11int) <==> goes_by('N', 'o', 'v')
            &&& advice::month_number(name) == Some(12int) <==> goes_by('D', 'e', 'c')
        }),
        advice::month_number(name) matches Some(month) ==> 1 <= month <= 12,
{
    lemma_month_number(name, 1);
    lemma_month_number(name, 2);
    lemma_month_number(name, 3);
    lemma_month_number(name, 4);
    lemma_month_number(name, 5);
    lemma_month_number(name, 6);
    lemma_month_number(name, 7);
    lemma_month_number(name, 8);
    lemma_month_number(name, 9);
    lemma_month_number(name, 10);
    lemma_month_number(name, 11);
    lemma_month_number(name, 12);
    lemma_month_number_found(name, 1);
}

proof fn lemma_month_number(name: Seq<char>, month: int)
    requires
        1 <= month <= 12,
    ensures
        ({
            let m = advice::month_name(month);
            advice::month_number(name) == Some(month) <==> name.len() == 3 && text::same_letter(
                m[0],
                name[0],
            ) && text::same_letter(m[1], name[1]) && text::same_letter(m[2], name[2])
        }),
{
    let m = advice::month_name(month);
    lemma_month_number_found(name, 1);
    if text::same_ignoring_case(m, name) {
        laws::months_are_known_in_any_case(month, name);
        assert(text::same_letter(m[0], name[0]));
        assert(text::same_letter(m[1], name[1]));
        assert(text::same_letter(m[2], name[2]));
    }
}

proof fn lemma_month_number_found(name: Seq<char>, from: int)
    ensures
        advice::month_number_from(name, from) matches Some(month) ==> from <= month <= 12
            && text::same_ignoring_case(advice::month_name(month), name),
    decreases 13 - from,
{
    if from <= 12 {
        lemma_month_number_found(name, from + 1);
    }
}

/// A value is read as a date exactly if it is six words: any first word, the day in digits,
/// the month's three letters, the year in digits, hour, minute and second in digits with
/// colons between them, and `GMT` in any letter case; and if the calendar has the date, the
/// year is 1970 or later, the time of day exists, and 64 bits hold the seconds. Those are
/// 86,400 for each day since the first of January 1970, 3,600 for each hour, 60 for each
/// minute, and one for each second.
pub proof fn dates_are_read_from_six_words(value: Seq<char>, unix_secs: nat)
    ensures
        advice::advice_of(value) == Some(AdviceView::At { unix_secs }) <==> {
            let w = text::words(value);
            let t = text::fields(w[4], ':');
            let year = text::digits_value(w[3]) as int;
            let month = advice::month_number(w[2]);
            let day = text::digits_value(w[1]) as int;
            let hour = text::digits_value(t[0]) as int;
            let min = text::digits_value(t[1]) as int;
            let sec = text::digits_value(t[2]) as int;
            &&& w.len() == 6
            &&& w[1].len() > 0 && text::all_digits(w[1])
            &&& month is Some
            &&& w[3].len() > 0 && text::all_digits(w[3])
            &&& t.len() == 3
            &&& t[0].len() > 0 && text::all_digits(t[0])
            &&& t[1].len() > 0 && text::all_digits(t[1])
            &&& t[2].len() > 0 && text::all_digits(t[2])
            &&& w[5].len() == 3
            &&& text::same_letter(w[5][0], 'G')
            &&& text::same_letter(w[5][1], 'M')
            &&& text::same_letter(w[5][2], 'T')
            &&& year >= 1970
            &&& on_the_calendar(year, month->0, day)
            &&& hour <= 23 && min <= 59 && sec <= 60
            &&& unix_secs == calendar::days_since_epoch(year, month->0, day) * 86_400 + hour * 3_600
                + min * 60 + sec
            &&& unix_secs <= 18_446_744_073_709_551_615
        },
{
    let w = text::words(value);
    let t = text::trimmed(value);
    let gmt = seq!['G', 'M', 'T'];
    text::lemma_words_trimmed(value);
    if t.len() == 0 {
        assert(text::words(t).len() == 0);
    } else if text::all_digits(t) {
        text::lemma_trimmed_digits(value);
    }
    if w.len() == 6 {
        lemma_zone(w[5]);
        lemma_month_number_found(w[2], 1);
        let year = text::digits_value(w[3]) as int;
        let day = text::digits_value(w[1]) as int;
        if advice::month_number(w[2]) is Some {
            let month = advice::month_number(w[2])->0;
            dates_by_the_numbers(year, month, day);
            if calendar::valid_date(year, month, day) {
                calendar::lemma_date_within_year(year, month, day);
                calendar::lemma_days_before_year_bounds(year);
            }
        }
    }
}

proof fn lemma_zone(zone: Seq<char>)
    ensures
        text::same_ignoring_case(zone, seq!['G', 'M', 'T']) <==> zone.len() == 3
            && text::same_letter(zone[0], 'G') && text::same_letter(zone[1], 'M')
            && text::same_letter(zone[2], 'T'),
{
    let gmt = seq!['G', 'M', 'T'];
    if text::same_ignoring_case(zone, gmt) {
        assert(text::same_letter(zone[0], gmt[0]));
        assert(text::same_letter(zone[1], gmt[1]));
        assert(text::same_letter(zone[2], gmt[2]));
    }
}

/// A month's three letters, as RFC 9110 has them.
pub open spec fn month_letters(month: int) -> Seq<char> {
    if month == 1 {
        seq!['J', 'a', 'n']
    } else if month == 2 {
        seq!['F', 'e', 'b']
    } else if month == 3 {
        seq!['M', 'a', 'r']
    } else if month == 4 {
        seq!['A', 'p', 'r']
    } else if month == 5 {
        seq!['M', 'a', 'y']
    } else if month == 6 {
        seq!['J', 'u', 'n']
    } else if month == 7 {
        seq!['J', 'u', 'l']
    } else if month == 8 {
        seq!['A', 'u', 'g']
    } else if month == 9 {
        seq!['S', 'e', 'p']
    } else if month == 10 {
        seq!['O', 'c', 't']
    } else if month == 11 {
        seq!['N', 'o', 'v']
    } else {
        seq!['D', 'e', 'c']
    }
}

/// A date and a time of day, character by character: `Sun, 06 Nov 1994 08:49:37 GMT`.
pub open spec fn fixdate(
    weekday: Seq<char>,
    year: int,
    month: int,
    day: int,
    hour: int,
    min: int,
    sec: int,
) -> Seq<char> {
    weekday + seq![' ', (48 + day / 10) as char, (48 + day % 10) as char, ' '] + month_letters(
        month,
    ) + seq![
        ' ',
        (48 + year / 1000) as char,
        (48 + year / 100 % 10) as char,
        (48 + year / 10 % 10) as char,
        (48 + year % 10) as char,
        ' ',
        (48 + hour / 10) as char,
        (48 + hour % 10) as char,
        ':',
        (48 + min / 10) as char,
        (48 + min % 10) as char,
        ':',
        (48 + sec / 10) as char,
        (48 + sec % 10) as char,
        ' ',
        'G',
        'M',
        'T',
    ]
}

proof fn lemma_fixdate(
    weekday: Seq<char>,
    year: int,
    month: int,
    day: int,
    hour: int,
    min: int,
    sec: int,
)
    requires
        0 <= year <= 9999,
        1 <= month <= 12,
        0 <= day <= 99,
        0 <= hour <= 99,
        0 <= min <= 99,
        0 <= sec <= 99,
    ensures
        fixdate(weekday, year, month, day, hour, min, sec) == laws::imf_fixdate(
            weekday,
            year,
            month,
            day,
            hour,
            min,
            sec,
        ),
{
    lemma_two_characters(day);
    lemma_two_characters(hour);
    lemma_two_characters(min);
    lemma_two_characters(sec);
    lemma_four_characters(year);
    assert(month_letters(month) == advice::month_name(month));
    lemma_fixdate_parts(
        weekday,
        laws::two_digits(day),
        month_letters(month),
        laws::four_digits(year),
        laws::two_digits(hour),
        laws::two_digits(min),
        laws::two_digits(sec),
    );
}

proof fn lemma_two_characters(n: int)
    requires
        0 <= n <= 99,
    ensures
        laws::two_digits(n) == seq![(48 + n / 10) as char, (48 + n % 10) as char],
{
}

proof fn lemma_four_characters(n: int)
    requires
        0 <= n <= 9999,
    ensures
        laws::four_digits(n) == seq![
            (48 + n / 1000) as char,
            (48 + n / 100 % 10) as char,
            (48 + n / 10 % 10) as char,
            (48 + n % 10) as char,
        ],
{
    assert(n / 100 / 10 == n / 1000);
    assert(n % 100 / 10 == n / 10 % 10);
    assert(n % 100 % 10 == n % 10);
    lemma_two_characters(n / 100);
    lemma_two_characters(n % 100);
}

/// The same characters, put together word by word and all at once.
#[verifier::spinoff_prover]
proof fn lemma_fixdate_parts(
    weekday: Seq<char>,
    day: Seq<char>,
    month: Seq<char>,
    year: Seq<char>,
    hour: Seq<char>,
    min: Seq<char>,
    sec: Seq<char>,
)
    requires
        day.len() == 2,
        year.len() == 4,
        hour.len() == 2,
        min.len() == 2,
        sec.len() == 2,
    ensures
        laws::date_text(
            weekday,
            day,
            month,
            year,
            laws::time_text(hour, min, sec),
            seq!['G', 'M', 'T'],
        ) == weekday + seq![' ', day[0], day[1], ' '] + month + seq![
            ' ',
            year[0],
            year[1],
            year[2],
            year[3],
            ' ',
            hour[0],
            hour[1],
            ':',
            min[0],
            min[1],
            ':',
            sec[0],
            sec[1],
            ' ',
            'G',
            'M',
            'T',
        ],
{
    let gmt = seq!['G', 'M', 'T'];
    let time = laws::time_text(hour, min, sec);
    assert(time == seq![hour[0], hour[1], ':', min[0], min[1], ':', sec[0], sec[1]]);
    let from_time = time + seq![' '] + gmt;
    let from_year = year + seq![' '] + from_time;
    let tail = seq![' '] + from_year;
    assert(tail == seq![
        ' ',
        year[0],
        year[1],
        year[2],
        year[3],
        ' ',
        hour[0],
        hour[1],
        ':',
        min[0],
        min[1],
        ':',
        sec[0],
        sec[1],
        ' ',
        'G',
        'M',
        'T',
    ]);
    let from_month = month + seq![' '] + from_year;
    assert(from_month == month + tail);
    let head = seq![' ', day[0], day[1], ' '];
    let from_day = day + seq![' '] + from_month;
    assert(seq![' '] + from_day == head + from_month);
    assert(weekday + seq![' '] + from_day == weekday + (seq![' '] + from_day));
    assert(weekday + (head + (month + tail)) == weekday + head + month + tail);
}

/// Every date and time of day that can be written in those characters is read as the seconds
/// from the first of January 1970, and as nothing else, or is declined: for a date that is not
/// on the calendar or lies before 1970, and for a time of day that does not exist.
pub proof fn fixdates_are_read_in_seconds(
    weekday: Seq<char>,
    year: int,
    month: int,
    day: int,
    hour: int,
    min: int,
    sec: int,
)
    requires
        weekday.len() > 0,
        text::unbroken(weekday),
        0 <= year <= 9999,
        1 <= month <= 12,
        0 <= day <= 99,
        0 <= hour <= 99,
        0 <= min <= 99,
        0 <= sec <= 99,
    ensures
        advice::advice_of(fixdate(weekday, year, month, day, hour, min, sec)) == (if year >= 1970
            && on_the_calendar(year, month, day) && hour <= 23 && min <= 59 && sec <= 60 {
            Some(
                AdviceView::At {
                    unix_secs: (calendar::days_since_epoch(year, month, day) * 86_400 + hour * 3_600
                        + min * 60 + sec) as nat,
                },
            )
        } else {
            None
        }),
{
    lemma_fixdate(weekday, year, month, day, hour, min, sec);
    laws::lemma_four_digits(year);
    laws::lemma_two_digits(day);
    laws::lemma_two_digits(hour);
    laws::lemma_two_digits(min);
    laws::lemma_two_digits(sec);
    laws::http_dates_are_read(
        weekday,
        laws::two_digits(day),
        month,
        advice::month_name(month),
        laws::four_digits(year),
        laws::two_digits(hour),
        laws::two_digits(min),
        laws::two_digits(sec),
        seq!['G', 'M', 'T'],
    );
    dates_by_the_numbers(year, month, day);
    if calendar::valid_date(year, month, day) {
        calendar::lemma_date_within_year(year, month, day);
        calendar::lemma_days_before_year_bounds(year + 1);
    }
}

/// On one date, each hour later is 3,600 seconds more, each minute later 60 more and each
/// second later one more, from midnight, which is 86,400 seconds for each day since the first
/// of January 1970.
pub proof fn clock_counts_hours_minutes_and_seconds(
    weekday: Seq<char>,
    year: int,
    month: int,
    day: int,
    hour: int,
    min: int,
    sec: int,
    other_hour: int,
    other_min: int,
    other_sec: int,
)
    requires
        weekday.len() > 0,
        text::unbroken(weekday),
        1970 <= year <= 9999,
        on_the_calendar(year, month, day),
        0 <= hour <= 23,
        0 <= min <= 59,
        0 <= sec <= 60,
        0 <= other_hour <= 23,
        0 <= other_min <= 59,
        0 <= other_sec <= 60,
    ensures
        ({
            let midnight = advice::advice_of(fixdate(weekday, year, month, day, 0, 0, 0));
            let one = advice::advice_of(fixdate(weekday, year, month, day, hour, min, sec));
            let other = advice::advice_of(
                fixdate(weekday, year, month, day, other_hour, other_min, other_sec),
            );
            &&& midnight matches Some(AdviceView::At { .. })
            &&& one matches Some(AdviceView::At { .. })
            &&& other matches Some(AdviceView::At { .. })
            &&& midnight->0->unix_secs == 86_400 * calendar::days_since_epoch(year, month, day)
            &&& other->0->unix_secs - one->0->unix_secs == 3_600 * (other_hour - hour) + 60 * (
            other_min - min) + (other_sec - sec)
        }),
{
    fixdates_are_read_in_seconds(weekday, year, month, day, 0, 0, 0);
    fixdates_are_read_in_seconds(weekday, year, month, day, hour, min, sec);
    fixdates_are_read_in_seconds(weekday, year, month, day, other_hour, other_min, other_sec);
    calendar::lemma_days_before_year_bounds(year);
    dates_by_the_numbers(year, month, day);
    calendar::lemma_date_within_year(year, month, day);
}

/// At one time of day, the next day is 86,400 seconds more, through the ends of months and of
/// years and through leap days; and the first second of 1970 is zero.
pub proof fn calendar_counts_days_of_86400_seconds(
    weekday: Seq<char>,
    year: int,
    month: int,
    day: int,
    hour: int,
    min: int,
    sec: int,
)
    requires
        weekday.len() > 0,
        text::unbroken(weekday),
        1970 <= year <= 9998,
        on_the_calendar(year, month, day),
        0 <= hour <= 23,
        0 <= min <= 59,
        0 <= sec <= 60,
    ensures
        ({
            let today = advice::advice_of(fixdate(weekday, year, month, day, hour, min, sec));
            let tomorrow = advice::advice_of(
                if on_the_calendar(year, month, day + 1) {
                    fixdate(weekday, year, month, day + 1, hour, min, sec)
                } else if month < 12 {
                    fixdate(weekday, year, month + 1, 1, hour, min, sec)
                } else {
                    fixdate(weekday, year + 1, 1, 1, hour, min, sec)
                },
            );
            &&& today matches Some(AdviceView::At { .. })
            &&& tomorrow matches Some(AdviceView::At { .. })
            &&& tomorrow->0->unix_secs == today->0->unix_secs + 86_400
        }),
        advice::advice_of(fixdate(weekday, 1970, 1, 1, 0, 0, 0)) == Some(
            AdviceView::At { unix_secs: 0 },
        ),
{
    fixdates_are_read_in_seconds(weekday, 1970, 1, 1, 0, 0, 0);
    fixdates_are_read_in_seconds(weekday, year, month, day, hour, min, sec);
    dates_by_the_numbers(year, month, day);
    dates_by_the_numbers(year, month, day + 1);
    laws::next_date_is_next_day(year, month, day);
    calendar::lemma_days_before_year_bounds(year);
    calendar::lemma_date_within_year(year, month, day);
    days_are_counted_from_1970(1970, 1, 1);
    if on_the_calendar(year, month, day + 1) {
        fixdates_are_read_in_seconds(weekday, year, month, day + 1, hour, min, sec);
    } else if month < 12 {
        fixdates_are_read_in_seconds(weekday, year, month + 1, 1, hour, min, sec);
    } else {
        fixdates_are_read_in_seconds(weekday, year + 1, 1, 1, hour, min, sec);
    }
}

// ---------------------------------------------------------------------------
// Clocks and delays
// ---------------------------------------------------------------------------
/// A clock reading at or after the Unix epoch is taken as the seconds that have passed in
/// full by then: at most its nanoseconds, and less than a second short of them. A reading
/// before the epoch is taken as zero.
pub proof fn clock_is_taken_in_full_seconds(t: SystemTime)
    ensures
        time::unix_nanos(t) >= 0 ==> time::unix_secs_of(t) * 1_000_000_000 <= time::unix_nanos(t),
        time::unix_nanos(t) >= 0 ==> time::unix_secs_of(t) * 1_000_000_000 > time::unix_nanos(t)
            - 1_000_000_000,
        time::unix_nanos(t) < 0 ==> time::unix_secs_of(t) == 0,
{
}

/// Advice to come back at a date, taken against a clock reading: the wait is whole seconds,
/// and ends at the date or less than a second after it; it is none if the date has come.
pub proof fn waiting_ends_within_a_second_of_the_date(unix_secs: nat, t: SystemTime)
    ensures
        ({
            let due = unix_secs * 1_000_000_000;
            let now = time::unix_nanos(t);
            let wait = (AdviceView::At { unix_secs }).delay_nanos(time::unix_secs_of(t));
            &&& wait % 1_000_000_000 == 0
            &&& now < 0 ==> wait == due
            &&& 0 <= now < due ==> due <= now + wait < due + 1_000_000_000
            &&& 0 <= due <= now ==> wait == 0
        }),
{
}

/// Advice of seconds is a length of time, and advice of a date is that date; a header that is
/// there is its text.
pub proof fn advice_is_what_it_holds(d: Duration, unix_secs: u64, value: &str)
    ensures
        RetryAdvice::After(d)@ == (AdviceView::After { nanos: time::duration_nanos(d) }),
        (RetryAdvice::At { unix_secs })@ == (AdviceView::At { unix_secs: unix_secs as nat }),
        advice::advice_view(Some(RetryAdvice::After(d))) == Some(
            AdviceView::After { nanos: time::duration_nanos(d) },
        ),
        advice::advice_view(Some(RetryAdvice::At { unix_secs })) == Some(
            AdviceView::At { unix_secs: unix_secs as nat },
        ),
        advice::advice_view(None) is None,
        verdict::header_text(Some(value)) == Some(value@),
        verdict::header_text(None) is None,
{
}

// ---------------------------------------------------------------------------
// Judgments
// ---------------------------------------------------------------------------
/// The classes of status codes, and the codes worth retrying, by number.
pub proof fn classes_by_number(code: u16)
    ensures
        status::success_code(code) <==> 200 <= code <= 299,
        status::client_error_code(code) <==> 400 <= code <= 499,
        status::server_error_code(code) <==> 500 <= code <= 599,
        status::transient_code(code) <==> code == 408 || code == 429 || code == 500 || code == 502
            || code == 503 || code == 504,
{
}

/// The verdict on every status, by number, with and without a signal that the refusal is
/// temporary.
pub proof fn verdicts_by_number(code: u16, signalled: bool)
    ensures
        ({
            let v = verdict::verdict_of(code, signalled);
            let settled = 200 <= code <= 299 || code == 304 || code == 404 || code == 410 || 500
                <= code <= 599;
            &&& v == Verdict::Success <==> 200 <= code <= 299
            &&& v == Verdict::Unchanged <==> code == 304
            &&& v == Verdict::Absent <==> code == 404 || code == 410
            &&& v == Verdict::ServerError <==> 500 <= code <= 599
            &&& v == Verdict::Throttled <==> code == 429 || (signalled && !settled)
            &&& v == Verdict::Unauthorized <==> !signalled && (code == 401 || code == 403)
            &&& v == Verdict::Other <==> !signalled && !settled && code != 401 && code != 403
                && code != 429
            &&& verdict::settled_code(code) <==> settled
        }),
{
}

/// A judgment of a status and a header: the code is the one that was handed in, the advice is
/// what the header's text gives, and the verdict is the one of that code, with a signal
/// exactly if there is advice.
pub proof fn judgments_hold_what_was_handed_in(
    code: u16,
    retry_after: Option<Seq<char>>,
    signalled: bool,
)
    ensures
        ({
            let j = verdict::judged(code, retry_after);
            let advised = retry_after is Some && advice::advice_of(retry_after->0) is Some;
            let settled = 200 <= code <= 299 || code == 304 || code == 404 || code == 410 || 500
                <= code <= 599;
            &&& j.code == code
            &&& retry_after is None ==> j.advice is None
            &&& retry_after matches Some(value) ==> j.advice == advice::advice_of(value)
            &&& j.verdict == Verdict::Success <==> 200 <= code <= 299
            &&& j.verdict == Verdict::Unchanged <==> code == 304
            &&& j.verdict == Verdict::Absent <==> code == 404 || code == 410
            &&& j.verdict == Verdict::ServerError <==> 500 <= code <= 599
            &&& j.verdict == Verdict::Throttled <==> code == 429 || (advised && !settled)
            &&& j.verdict == Verdict::Unauthorized <==> !advised && (code == 401 || code == 403)
            &&& j.transient() <==> code == 408 || code == 429 || code == 500 || code == 502 || code
                == 503 || code == 504 || (advised && !settled)
        }),
        ({
            let j = verdict::judged_signalled(code, signalled);
            &&& j.code == code
            &&& j.advice is None
            &&& j.verdict == verdict::verdict_of(code, signalled)
        }),
{
}

/// Whether to retry, for every judgment: if it is a throttle, or the code is one of six.
pub proof fn retrying_by_number(j: JudgmentView)
    ensures
        j.transient() <==> j.verdict == Verdict::Throttled || j.code == 408 || j.code == 429
            || j.code == 500 || j.code == 502 || j.code == 503 || j.code == 504,
{
}

/// The delay of a judged response is that of the advice which its header gives, for every
/// status and every verdict, and there is none only if the header gives no advice: seconds
/// are waited for as they are, and a date until it comes.
pub proof fn delay_is_that_of_the_header(
    code: u16,
    other_code: u16,
    retry_after: Option<Seq<char>>,
    now: int,
)
    ensures
        ({
            let delay = verdict::judged(code, retry_after).delay_nanos(now);
            let advised = retry_after is Some && advice::advice_of(retry_after->0) is Some;
            &&& delay is Some <==> advised
            &&& advised ==> match advice::advice_of(retry_after->0)->0 {
                AdviceView::After { nanos } => delay == Some(nanos),
                AdviceView::At { unix_secs } => {
                    &&& unix_secs <= now ==> delay == Some(0nat)
                    &&& unix_secs > now ==> now * 1_000_000_000 + delay->0 == unix_secs
                        * 1_000_000_000
                },
            }
            &&& delay == verdict::judged(other_code, retry_after).delay_nanos(now)
        }),
{
}

/// The delay of any judgment depends on its advice alone, and is there if the advice is.
pub proof fn delay_depends_on_the_advice_alone(j: JudgmentView, k: JudgmentView, now: int)
    ensures
        j.delay_nanos(now) is Some <==> j.advice is Some,
        j.advice == k.advice ==> j.delay_nanos(now) == k.delay_nanos(now),
        j.advice matches Some(AdviceView::After { nanos }) ==> j.delay_nanos(now) == Some(nanos),
        j.advice matches Some(AdviceView::At { unix_secs }) ==> {
            &&& unix_secs <= now ==> j.delay_nanos(now) == Some(0nat)
            &&& unix_secs > now ==> now * 1_000_000_000 + j.delay_nanos(now)->0 == unix_secs
                * 1_000_000_000
        },
{
}

/// The name of every verdict, letter by letter.
pub proof fn verdicts_by_name(v: Verdict)
    ensures
        v.name() == (match v {
            Verdict::Success => seq!['s', 'u', 'c', 'c', 'e', 's', 's'],
            Verdict::Unchanged => seq!['u', 'n', 'c', 'h', 'a', 'n', 'g', 'e', 'd'],
            Verdict::Absent => seq!['a', 'b', 's', 'e', 'n', 't'],
            Verdict::Unauthorized => seq![
                'u',
                'n',
                'a',
                'u',
                't',
                'h',
                'o',
                'r',
                'i',
                'z',
                'e',
                'd',
            ],
            Verdict::Throttled => seq!['t', 'h', 'r', 'o', 't', 't', 'l', 'e', 'd'],
            Verdict::ServerError => seq![
                's',
                'e',
                'r',
                'v',
                'e',
                'r',
                '-',
                'e',
                'r',
                'r',
                'o',
                'r',
            ],
            Verdict::Other => seq!['o', 't', 'h', 'e', 'r'],
        }),
{
    reveal_strlit("success");
    reveal_strlit("unchanged");
    reveal_strlit("absent");
    reveal_strlit("unauthorized");
    reveal_strlit("throttled");
    reveal_strlit("server-error");
    reveal_strlit("other");
}

} // verus!
