//! Reading header text: white space, words, decimal numbers, letter case.
//!
//! Text is handled as a sequence of characters. Each executable function is the
//! counterpart of a specification function that says what it returns.

use vstd::prelude::*;

verus! {

/// Whether `c` has the Unicode property `White_Space`.
pub open spec fn white_space(c: char) -> bool {
    ||| '\u{9}' <= c <= '\u{d}'
    ||| c == ' '
    ||| c == '\u{85}'
    ||| c == '\u{a0}'
    ||| c == '\u{1680}'
    ||| '\u{2000}' <= c <= '\u{200a}'
    ||| c == '\u{2028}'
    ||| c == '\u{2029}'
    ||| c == '\u{202f}'
    ||| c == '\u{205f}'
    ||| c == '\u{3000}'
}

/// Whether `s` is nothing but white space.
pub open spec fn blank(s: Seq<char>) -> bool {
    forall|i: int| 0 <= i < s.len() ==> white_space(#[trigger] s[i])
}

/// Whether `s` holds no white space.
pub open spec fn unbroken(s: Seq<char>) -> bool {
    forall|i: int| 0 <= i < s.len() ==> !white_space(#[trigger] s[i])
}

/// `s` without the white space at its start.
pub open spec fn trimmed_start(s: Seq<char>) -> Seq<char>
    decreases s.len(),
{
    if s.len() > 0 && white_space(s.first()) {
        trimmed_start(s.drop_first())
    } else {
        s
    }
}

/// `s` without the white space at its end.
pub open spec fn trimmed_end(s: Seq<char>) -> Seq<char>
    decreases s.len(),
{
    if s.len() > 0 && white_space(s.last()) {
        trimmed_end(s.drop_last())
    } else {
        s
    }
}

/// `s` without the white space around it.
pub open spec fn trimmed(s: Seq<char>) -> Seq<char> {
    trimmed_end(trimmed_start(s))
}

/// How many characters stand before the first white space of `s`.
pub open spec fn word_length(s: Seq<char>) -> nat
    decreases s.len(),
{
    if s.len() > 0 && !white_space(s.first()) {
        1 + word_length(s.drop_first())
    } else {
        0
    }
}

/// A word is no longer than the text it begins.
pub proof fn lemma_word_length(s: Seq<char>)
    ensures
        word_length(s) <= s.len(),
        unbroken(s.take(word_length(s) as int)),
        word_length(s) < s.len() ==> white_space(s[word_length(s) as int]),
    decreases s.len(),
{
    if s.len() > 0 && !white_space(s.first()) {
        let rest = s.drop_first();
        let n = word_length(rest) as int;
        lemma_word_length(rest);
        assert forall|i: int| 0 <= i < n + 1 implies !white_space(
            #[trigger] s.take(n + 1)[i],
        ) by {
            if i > 0 {
                assert(!white_space(rest.take(n)[i - 1]));
            }
        }
    }
}

/// The words of `s`: its longest runs of characters other than white space, in
/// order.
pub open spec fn words(s: Seq<char>) -> Seq<Seq<char>>
    decreases s.len(),
{
    if s.len() == 0 {
        seq![]
    } else if white_space(s.first()) {
        words(s.drop_first())
    } else {
        proof {
            lemma_word_length(s);
        }
        seq![s.take(word_length(s) as int)] + words(s.skip(word_length(s) as int))
    }
}

/// How many characters stand before the first `sep` of `s`.
pub open spec fn field_length(s: Seq<char>, sep: char) -> nat
    decreases s.len(),
{
    if s.len() > 0 && s.first() != sep {
        1 + field_length(s.drop_first(), sep)
    } else {
        0
    }
}

/// A field is no longer than the text it begins.
pub proof fn lemma_field_length(s: Seq<char>, sep: char)
    ensures
        field_length(s, sep) <= s.len(),
        field_length(s, sep) < s.len() ==> s[field_length(s, sep) as int] == sep,
    decreases s.len(),
{
    if s.len() > 0 && s.first() != sep {
        lemma_field_length(s.drop_first(), sep);
    }
}

/// The fields that every `sep` in `s` parts, empty ones included: always one
/// more than there are separators.
pub open spec fn fields(s: Seq<char>, sep: char) -> Seq<Seq<char>>
    decreases s.len(),
{
    if field_length(s, sep) < s.len() {
        seq![s.take(field_length(s, sep) as int)] + fields(
            s.skip(field_length(s, sep) as int + 1),
            sep,
        )
    } else {
        seq![s]
    }
}

/// Whether `c` is an ASCII decimal digit.
pub open spec fn digit(c: char) -> bool {
    '0' <= c <= '9'
}

/// Whether `s` is made of decimal digits alone.
pub open spec fn all_digits(s: Seq<char>) -> bool {
    forall|i: int| 0 <= i < s.len() ==> digit(#[trigger] s[i])
}

/// The number that the decimal digits `s` write.
pub open spec fn digits_value(s: Seq<char>) -> nat
    decreases s.len(),
{
    if s.len() == 0 {
        0
    } else {
        digits_value(s.drop_last()) * 10 + ((s.last() as int - '0' as int) as nat)
    }
}

/// The number that `s` writes, if `s` is one or more decimal digits and the
/// number is at most `max`.
pub open spec fn digits_number(s: Seq<char>, max: nat) -> Option<nat> {
    if s.len() > 0 && all_digits(s) && digits_value(s) <= max {
        Some(digits_value(s))
    } else {
        None
    }
}

/// Whether `a` and `b` are the same character, ASCII letters compared without
/// regard to case.
pub open spec fn same_letter(a: char, b: char) -> bool {
    ||| a == b
    ||| 'A' <= a <= 'Z' && b as int == a as int + 32
    ||| 'a' <= a <= 'z' && b as int == a as int - 32
}

/// Whether `a` and `b` are the same text, ASCII letters compared without regard
/// to case.
pub open spec fn same_ignoring_case(a: Seq<char>, b: Seq<char>) -> bool {
    a.len() == b.len() && forall|i: int| 0 <= i < a.len() ==> same_letter(#[trigger] a[i], b[i])
}

/// Whether `c` has the Unicode property `White_Space`.
#[must_use]
pub fn is_white_space(c: char) -> (b: bool)
    ensures
        b == white_space(c),
{
    ('\u{9}' <= c && c <= '\u{d}') || c == ' ' || c == '\u{85}' || c == '\u{a0}' || c
        == '\u{1680}' || ('\u{2000}' <= c && c <= '\u{200a}') || c == '\u{2028}' || c
        == '\u{2029}' || c == '\u{202f}' || c == '\u{205f}' || c == '\u{3000}'
}

/// The characters of a string.
#[must_use]
pub fn chars_of(s: &str) -> (chars: Vec<char>)
    ensures
        chars@ == s@,
{
    let mut chars: Vec<char> = Vec::new();
    for c in it: s.chars()
        invariant
            it.seq() == s@,
            chars@ == it.seq().take(it.index()),
    {
        chars.push(c);
    }
    chars
}

/// `s` without the white space around it.
#[must_use]
pub fn trim(s: &[char]) -> (t: &[char])
    ensures
        t@ == trimmed(s@),
{
    let mut start: usize = 0;
    assert(s@.skip(0) == s@);
    while start < s.len() && is_white_space(s[start])
        invariant
            start <= s.len(),
            trimmed_start(s@) == trimmed_start(s@.skip(start as int)),
        decreases s.len() - start,
    {
        assert(s@.skip(start as int).drop_first() == s@.skip(start as int + 1));
        start += 1;
    }
    let mut end: usize = s.len();
    assert(s@.subrange(start as int, end as int) == s@.skip(start as int));
    while end > start && is_white_space(s[end - 1])
        invariant
            start <= end <= s.len(),
            trimmed(s@) == trimmed_end(s@.subrange(start as int, end as int)),
        decreases end,
    {
        assert(s@.subrange(start as int, end as int).drop_last() == s@.subrange(
            start as int,
            end as int - 1,
        ));
        end -= 1;
    }
    &s[start..end]
}

/// What a list of borrowed texts holds.
pub open spec fn texts(list: Seq<&[char]>) -> Seq<Seq<char>> {
    Seq::new(list.len(), |i: int| list[i]@)
}

/// The words of `s`, in order.
#[must_use]
pub fn split_words<'a>(s: &'a [char]) -> (list: Vec<&'a [char]>)
    ensures
        texts(list@) == words(s@),
        list@.len() == words(s@).len(),
        forall|i: int| 0 <= i < list@.len() ==> (#[trigger] list@[i])@ == words(s@)[i],
{
    let mut list: Vec<&'a [char]> = Vec::new();
    let mut at: usize = 0;
    assert(s@.skip(0) == s@);
    assert(texts(list@) + words(s@) == words(s@));
    while at < s.len()
        invariant
            at <= s.len(),
            texts(list@) + words(s@.skip(at as int)) == words(s@),
        decreases s.len() - at,
    {
        let ghost rest = s@.skip(at as int);
        if is_white_space(s[at]) {
            assert(rest.drop_first() == s@.skip(at as int + 1));
            at += 1;
        } else {
            let mut end: usize = at;
            assert(s@.skip(end as int) == rest);
            while end < s.len() && !is_white_space(s[end])
                invariant
                    at <= end <= s.len(),
                    rest == s@.skip(at as int),
                    word_length(rest) == end - at + word_length(s@.skip(end as int)),
                decreases s.len() - end,
            {
                assert(s@.skip(end as int).drop_first() == s@.skip(end as int + 1));
                end += 1;
            }
            proof {
                lemma_word_length(rest);
                assert(word_length(rest) == end - at);
                assert(rest.take(end - at) == s@.subrange(at as int, end as int));
                assert(rest.skip(end - at) == s@.skip(end as int));
            }
            let ghost before = list@;
            list.push(&s[at..end]);
            assert(texts(list@) == texts(before).push(s@.subrange(at as int, end as int)));
            assert(texts(list@) + words(s@.skip(end as int)) == texts(before) + words(rest));
            at = end;
        }
    }
    assert(s@.skip(at as int).len() == 0);
    assert(texts(list@) + words(s@.skip(at as int)) == texts(list@));
    assert forall|i: int| 0 <= i < list@.len() implies (#[trigger] list@[i])@ == words(s@)[i] by {
        assert(texts(list@)[i] == list@[i]@);
    }
    list
}

/// The fields that every `sep` in `s` parts, empty ones included.
#[must_use]
pub fn split_fields<'a>(s: &'a [char], sep: char) -> (list: Vec<&'a [char]>)
    ensures
        texts(list@) == fields(s@, sep),
        list@.len() == fields(s@, sep).len(),
        forall|i: int| 0 <= i < list@.len() ==> (#[trigger] list@[i])@ == fields(s@, sep)[i],
{
    let mut list: Vec<&'a [char]> = Vec::new();
    let mut at: usize = 0;
    let mut end: usize = 0;
    assert(s@.skip(0) == s@);
    assert(texts(list@) + fields(s@, sep) == fields(s@, sep));
    while end < s.len()
        invariant
            at <= end <= s.len(),
            texts(list@) + fields(s@.skip(at as int), sep) == fields(s@, sep),
            field_length(s@.skip(at as int), sep) == end - at + field_length(
                s@.skip(end as int),
                sep,
            ),
        decreases s.len() - end,
    {
        let ghost rest = s@.skip(at as int);
        assert(s@.skip(end as int).drop_first() == s@.skip(end as int + 1));
        if s[end] == sep {
            proof {
                assert(field_length(rest, sep) == end - at);
                assert(rest.take(end - at) == s@.subrange(at as int, end as int));
                assert(rest.skip(end - at + 1) == s@.skip(end as int + 1));
            }
            let ghost before = list@;
            list.push(&s[at..end]);
            assert(texts(list@) == texts(before).push(s@.subrange(at as int, end as int)));
            assert(texts(list@) + fields(s@.skip(end as int + 1), sep) == texts(before) + fields(
                rest,
                sep,
            ));
            at = end + 1;
        }
        end += 1;
    }
    proof {
        let rest = s@.skip(at as int);
        assert(field_length(rest, sep) == rest.len());
        assert(rest == s@.subrange(at as int, end as int));
    }
    let ghost before = list@;
    list.push(&s[at..end]);
    assert(texts(list@) == texts(before).push(s@.subrange(at as int, end as int)));
    assert(texts(list@) == texts(before) + fields(s@.skip(at as int), sep));
    assert forall|i: int| 0 <= i < list@.len() implies (#[trigger] list@[i])@ == fields(
        s@,
        sep,
    )[i] by {
        assert(texts(list@)[i] == list@[i]@);
    }
    list
}

/// Whether `c` is an ASCII decimal digit.
#[must_use]
pub fn is_digit(c: char) -> (b: bool)
    ensures
        b == digit(c),
{
    '0' <= c && c <= '9'
}

/// Whether `s` is made of decimal digits alone.
#[must_use]
pub fn is_all_digits(s: &[char]) -> (b: bool)
    ensures
        b == all_digits(s@),
{
    for i in 0..s.len()
        invariant
            all_digits(s@.take(i as int)),
    {
        if !is_digit(s[i]) {
            return false;
        }
        assert(s@.take(i as int + 1) == s@.take(i as int).push(s@[i as int]));
        assert forall|j: int| 0 <= j < i + 1 implies digit(#[trigger] s@.take(i as int + 1)[j]) by {
            if j < i {
                assert(digit(s@.take(i as int)[j]));
            }
        }
    }
    assert(s@.take(s@.len() as int) == s@);
    true
}

/// The first digits of a number write no larger a number than all of them.
pub proof fn lemma_digits_value_prefix(s: Seq<char>, n: int)
    requires
        0 <= n <= s.len(),
    ensures
        digits_value(s.take(n)) <= digits_value(s),
    decreases s.len(),
{
    if n == s.len() {
        assert(s.take(n) == s);
    } else {
        lemma_digits_value_prefix(s.drop_last(), n);
        assert(s.drop_last().take(n) == s.take(n));
    }
}

/// The number that `s` writes, if `s` is one or more decimal digits and the
/// number is at most `max`.
#[must_use]
pub fn parse_digits(s: &[char], max: u64) -> (n: Option<u64>)
    ensures
        match n {
            Some(n) => digits_number(s@, max as nat) == Some(n as nat),
            None => digits_number(s@, max as nat) is None,
        },
        match n {
            Some(n) => s@.len() > 0 && all_digits(s@) && n == digits_value(s@) && n <= max,
            None => s@.len() == 0 || !all_digits(s@) || digits_value(s@) > max,
        },
{
    if s.len() == 0 {
        return None;
    }
    let mut value: u64 = 0;
    for i in 0..s.len()
        invariant
            value <= max,
            value == digits_value(s@.take(i as int)),
            forall|j: int| 0 <= j < i ==> digit(#[trigger] s@[j]),
    {
        if !is_digit(s[i]) {
            return None;
        }
        let d: u64 = s[i] as u64 - '0' as u64;
        proof {
            assert(s@.take(i as int + 1).drop_last() == s@.take(i as int));
            assert(digits_value(s@.take(i as int + 1)) == value * 10 + d);
            lemma_digits_value_prefix(s@, i as int + 1);
        }
        value = match value.checked_mul(10) {
            Some(tens) => match tens.checked_add(d) {
                Some(sum) => sum,
                None => return None,
            },
            None => return None,
        };
        if value > max {
            return None;
        }
    }
    assert(s@.take(s@.len() as int) == s@);
    Some(value)
}

/// Whether `a` and `b` are the same character, ASCII letters compared without
/// regard to case.
#[must_use]
pub fn is_same_letter(a: char, b: char) -> (same: bool)
    ensures
        same == same_letter(a, b),
{
    a == b || ('A' <= a && a <= 'Z' && b as u32 == a as u32 + 32) || ('a' <= a && a <= 'z' && b
        as u32 == a as u32 - 32)
}

/// Whether `a` and `b` are the same text, ASCII letters compared without regard
/// to case.
#[must_use]
pub fn eq_ignoring_case(a: &[char], b: &[char]) -> (same: bool)
    ensures
        same == same_ignoring_case(a@, b@),
{
    if a.len() != b.len() {
        return false;
    }
    for i in 0..a.len()
        invariant
            a@.len() == b@.len(),
            forall|j: int| 0 <= j < i ==> same_letter(#[trigger] a@[j], b@[j]),
    {
        if !is_same_letter(a[i], b[i]) {
            return false;
        }
    }
    true
}

/// The character of a decimal digit.
pub open spec fn digit_char(d: int) -> char {
    ('0' as int + d) as char
}

/// `n` in decimal, without leading zeros.
pub open spec fn decimal(n: nat) -> Seq<char>
    decreases n,
{
    if n < 10 {
        seq![digit_char(n as int)]
    } else {
        decimal(n / 10).push(digit_char(n as int % 10))
    }
}

/// A decimal digit as text.
fn digit_text(d: u64) -> (s: &'static str)
    requires
        d < 10,
    ensures
        s@ == seq![digit_char(d as int)],
{
    proof {
        reveal_strlit("0");
        reveal_strlit("1");
        reveal_strlit("2");
        reveal_strlit("3");
        reveal_strlit("4");
        reveal_strlit("5");
        reveal_strlit("6");
        reveal_strlit("7");
        reveal_strlit("8");
        reveal_strlit("9");
    }
    match d {
        0 => "0",
        1 => "1",
        2 => "2",
        3 => "3",
        4 => "4",
        5 => "5",
        6 => "6",
        7 => "7",
        8 => "8",
        _ => "9",
    }
}

/// `n` in decimal, without leading zeros.
#[must_use]
pub fn decimal_string(n: u64) -> (s: String)
    ensures
        s@ == decimal(n as nat),
    decreases n,
{
    let mut s: String = if n < 10 {
        String::new()
    } else {
        decimal_string(n / 10)
    };
    s.append(digit_text(n % 10));
    s
}

/// The word that begins a text ends with the text's first part, or runs on into
/// the second.
pub proof fn lemma_word_length_concat(a: Seq<char>, b: Seq<char>)
    ensures
        word_length(a + b) == (if word_length(a) < a.len() {
            word_length(a)
        } else {
            a.len() + word_length(b)
        }),
    decreases a.len(),
{
    lemma_word_length(a);
    if a.len() == 0 {
        assert(a + b == b);
    } else {
        assert((a + b).drop_first() == a.drop_first() + b);
        lemma_word_length_concat(a.drop_first(), b);
    }
}

/// A text without white space is one word.
pub proof fn lemma_word_length_unbroken(s: Seq<char>)
    requires
        unbroken(s),
    ensures
        word_length(s) == s.len(),
{
    lemma_word_length(s);
}

/// White space has no words in it.
pub proof fn lemma_words_blank(s: Seq<char>)
    requires
        blank(s),
    ensures
        words(s) == Seq::<Seq<char>>::empty(),
    decreases s.len(),
{
    if s.len() > 0 {
        assert(white_space(s[0]));
        lemma_words_blank(s.drop_first());
    }
}

/// A text that has no words is nothing but white space.
pub proof fn lemma_no_words(s: Seq<char>)
    requires
        words(s).len() == 0,
    ensures
        blank(s),
    decreases s.len(),
{
    if s.len() > 0 {
        assert(white_space(s.first()));
        lemma_no_words(s.drop_first());
        assert forall|i: int| 0 <= i < s.len() implies white_space(#[trigger] s[i]) by {
            if i > 0 {
                assert(white_space(s.drop_first()[i - 1]));
            }
        }
    }
}

/// White space before a text adds no words.
pub proof fn lemma_words_after_blank(p: Seq<char>, s: Seq<char>)
    requires
        blank(p),
    ensures
        words(p + s) == words(s),
    decreases p.len(),
{
    if p.len() == 0 {
        assert(p + s == s);
    } else {
        assert(white_space(p[0]));
        assert((p + s).drop_first() == p.drop_first() + s);
        lemma_words_after_blank(p.drop_first(), s);
    }
}

/// White space after a text adds no words.
pub proof fn lemma_words_before_blank(s: Seq<char>, q: Seq<char>)
    requires
        blank(q),
    ensures
        words(s + q) == words(s),
    decreases s.len(),
{
    if s.len() == 0 {
        assert(s + q == q);
        lemma_words_blank(q);
    } else if white_space(s.first()) {
        assert((s + q).drop_first() == s.drop_first() + q);
        lemma_words_before_blank(s.drop_first(), q);
    } else {
        let n = word_length(s) as int;
        lemma_word_length(s);
        lemma_word_length_concat(s, q);
        assert(word_length(q) == 0) by {
            if q.len() > 0 {
                assert(white_space(q[0]));
            }
        }
        assert((s + q).take(n) == s.take(n));
        assert((s + q).skip(n) == s.skip(n) + q);
        lemma_words_before_blank(s.skip(n), q);
    }
}

/// A text without white space, alone, is its own one word.
pub proof fn lemma_one_word(w: Seq<char>)
    requires
        w.len() > 0,
        unbroken(w),
    ensures
        words(w) == seq![w],
{
    assert(!white_space(w[0]));
    lemma_word_length_unbroken(w);
    assert(w.take(w.len() as int) == w);
    assert(w.skip(w.len() as int) == Seq::<char>::empty());
    assert(words(Seq::<char>::empty()) == Seq::<Seq<char>>::empty());
}

/// A word and white space before a text put that word before its words.
pub proof fn lemma_word_then(w: Seq<char>, space: char, rest: Seq<char>)
    requires
        w.len() > 0,
        unbroken(w),
        white_space(space),
    ensures
        words(w + seq![space] + rest) == seq![w] + words(rest),
{
    let tail = seq![space] + rest;
    let s = w + tail;
    let n = w.len() as int;
    assert(w + seq![space] + rest == s);
    assert(!white_space(w[0]));
    assert(s.first() == w[0]);
    lemma_word_length_unbroken(w);
    lemma_word_length_concat(w, tail);
    assert(word_length(tail) == 0);
    assert(s.take(n) == w);
    assert(s.skip(n) == tail);
    lemma_words_after_blank(seq![space], rest);
}

/// Trimming takes no words away.
pub proof fn lemma_words_trimmed(s: Seq<char>)
    ensures
        words(trimmed(s)) == words(s),
{
    lemma_words_trimmed_start(s);
    lemma_words_trimmed_end(trimmed_start(s));
}

proof fn lemma_words_trimmed_start(s: Seq<char>)
    ensures
        words(trimmed_start(s)) == words(s),
        trimmed_start(s).len() > 0 ==> !white_space(trimmed_start(s).first()),
    decreases s.len(),
{
    if s.len() > 0 && white_space(s.first()) {
        lemma_words_trimmed_start(s.drop_first());
    }
}

proof fn lemma_words_trimmed_end(s: Seq<char>)
    ensures
        words(trimmed_end(s)) == words(s),
        trimmed_end(s).len() > 0 ==> !white_space(trimmed_end(s).last()) && trimmed_end(s).first()
            == s.first(),
    decreases s.len(),
{
    if s.len() > 0 && white_space(s.last()) {
        let q = seq![s.last()];
        assert(s == s.drop_last() + q);
        lemma_words_before_blank(s.drop_last(), q);
        lemma_words_trimmed_end(s.drop_last());
    }
}

/// A trimmed text does not begin or end in white space.
pub proof fn lemma_trimmed_ends(s: Seq<char>)
    ensures
        trimmed(s).len() > 0 ==> !white_space(trimmed(s).first()) && !white_space(
            trimmed(s).last(),
        ),
{
    lemma_words_trimmed_start(s);
    lemma_words_trimmed_end(trimmed_start(s));
}

/// Decimal digits hold no white space.
pub proof fn lemma_digits_unbroken(s: Seq<char>)
    requires
        all_digits(s),
    ensures
        unbroken(s),
{
    assert forall|i: int| 0 <= i < s.len() implies !white_space(#[trigger] s[i]) by {
        assert(digit(s[i]));
    }
}

/// A trimmed text that is one word is that word.
pub proof fn lemma_trimmed_one_word(s: Seq<char>)
    requires
        words(s).len() == 1,
    ensures
        trimmed(s) == words(s)[0],
{
    let t = trimmed(s);
    lemma_words_trimmed(s);
    lemma_trimmed_ends(s);
    assert(t.len() > 0);
    let n = word_length(t) as int;
    lemma_word_length(t);
    assert(words(t) == seq![t.take(n)] + words(t.skip(n)));
    assert(words(t)[0] == t.take(n));
    lemma_no_words(t.skip(n));
    if n < t.len() {
        assert(white_space(t.skip(n)[t.len() - n - 1]));
    }
    assert(t.take(n) == t);
}

/// Trimmed to digits alone, a text has one word: those digits.
pub proof fn lemma_trimmed_digits(s: Seq<char>)
    requires
        trimmed(s).len() > 0,
        all_digits(trimmed(s)),
    ensures
        words(s) == seq![trimmed(s)],
{
    lemma_words_trimmed(s);
    lemma_digits_unbroken(trimmed(s));
    lemma_one_word(trimmed(s));
}

/// A text without the separator is one field.
pub proof fn lemma_one_field(a: Seq<char>, sep: char)
    requires
        forall|i: int| 0 <= i < a.len() ==> #[trigger] a[i] != sep,
    ensures
        fields(a, sep) == seq![a],
{
    lemma_field_length(a, sep);
}

/// A text and a separator before another text put that text before its fields.
pub proof fn lemma_field_then(a: Seq<char>, sep: char, rest: Seq<char>)
    requires
        forall|i: int| 0 <= i < a.len() ==> #[trigger] a[i] != sep,
    ensures
        fields(a + seq![sep] + rest, sep) == seq![a] + fields(rest, sep),
{
    let s = a + seq![sep] + rest;
    lemma_field_length_until(a, sep, rest);
    assert(s.take(a.len() as int) == a);
    assert(s.skip(a.len() as int + 1) == rest);
}

proof fn lemma_field_length_until(a: Seq<char>, sep: char, rest: Seq<char>)
    requires
        forall|i: int| 0 <= i < a.len() ==> #[trigger] a[i] != sep,
    ensures
        field_length(a + seq![sep] + rest, sep) == a.len(),
    decreases a.len(),
{
    let s = a + seq![sep] + rest;
    if a.len() > 0 {
        assert(a[0] != sep);
        assert(s.drop_first() == a.drop_first() + seq![sep] + rest);
        lemma_field_length_until(a.drop_first(), sep, rest);
    }
}

/// Texts that differ only in letter case compare alike with any text, from either
/// side.
pub proof fn lemma_same_ignoring_case(a: Seq<char>, b: Seq<char>, c: Seq<char>)
    requires
        same_ignoring_case(a, b),
    ensures
        same_ignoring_case(a, c) == same_ignoring_case(b, c),
        same_ignoring_case(c, a) == same_ignoring_case(c, b),
{
    if a.len() == c.len() {
        assert forall|i: int| 0 <= i < c.len() implies {
            &&& #[trigger] same_letter(a[i], c[i]) == same_letter(b[i], c[i])
            &&& #[trigger] same_letter(c[i], a[i]) == same_letter(c[i], b[i])
        } by {
            assert(same_letter(a[i], b[i]));
        }
        assert(same_ignoring_case(a, c) <==> forall|i: int|
            0 <= i < c.len() ==> #[trigger] same_letter(a[i], c[i]));
        assert(same_ignoring_case(b, c) <==> forall|i: int|
            0 <= i < c.len() ==> #[trigger] same_letter(b[i], c[i]));
        assert(same_ignoring_case(c, a) <==> forall|i: int|
            0 <= i < c.len() ==> #[trigger] same_letter(c[i], a[i]));
        assert(same_ignoring_case(c, b) <==> forall|i: int|
            0 <= i < c.len() ==> #[trigger] same_letter(c[i], b[i]));
    }
}

/// Written in decimal, a number is one or more digits, which write it.
pub proof fn lemma_decimal(n: nat)
    ensures
        decimal(n).len() > 0,
        all_digits(decimal(n)),
        digits_value(decimal(n)) == n,
    decreases n,
{
    if n < 10 {
        assert(decimal(n).drop_last() == Seq::<char>::empty());
        assert(digits_value(Seq::<char>::empty()) == 0);
    } else {
        lemma_decimal(n / 10);
        assert(decimal(n).drop_last() == decimal(n / 10));
        assert forall|i: int| 0 <= i < decimal(n).len() implies digit(#[trigger] decimal(n)[i]) by {
            if i < decimal(n).len() - 1 {
                assert(digit(decimal(n / 10)[i]));
            }
        }
    }
}

} // verus!
