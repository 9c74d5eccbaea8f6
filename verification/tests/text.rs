use handan::text::{
    chars_of, decimal_string, eq_ignoring_case, is_all_digits, is_digit, is_white_space,
    parse_digits, split_fields, split_words, trim,
};

const SAMPLES: [&str; 16] = [
    "",
    " ",
    "  \t",
    "a",
    " a ",
    "a b",
    "\u{a0}a\u{2003}\u{2003}b \n",
    "one two  three",
    ":",
    "a:b:c",
    "::",
    "a:",
    ":a",
    "\u{3000}x:y z\u{85}",
    "\u{200b} \u{feff}",
    "Sun, 06 Nov 1994 08:49:37 GMT",
];

/// Every character is or is not white space as the standard library has it.
#[test]
fn white_space_is_that_of_unicode() {
    for code in 0..=0x10_ffff {
        if let Some(c) = char::from_u32(code) {
            assert_eq!(is_white_space(c), c.is_whitespace(), "{c:?}");
            assert_eq!(is_digit(c), c.is_ascii_digit(), "{c:?}");
        }
    }
}

#[test]
fn text_is_split_as_the_standard_library_splits_it() {
    for s in SAMPLES {
        let chars = chars_of(s);
        assert_eq!(chars.iter().collect::<String>(), s);
        assert_eq!(trim(&chars).iter().collect::<String>(), s.trim(), "{s:?}");
        let words: Vec<String> = split_words(&chars).iter().map(|w| w.iter().collect()).collect();
        assert_eq!(words, s.split_whitespace().collect::<Vec<_>>(), "{s:?}");
        let fields: Vec<String> =
            split_fields(&chars, ':').iter().map(|w| w.iter().collect()).collect();
        assert_eq!(fields, s.split(':').collect::<Vec<_>>(), "{s:?}");
    }
}

#[test]
fn digits_are_read_as_the_standard_library_reads_them() {
    for s in [
        "", "+", "-", "0", "-0", "+0", "7", "+7", "-7", "++7", "+-7", "--7", " 7", "7 ", "1_0", "0x1",
        "00000000000000000000000000042", "4294967295", "4294967296", "18446744073709551615",
        "18446744073709551616", "+18446744073709551615", "9223372036854775807",
        "9223372036854775808", "-9223372036854775808", "-9223372036854775809",
        "99999999999999999999999", "1a", "\u{663}",
    ] {
        let chars = chars_of(s);
        let digits = s.bytes().all(|b| b.is_ascii_digit());
        assert_eq!(is_all_digits(&chars), digits, "{s:?}");
        let expected = if digits { s.parse::<u64>().ok() } else { None };
        assert_eq!(parse_digits(&chars, u64::MAX), expected, "{s:?}");
        let narrow = if digits { s.parse::<u32>().ok().map(u64::from) } else { None };
        assert_eq!(parse_digits(&chars, u64::from(u32::MAX)), narrow, "{s:?}");
    }
    assert_eq!(parse_digits(&chars_of("23"), 23), Some(23));
    assert_eq!(parse_digits(&chars_of("24"), 23), None);
}

#[test]
fn ascii_letters_are_compared_without_case() {
    let samples = ["", "GMT", "gmt", "gMt", "GMT ", "GM", "\u{212a}", "k", "K", "@", "`", "[", "{", "\u{e9}", "\u{c9}"];
    for a in samples {
        for b in samples {
            assert_eq!(
                eq_ignoring_case(&chars_of(a), &chars_of(b)),
                a.eq_ignore_ascii_case(b),
                "{a:?} {b:?}"
            );
        }
    }
}

#[test]
fn numbers_are_written_in_decimal() {
    for n in [0, 1, 9, 10, 99, 100, 12_345, u64::MAX] {
        assert_eq!(decimal_string(n), n.to_string());
    }
}
