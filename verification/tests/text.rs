use jpk_reader::text::{chars_of, find_in, parse_unsigned, push_decimal, split_at, split_words, str_eq, str_lt, text_of};

const TEXTS: [&str; 14] =
    ["", "a", "b", "ab", "aa", "A", "a ", "abc", "abd", "\u{e9}", "e\u{301}", "\u{10348}", "\u{ffff}", "z"];

#[test]
fn str_lt_orders_as_str_does() {
    for a in TEXTS {
        for b in TEXTS {
            assert_eq!(str_lt(a, b), a < b, "{a:?} {b:?}");
            assert_eq!(str_eq(a, b), a == b, "{a:?} {b:?}");
        }
    }
}

#[test]
fn chars_and_text_are_inverse() {
    for a in TEXTS {
        let chars = chars_of(a);
        assert_eq!(chars, a.chars().collect::<Vec<char>>());
        assert_eq!(text_of(&chars, 0, chars.len()), a);
    }
    let chars = chars_of("hello");
    assert_eq!(text_of(&chars, 1, 3), "el");
    assert_eq!(text_of(&chars, 2, 2), "");
}

#[test]
fn find_in_gives_the_first_place() {
    let chars = chars_of("a=b=c");
    assert_eq!(find_in(&chars, 0, 5, '='), 1);
    assert_eq!(find_in(&chars, 2, 5, '='), 3);
    assert_eq!(find_in(&chars, 4, 5, '='), 5);
    assert_eq!(find_in(&chars, 0, 1, '='), 1);
    assert_eq!(find_in(&chars, 0, 0, '='), 0);
    assert_eq!(find_in(&chars, 1, 5, '='), 1);
}

#[test]
fn parse_unsigned_holds_the_limit() {
    assert_eq!(parse_unsigned("0", 0), Some(0));
    assert_eq!(parse_unsigned("1", 0), None);
    assert_eq!(parse_unsigned("9", 9), Some(9));
    assert_eq!(parse_unsigned("10", 9), None);
    assert_eq!(parse_unsigned("+10", 10), Some(10));
    assert_eq!(parse_unsigned("18446744073709551615", u64::MAX), Some(u64::MAX));
    assert_eq!(parse_unsigned("18446744073709551616", u64::MAX), None);
    assert_eq!(parse_unsigned("28446744073709551615", u64::MAX), None);
    assert_eq!(parse_unsigned("", u64::MAX), None);
    assert_eq!(parse_unsigned("+", u64::MAX), None);
    assert_eq!(parse_unsigned("5+", u64::MAX), None);
}

#[test]
fn push_decimal_writes_as_std_does() {
    for n in [0u64, 1, 9, 10, 11, 99, 100, 255, 65_535, 4_294_967_296, u64::MAX] {
        let mut out = String::from("n=");
        push_decimal(&mut out, n);
        assert_eq!(out, format!("n={n}"));
        assert_eq!(parse_unsigned(&out[2..], u64::MAX), Some(n));
    }
}

#[test]
fn split_words_splits_as_std_does() {
    for text in ["", " ", "a", " a ", "a b", "a  b\tc\nd\re\u{c}f", "measuredHeight vDeflection ", "a\u{a0}b c"] {
        let expected: Vec<String> = text.split_ascii_whitespace().map(|word| word.to_string()).collect();
        assert_eq!(split_words(text), expected, "{text:?}");
    }
}

#[test]
fn split_at_splits_as_std_does() {
    for text in ["", " ", "a", " a ", "a b", "a  b", "height vDeflection", "a b "] {
        let expected: Vec<String> = text.split(' ').map(|piece| piece.to_string()).collect();
        assert_eq!(split_at(text, ' '), expected, "{text:?}");
    }
}
