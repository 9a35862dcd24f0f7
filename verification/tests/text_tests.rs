use hack_toolchain::text::chars::{is_whitespace, same_chars, string_from, sub_chars, to_chars};
use hack_toolchain::text::decimal::{decimal_string, is_numeral, parse_u32, NumberError};
use hack_toolchain::text::search::{find_char, find_comment};
use hack_toolchain::text::words::{join_strings, next_word, take_word, trim_span};

#[test]
fn whitespace_characters_are_recognised() {
    for c in [
        ' ', '\t', '\n', '\u{b}', '\u{c}', '\r', '\u{85}', '\u{a0}', '\u{1680}', '\u{2000}',
        '\u{200a}', '\u{2028}', '\u{2029}', '\u{202f}', '\u{205f}', '\u{3000}',
    ] {
        assert!(is_whitespace(c));
    }
    for c in ['a', '/', '0', '\u{8}', '\u{e}', '\u{200b}', '\u{feff}', '\u{180e}'] {
        assert!(!is_whitespace(c));
    }
}

#[test]
fn whitespace_agrees_with_the_standard_library_on_every_character() {
    for n in 0..=0x10FFFFu32 {
        if let Some(c) = char::from_u32(n) {
            assert_eq!(is_whitespace(c), c.is_whitespace());
        }
    }
}

#[test]
fn characters_round_trip_through_a_vector() {
    let v = to_chars("D=M+1");
    assert_eq!(v, vec!['D', '=', 'M', '+', '1']);
    assert_eq!(string_from(&v, 2, 5), "M+1");
    assert_eq!(string_from(&v, 0, 0), "");
    assert_eq!(sub_chars(&v, 1, 3), vec!['=', 'M']);
    assert_eq!(to_chars("é\u{3000}x").len(), 3);
}

#[test]
fn same_chars_compares_whole_texts() {
    let v = to_chars("JGT");
    assert!(same_chars(&v, "JGT"));
    assert!(!same_chars(&v, "JG"));
    assert!(!same_chars(&v, "JGTE"));
    assert!(!same_chars(&v, "JGE"));
    assert!(!same_chars(&v, ""));
    assert!(same_chars(&Vec::new(), ""));
}

#[test]
fn decimal_numerals() {
    assert_eq!(decimal_string(0), "0");
    assert_eq!(decimal_string(7), "7");
    assert_eq!(decimal_string(10), "10");
    assert_eq!(decimal_string(16384), "16384");
    assert_eq!(decimal_string(4294967295), "4294967295");
    assert_eq!(decimal_string(u64::MAX), "18446744073709551615");
}

fn parse(text: &str) -> Result<u32, NumberError> {
    parse_u32(&to_chars(text))
}

#[test]
fn decimal_numbers_parse() {
    assert_eq!(parse("0"), Ok(0));
    assert_eq!(parse("000"), Ok(0));
    assert_eq!(parse("123"), Ok(123));
    assert_eq!(parse("+123"), Ok(123));
    assert_eq!(parse("4294967295"), Ok(4294967295));
    assert_eq!(parse("0000000004294967295"), Ok(4294967295));
}

#[test]
fn what_is_no_decimal_number_is_told_apart() {
    assert_eq!(parse(""), Err(NumberError::Empty));
    assert_eq!(parse("+"), Err(NumberError::InvalidDigit));
    assert_eq!(parse("-"), Err(NumberError::InvalidDigit));
    assert_eq!(parse("-5"), Err(NumberError::InvalidDigit));
    assert_eq!(parse("++5"), Err(NumberError::InvalidDigit));
    assert_eq!(parse("5+"), Err(NumberError::InvalidDigit));
    assert_eq!(parse("12a"), Err(NumberError::InvalidDigit));
    assert_eq!(parse(" 1"), Err(NumberError::InvalidDigit));
    assert_eq!(parse("١٢"), Err(NumberError::InvalidDigit));
    assert_eq!(parse("4294967296"), Err(NumberError::Overflow));
    assert_eq!(parse("42949672950"), Err(NumberError::Overflow));
    assert_eq!(parse("99999999999x"), Err(NumberError::Overflow));
    assert_eq!(parse("4294967295x"), Err(NumberError::InvalidDigit));
    assert_eq!(parse("9x99999999999"), Err(NumberError::InvalidDigit));
}

#[test]
fn parsing_agrees_with_the_standard_library() {
    for text in [
        "", "+", "-", "0", "+0", "-0", "1", "+1", "-1", "42", "4294967295", "4294967296",
        "42949672950", "99999999999x", "4294967295x", "x", "1x", "x1", "1 ", " 1", "0x10", "1_000",
        "00000000000000000001", "+-1", "１２",
    ] {
        let expected = text.parse::<u32>().map_err(|e| e.to_string());
        let actual = parse(text).map_err(|e| e.to_string());
        assert_eq!(actual, expected, "for {:?}", text);
    }
}

#[test]
fn searches_find_the_first_place() {
    let v = to_chars("ab=cd=e;f");
    assert_eq!(find_char(&v, 0, '='), 2);
    assert_eq!(find_char(&v, 3, '='), 5);
    assert_eq!(find_char(&v, 6, '='), 9);
    assert_eq!(find_char(&v, 0, ';'), 7);
    assert_eq!(find_char(&v, 9, ';'), 9);
    assert_eq!(find_comment(&to_chars("a/b//c//d")), 3);
    assert_eq!(find_comment(&to_chars("//")), 0);
    assert_eq!(find_comment(&to_chars("a/b/")), 4);
    assert_eq!(find_comment(&to_chars("")), 0);
    assert_eq!(find_comment(&to_chars("///")), 0);
}

#[test]
fn words_are_runs_without_white_space() {
    let v = to_chars("  push  constant 7 ");
    assert_eq!(next_word(&v, 0), (2, 6));
    assert_eq!(next_word(&v, 6), (8, 16));
    assert_eq!(next_word(&v, 16), (17, 18));
    assert_eq!(next_word(&v, 18), (19, 19));
    assert_eq!(take_word(&v, 0), Some((to_chars("push"), 6)));
    assert_eq!(take_word(&v, 3), Some((to_chars("ush"), 6)));
    assert_eq!(take_word(&v, 18), None);
    assert_eq!(take_word(&to_chars(""), 0), None);
}

#[test]
fn trimming_keeps_inner_white_space() {
    let v = to_chars("  a b \t");
    assert_eq!(trim_span(&v), (2, 5));
    let v = to_chars("   ");
    let (start, end) = trim_span(&v);
    assert_eq!(start, end);
    assert_eq!(trim_span(&to_chars("x")), (0, 1));
    assert_eq!(trim_span(&to_chars("")), (0, 0));
}

#[test]
fn lines_are_joined_by_line_feeds() {
    let none: Vec<String> = Vec::new();
    assert_eq!(join_strings(&none), "");
    assert_eq!(join_strings(&vec!["a".to_string()]), "a");
    assert_eq!(
        join_strings(&vec!["a".to_string(), "".to_string(), "b".to_string()]),
        "a\n\nb"
    );
}

#[test]
fn number_errors_have_messages() {
    assert_eq!(
        NumberError::Empty.to_string(),
        "cannot parse integer from empty string"
    );
    assert_eq!(NumberError::InvalidDigit.to_string(), "invalid digit found in string");
    assert_eq!(
        NumberError::Overflow.to_string(),
        "number too large to fit in target type"
    );
}

#[test]
fn numerals_are_digits_after_at_most_one_plus_sign() {
    for text in ["0", "007", "+1", "4294967296", "99999999999999999999999"] {
        assert!(is_numeral(&to_chars(text)), "{:?}", text);
    }
    for text in ["", "+", "-1", "++1", "1+", "12a", "a12", " 1", "1 ", "١٢"] {
        assert!(!is_numeral(&to_chars(text)), "{:?}", text);
    }
}
