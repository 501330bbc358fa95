use caser::text::chars_of;
use caser::text::find_char;
use caser::text::push_decimal;
use caser::text::push_integer;
use caser::text::read_digits;
use caser::text::read_integer;
use caser::text::same_text;
use caser::text::slice_of;
use caser::text::split_text;
use caser::text::INTEGER_CAP;

fn chars(text: &str) -> Vec<char> {
    text.chars().collect()
}

#[test]
fn strings_and_their_characters() {
    assert_eq!(chars_of("a;b"), vec!['a', ';', 'b']);
    assert_eq!(chars_of(""), chars(""));
    assert_eq!(chars_of("é=ü"), vec!['é', '=', 'ü']);
    assert!(same_text(&chars("FREQ"), "FREQ"));
    assert!(!same_text(&chars("FREQ"), "FREq"));
    assert!(!same_text(&chars("FREQ"), "FRE"));
    assert!(same_text(&chars(""), ""));
}

#[test]
fn texts_are_cut_at_each_separator() {
    assert_eq!(split_text(&chars("a;bc;d"), ';'), vec![chars("a"), chars("bc"), chars("d")]);
    assert_eq!(split_text(&chars(""), ';'), vec![chars("")]);
    assert_eq!(split_text(&chars(";"), ';'), vec![chars(""), chars("")]);
    assert_eq!(split_text(&chars("a;;b;"), ';'), vec![chars("a"), chars(""), chars("b"), chars("")]);
    assert_eq!(split_text(&chars("a,b"), ';'), vec![chars("a,b")]);
}

#[test]
fn first_occurrence_of_a_character() {
    assert_eq!(find_char(&chars("KEY=a=b"), '='), 3);
    assert_eq!(find_char(&chars("=a"), '='), 0);
    assert_eq!(find_char(&chars("KEY"), '='), 3);
    assert_eq!(find_char(&chars(""), '='), 0);
    assert_eq!(slice_of(&chars("KEY=a=b"), 4, 7), chars("a=b"));
    assert_eq!(slice_of(&chars("KEY=a=b"), 0, 3), chars("KEY"));
    assert_eq!(slice_of(&chars("KEY"), 3, 3), chars(""));
}

#[test]
fn integers_are_read() {
    assert_eq!(read_integer(&chars("0")), Some(0));
    assert_eq!(read_integer(&chars("42")), Some(42));
    assert_eq!(read_integer(&chars("-42")), Some(-42));
    assert_eq!(read_integer(&chars("-0")), Some(0));
    assert_eq!(read_integer(&chars("0042")), Some(42));
    assert_eq!(read_integer(&chars("9999999999")), Some(9_999_999_999));
    assert_eq!(read_integer(&chars("10000000000")), Some(INTEGER_CAP));
    assert_eq!(read_integer(&chars("10000000001")), Some(INTEGER_CAP));
    assert_eq!(read_integer(&chars("123456789012345678901234567890")), Some(INTEGER_CAP));
    assert_eq!(read_integer(&chars("-123456789012345678901234567890")), Some(-INTEGER_CAP));
    assert_eq!(read_integer(&chars("")), None);
    assert_eq!(read_integer(&chars("-")), None);
    assert_eq!(read_integer(&chars("+1")), None);
    assert_eq!(read_integer(&chars("1-")), None);
    assert_eq!(read_integer(&chars("--1")), None);
    assert_eq!(read_integer(&chars("1 ")), None);
    assert_eq!(read_integer(&chars("١")), None);
    assert_eq!(read_digits(&chars("ab12"), 2), Some(12));
    assert_eq!(read_digits(&chars("ab12"), 4), Some(0));
    assert_eq!(read_digits(&chars("ab12"), 1), None);
}

#[test]
fn integers_are_written() {
    let mut out = String::from("n=");
    push_integer(&mut out, 0);
    push_integer(&mut out, -7);
    push_integer(&mut out, 1200);
    assert_eq!(out, "n=0-71200");
    let mut ends = String::new();
    push_integer(&mut ends, i64::MIN);
    ends.push(' ');
    push_integer(&mut ends, i64::MAX);
    assert_eq!(ends, "-9223372036854775808 9223372036854775807");
    let mut natural = String::new();
    push_decimal(&mut natural, u64::MAX);
    assert_eq!(natural, "18446744073709551615");
    for value in [-1000i64, -1, 0, 9, 10, 99, 100, 65535] {
        let mut text = String::new();
        push_integer(&mut text, value);
        assert_eq!(text, value.to_string());
        assert_eq!(read_integer(&chars(&text)), Some(value));
    }
}
