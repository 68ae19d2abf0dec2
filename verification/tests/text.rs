use telemetry_graph::graph::data::Sample;
use telemetry_graph::text::numbers::{
    parse_extended, parse_fixed, parse_index, parse_sample, parse_u64, push_decimal,
};
use telemetry_graph::text::{eq_ignore_case, is_space_byte, split_words, starts_with, to_lower, trim};

fn words_of(line: &str) -> Vec<String> {
    split_words(line.as_bytes())
        .into_iter()
        .map(|w| String::from_utf8(w).unwrap())
        .collect()
}

fn decimal_of(n: usize) -> String {
    let mut out: Vec<u8> = Vec::new();
    push_decimal(&mut out, n);
    String::from_utf8(out).unwrap()
}

#[test]
fn white_space_is_what_ascii_calls_so() {
    for b in [b' ', b'\t', b'\n', b'\r', 11u8, 12u8] {
        assert!(is_space_byte(b));
    }
    for b in [0u8, 8, 14, 31, 33, b'a', b'0', 0xA0, 0x85, 255] {
        assert!(!is_space_byte(b));
    }
}

#[test]
fn words_are_the_runs_between_white_space() {
    assert_eq!(words_of("set smoothing 0 0.5\n"), vec!["set", "smoothing", "0", "0.5"]);
    assert_eq!(words_of("  a \t bc\r\n d  "), vec!["a", "bc", "d"]);
    assert_eq!(words_of("one"), vec!["one"]);
    assert_eq!(words_of(""), Vec::<String>::new());
    assert_eq!(words_of(" \t\r\n"), Vec::<String>::new());
    assert_eq!(words_of("x"), vec!["x"]);
    assert_eq!(words_of(" x"), vec!["x"]);
    assert_eq!(words_of("x "), vec!["x"]);
}

#[test]
fn words_keep_bytes_that_are_not_ascii() {
    assert_eq!(split_words(&[0xC3, 0xA9, b' ', 0xFF]), vec![vec![0xC3u8, 0xA9], vec![0xFFu8]]);
}

#[test]
fn trim_removes_white_space_at_both_ends() {
    assert_eq!(trim(b"  hello   world \r\n"), b"hello   world".to_vec());
    assert_eq!(trim(b"x"), b"x".to_vec());
    assert_eq!(trim(b""), Vec::<u8>::new());
    assert_eq!(trim(b" \t "), Vec::<u8>::new());
    assert_eq!(trim(b"a b"), b"a b".to_vec());
}

#[test]
fn letters_are_compared_without_case() {
    assert_eq!(to_lower(b'A'), b'a');
    assert_eq!(to_lower(b'Z'), b'z');
    assert_eq!(to_lower(b'a'), b'a');
    assert_eq!(to_lower(b'@'), b'@');
    assert_eq!(to_lower(b'['), b'[');
    assert_eq!(to_lower(b'0'), b'0');
    assert!(eq_ignore_case(b"ToGgLe", b"toggle"));
    assert!(eq_ignore_case(b"", b""));
    assert!(!eq_ignore_case(b"toggle", b"toggl"));
    assert!(!eq_ignore_case(b"toggle", b"toggla"));
    assert!(!eq_ignore_case(b"@", b"`"));
}

#[test]
fn prefixes_are_compared_with_case() {
    assert!(starts_with(b"Received: 1", b"Received: "));
    assert!(starts_with(b"abc", b""));
    assert!(starts_with(b"abc", b"abc"));
    assert!(!starts_with(b"received: 1", b"Received: "));
    assert!(!starts_with(b"ab", b"abc"));
}

#[test]
fn unsigned_numbers_are_digits_after_an_optional_plus() {
    assert_eq!(parse_u64(b"0"), Some(0));
    assert_eq!(parse_u64(b"136"), Some(136));
    assert_eq!(parse_u64(b"+7"), Some(7));
    assert_eq!(parse_u64(b"007"), Some(7));
    assert_eq!(parse_u64(b"18446744073709551615"), Some(u64::MAX));
    assert_eq!(parse_u64(b"18446744073709551616"), None);
    assert_eq!(parse_u64(b"99999999999999999999999"), None);
    assert_eq!(parse_u64(b""), None);
    assert_eq!(parse_u64(b"+"), None);
    assert_eq!(parse_u64(b"-1"), None);
    assert_eq!(parse_u64(b"-0"), None);
    assert_eq!(parse_u64(b"1.0"), None);
    assert_eq!(parse_u64(b"12a"), None);
    assert_eq!(parse_u64(b"++1"), None);
    assert_eq!(parse_u64(b"1_000"), None);
}

#[test]
fn an_index_is_an_unsigned_number_that_fits() {
    assert_eq!(parse_index(b"0"), Some(0));
    assert_eq!(parse_index(b"99"), Some(99));
    assert_eq!(parse_index(b"+3"), Some(3));
    assert_eq!(parse_index(format!("{}", usize::MAX).as_bytes()), Some(usize::MAX));
    assert_eq!(parse_index(b"340282366920938463463374607431768211456"), None);
    assert_eq!(parse_index(b"x"), None);
    assert_eq!(parse_index(b"-1"), None);
}

#[test]
fn fixed_point_numbers_count_millionths() {
    assert_eq!(parse_fixed(b"0.5"), Some(500_000));
    assert_eq!(parse_fixed(b"-91.0"), Some(-91_000_000));
    assert_eq!(parse_fixed(b"18.45"), Some(18_450_000));
    assert_eq!(parse_fixed(b"995.85"), Some(995_850_000));
    assert_eq!(parse_fixed(b"300.045200"), Some(300_045_200));
    assert_eq!(parse_fixed(b"1"), Some(1_000_000));
    assert_eq!(parse_fixed(b"+2"), Some(2_000_000));
    assert_eq!(parse_fixed(b"5."), Some(5_000_000));
    assert_eq!(parse_fixed(b".5"), Some(500_000));
    assert_eq!(parse_fixed(b"-.25"), Some(-250_000));
    assert_eq!(parse_fixed(b"0"), Some(0));
    assert_eq!(parse_fixed(b"-0"), Some(0));
    assert_eq!(parse_fixed(b"000.000001"), Some(1));
    assert_eq!(parse_fixed(b"0.123456"), Some(123_456));
}

#[test]
fn fixed_point_numbers_drop_digits_past_the_sixth() {
    assert_eq!(parse_fixed(b"0.1234567"), Some(123_456));
    assert_eq!(parse_fixed(b"0.9999999999"), Some(999_999));
    assert_eq!(parse_fixed(b"-0.0000009"), Some(0));
    assert_eq!(parse_fixed(b"-1.0000019"), Some(-1_000_001));
}

#[test]
fn fixed_point_numbers_stop_at_the_ends_of_the_range() {
    assert_eq!(parse_fixed(b"9223372036854.775807"), Some(i64::MAX));
    assert_eq!(parse_fixed(b"9223372036854.775808"), Some(i64::MAX));
    assert_eq!(parse_fixed(b"9223372036854.775806"), Some(i64::MAX - 1));
    assert_eq!(parse_fixed(b"-9223372036854.775807"), Some(i64::MIN + 1));
    assert_eq!(parse_fixed(b"-9223372036854.775808"), Some(i64::MIN));
    assert_eq!(parse_fixed(b"-9223372036854.775809"), Some(i64::MIN));
    assert_eq!(parse_fixed(b"99999999999999999999999999999999999999999999"), Some(i64::MAX));
    assert_eq!(parse_fixed(b"-99999999999999999999999999999999999999999999.5"), Some(i64::MIN));
    assert_eq!(parse_fixed(b"9223372036855"), Some(i64::MAX));
}

#[test]
fn fixed_point_numbers_take_an_exponent() {
    assert_eq!(parse_fixed(b"5e-1"), Some(500_000));
    assert_eq!(parse_fixed(b"1.5e2"), Some(150_000_000));
    assert_eq!(parse_fixed(b"1E3"), Some(1_000_000_000));
    assert_eq!(parse_fixed(b"1e+3"), Some(1_000_000_000));
    assert_eq!(parse_fixed(b"1e0"), Some(1_000_000));
    assert_eq!(parse_fixed(b"1e-0"), Some(1_000_000));
    assert_eq!(parse_fixed(b"-2.5e1"), Some(-25_000_000));
    assert_eq!(parse_fixed(b"+.5e1"), Some(5_000_000));
    assert_eq!(parse_fixed(b"5.e1"), Some(50_000_000));
    assert_eq!(parse_fixed(b"1e-6"), Some(1));
    assert_eq!(parse_fixed(b"1e-7"), Some(0));
    assert_eq!(parse_fixed(b"25e-7"), Some(2));
    assert_eq!(parse_fixed(b"-25e-7"), Some(-2));
    assert_eq!(parse_fixed(b"123456789e-9"), Some(123_456));
    assert_eq!(parse_fixed(b"0.000123456789e3"), Some(123_456));
    assert_eq!(parse_fixed(b"1000000000000000000000000000000e-30"), Some(1_000_000));
    assert_eq!(parse_fixed(b"0.000000000000000000000000000001e30"), Some(1_000_000));
    assert_eq!(parse_fixed(b"1e007"), Some(10_000_000_000_000));
}

#[test]
fn exponents_stop_at_the_ends_of_the_range() {
    assert_eq!(parse_fixed(b"1e12"), Some(1_000_000_000_000_000_000));
    assert_eq!(parse_fixed(b"9e12"), Some(9_000_000_000_000_000_000));
    assert_eq!(parse_fixed(b"1e13"), Some(i64::MAX));
    assert_eq!(parse_fixed(b"-1e13"), Some(i64::MIN));
    assert_eq!(parse_fixed(b"1e30"), Some(i64::MAX));
    assert_eq!(parse_fixed(b"1e99999999999999999999999999999999999999"), Some(i64::MAX));
    assert_eq!(parse_fixed(b"-1e99999999999999999999999999999999999999"), Some(i64::MIN));
    assert_eq!(parse_fixed(b"0e99999999999999999999999999999999999999"), Some(0));
    assert_eq!(parse_fixed(b"0.0e400"), Some(0));
    assert_eq!(parse_fixed(b"1e-99999999999999999999999999999999999999"), Some(0));
    assert_eq!(parse_fixed(b"9999999999999999999999e-99999999999999999999999999999"), Some(0));
    assert_eq!(parse_fixed(b"9223372036854.775807e0"), Some(i64::MAX));
    assert_eq!(parse_fixed(b"9223372036854775807e-6"), Some(i64::MAX));
    assert_eq!(parse_fixed(b"9223372036854775806e-6"), Some(i64::MAX - 1));
}

#[test]
fn fixed_point_numbers_reject_anything_else() {
    for word in [
        "", "+", "-", ".", "+.", "-.", "abc", "1a", "a1", "1.2.3", "1..2", "..", "0x10", "1,5",
        "--1", "+-1", "1-", "1+", "1 ", "inf", "nan", "1.5f", "e", "e5", "1e", "1e+", "1e-",
        "1E", ".e1", "+e1", "1e1.5", "1e1e1", "1ee1", "1e+-5", "1e 5", "1e5x", "1x5", "1.2.3e4",
    ] {
        assert_eq!(parse_fixed(word.as_bytes()), None, "{}", word);
    }
}

#[test]
fn samples_are_numbers_or_names_of_what_is_not_finite() {
    assert_eq!(parse_sample(b"-89.5"), Some(Sample::Finite(-89_500_000)));
    assert_eq!(parse_sample(b"7"), Some(Sample::Finite(7_000_000)));
    for word in ["inf", "INF", "+inf", "-inf", "Infinity", "-INFINITY", "nan", "NaN", "+nan", "-NaN"] {
        assert_eq!(parse_sample(word.as_bytes()), Some(Sample::NonFinite), "{}", word);
    }
    assert_eq!(parse_sample(b"1e5"), Some(Sample::Finite(100_000_000_000)));
    assert_eq!(parse_sample(b"-8.95E1"), Some(Sample::Finite(-89_500_000)));
    for word in ["", "-", "in", "infinit", "nano", "dBm", "1e", "+-inf", "i nf"] {
        assert_eq!(parse_sample(word.as_bytes()), None, "{}", word);
    }
}

#[test]
fn infinities_are_the_ends_of_the_range_and_nan_is_zero() {
    assert_eq!(parse_extended(b"inf"), Some(i64::MAX));
    assert_eq!(parse_extended(b"+INF"), Some(i64::MAX));
    assert_eq!(parse_extended(b"Infinity"), Some(i64::MAX));
    assert_eq!(parse_extended(b"-inf"), Some(i64::MIN));
    assert_eq!(parse_extended(b"-infinity"), Some(i64::MIN));
    assert_eq!(parse_extended(b"0.75"), Some(750_000));
    assert_eq!(parse_extended(b"-3"), Some(-3_000_000));
    assert_eq!(parse_extended(b"nan"), Some(0));
    assert_eq!(parse_extended(b"-NaN"), Some(0));
    assert_eq!(parse_extended(b"5e-1"), Some(500_000));
    assert_eq!(parse_extended(b"na"), None);
    assert_eq!(parse_extended(b"infinit"), None);
    assert_eq!(parse_extended(b""), None);
}

#[test]
fn decimal_digits_of_a_number() {
    assert_eq!(decimal_of(0), "0");
    assert_eq!(decimal_of(7), "7");
    assert_eq!(decimal_of(10), "10");
    assert_eq!(decimal_of(99), "99");
    assert_eq!(decimal_of(1_000_000), "1000000");
    assert_eq!(decimal_of(usize::MAX), format!("{}", usize::MAX));
    let mut out: Vec<u8> = b"ERR no graph ".to_vec();
    push_decimal(&mut out, 42);
    assert_eq!(out, b"ERR no graph 42".to_vec());
}

#[test]
fn decimal_digits_read_back_as_the_number() {
    for n in [0usize, 1, 9, 10, 11, 99, 100, 12345, usize::MAX - 1, usize::MAX] {
        assert_eq!(parse_index(decimal_of(n).as_bytes()), Some(n));
    }
}
