//! Tests of the byte-level scanners and numeric token parsers.

use callipe::scan::{
    parse_decimal_micro, parse_u64, split_fields, split_lines, split_sep, u64_digits,
};

#[test]
fn lines_split_at_newlines_without_a_trailing_empty_line() {
    let lines = split_lines(b"a\nbc\n");
    assert_eq!(lines, vec![b"a".to_vec(), b"bc".to_vec()]);
    assert_eq!(split_lines(b""), Vec::<Vec<u8>>::new());
    assert_eq!(split_lines(b"\n"), vec![b"".to_vec()]);
    assert_eq!(split_lines(b"a\r\nb"), vec![b"a".to_vec(), b"b".to_vec()]);
}

#[test]
fn fields_split_on_blank_runs() {
    let fields = split_fields(b"  a \t bb  c ");
    assert_eq!(fields, vec![b"a".to_vec(), b"bb".to_vec(), b"c".to_vec()]);
    assert_eq!(split_fields(b" \t "), Vec::<Vec<u8>>::new());
}

#[test]
fn separator_split_keeps_empty_parts() {
    let parts = split_sep(b"a//b", b'/');
    assert_eq!(parts, vec![b"a".to_vec(), b"".to_vec(), b"b".to_vec()]);
    assert_eq!(split_sep(b"", b'/'), vec![b"".to_vec()]);
}

#[test]
fn u64_tokens_parse_exactly() {
    assert_eq!(parse_u64(b"0"), Some(0));
    assert_eq!(parse_u64(b"9011"), Some(9011));
    assert_eq!(parse_u64(b"18446744073709551615"), Some(u64::MAX));
    assert_eq!(parse_u64(b"18446744073709551616"), None);
    assert_eq!(parse_u64(b""), None);
    assert_eq!(parse_u64(b"12a"), None);
    assert_eq!(parse_u64(b"-1"), None);
}

#[test]
fn decimal_tokens_parse_to_millionths() {
    assert_eq!(parse_decimal_micro(b"0"), Some(0));
    assert_eq!(parse_decimal_micro(b"100"), Some(100_000_000));
    assert_eq!(parse_decimal_micro(b"7.537"), Some(7_537_000));
    assert_eq!(parse_decimal_micro(b"0.169"), Some(169_000));
    assert_eq!(parse_decimal_micro(b"0.000001"), Some(1));
    assert_eq!(parse_decimal_micro(b"1.2345678"), None);
    assert_eq!(parse_decimal_micro(b"7."), None);
    assert_eq!(parse_decimal_micro(b".5"), None);
    assert_eq!(parse_decimal_micro(b"1.2.3"), None);
    assert_eq!(parse_decimal_micro(b""), None);
}

#[test]
fn u64_values_render_as_shortest_digits() {
    assert_eq!(u64_digits(0), b"0".to_vec());
    assert_eq!(u64_digits(7), b"7".to_vec());
    assert_eq!(u64_digits(9011), b"9011".to_vec());
    assert_eq!(u64_digits(u64::MAX), b"18446744073709551615".to_vec());
}
