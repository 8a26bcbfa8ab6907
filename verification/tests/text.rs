use caseta::text::{
    is_white_space, read_i64, read_position, same, split, strip, trim, write_decimal, write_signed,
    write_two_digits,
};

#[test]
fn white_space_is_what_char_says() {
    for n in 0..=0x10ffffu32 {
        if let Some(c) = char::from_u32(n) {
            assert_eq!(is_white_space(c), c.is_whitespace(), "{n:x}");
        }
    }
}

#[test]
fn trimming_takes_white_space_off_both_ends() {
    for text in ["", " ", "\u{3000}a b\u{a0}", "  x", "x\t\r\n", "é — ñ", "\n\n", "a"] {
        assert_eq!(trim(text), text.trim());
    }
}

#[test]
fn splitting_keeps_empty_pieces() {
    for text in ["", ",", "a", "a,b", ",a,,b,", "é,—,", "a\r\nb\r\n", "\r", "x\ny\rz"] {
        let commas: Vec<String> = text.split(',').map(str::to_string).collect();
        assert_eq!(split(text, ',', ','), commas);
        let lines: Vec<String> = text.split(['\r', '\n']).map(str::to_string).collect();
        assert_eq!(split(text, '\r', '\n'), lines);
    }
}

#[test]
fn stripping_takes_leading_characters_off() {
    for text in ["", "~", "~~~a~", "a~", "~OUTPUT,1"] {
        assert_eq!(strip(text, '~'), text.trim_start_matches('~'));
    }
}

#[test]
fn numbers_are_written_in_decimal() {
    for n in [0u64, 1, 9, 10, 59, 60, 99, 100, 12345, u64::MAX] {
        assert_eq!(write_decimal(n), n.to_string());
        assert_eq!(write_two_digits(n), format!("{n:02}"));
    }
    for n in [0i64, 1, -1, 42, -42, i64::MAX, i64::MIN] {
        assert_eq!(write_signed(n), n.to_string());
    }
}

#[test]
fn integers_are_read_like_parse_does() {
    let texts = [
        "", "-", "+", "0", "-0", "+0", "007", "42", "-42", "+42", " 42", "42 ", "4 2", "1_000", "٣",
        "--1", "+-1", "1e3", "1.0", "9223372036854775807", "9223372036854775808",
        "-9223372036854775808", "-9223372036854775809", "18446744073709551616",
        "99999999999999999999999999999999999999999999", "00000000000000000000000000000000000000005",
        "abc", "12a",
    ];
    for text in texts {
        assert_eq!(read_i64(text), text.parse::<i64>().ok(), "{text:?}");
    }
}

#[test]
fn written_integers_read_back() {
    for n in [0i64, 7, -7, 100, i64::MAX, i64::MIN] {
        assert_eq!(read_i64(&write_signed(n)), Some(n));
    }
}

#[test]
fn positions_are_plain_digits() {
    assert_eq!(read_position("0", 1), Some(0));
    assert_eq!(read_position("0", 0), None);
    assert_eq!(read_position("12", 13), Some(12));
    assert_eq!(read_position("12", 12), None);
    assert_eq!(read_position("00", 5), None);
    assert_eq!(read_position("01", 5), None);
    assert_eq!(read_position("+1", 5), None);
    assert_eq!(read_position("", 5), None);
    assert_eq!(read_position("18446744073709551616", usize::MAX), None);
}

#[test]
fn same_compares_texts() {
    assert!(same("on", "on"));
    assert!(!same("on", "off"));
    assert!(!same("on", "ON"));
}
