use rusttorney::text::{
    read_flag, read_i32, read_u32, read_u8, render_flag, render_i32, render_u16, render_u32,
    render_u8, text_eq, ParseError,
};
use std::num::IntErrorKind;

fn expected(kind: &IntErrorKind) -> ParseError {
    match kind {
        IntErrorKind::Empty => ParseError::Empty,
        IntErrorKind::InvalidDigit => ParseError::InvalidDigit,
        IntErrorKind::PosOverflow => ParseError::PosOverflow,
        IntErrorKind::NegOverflow => ParseError::NegOverflow,
        other => panic!("unexpected kind {:?}", other),
    }
}

fn samples() -> Vec<String> {
    let mut all: Vec<String> = vec![
        "", "0", "00", "007", "1", "9", "10", "255", "256", "0255", "0000000000256", "+", "-",
        "+0", "-0", "+1", "-1", "++1", "--1", "+-1", "1+", "1-", " 1", "1 ", "1_0", "0x10",
        "4294967295", "4294967296", "42949672950", "+4294967295", "-4294967295",
        "2147483647", "2147483648", "-2147483648", "-2147483649", "+2147483647",
        "99999999999999999999", "-99999999999999999999", "99999999999999999999x",
        "x99999999999999999999", "12a", "a12", "1a2", "٣", "１", "1.0", "1e3", "true",
        "000000000000000000000000000000000000001", "-000000000000000000000000000000000000001",
        "25x", "256x", "-129", "-128", "127", "128", "\u{0}", "1\u{0}", "é", "12é",
    ]
    .into_iter()
    .map(String::from)
    .collect();
    for n in -300i64..300 {
        all.push(n.to_string());
    }
    all
}

#[test]
fn read_u32_agrees_with_std() {
    for text in samples() {
        match (read_u32(&text), text.parse::<u32>()) {
            (Ok(x), Ok(y)) => assert_eq!(x, y, "{:?}", text),
            (Err(e), Err(f)) => assert_eq!(e, expected(f.kind()), "{:?}", text),
            (x, y) => panic!("{:?}: {:?} against {:?}", text, x, y),
        }
    }
}

#[test]
fn read_i32_agrees_with_std() {
    for text in samples() {
        match (read_i32(&text), text.parse::<i32>()) {
            (Ok(x), Ok(y)) => assert_eq!(x, y, "{:?}", text),
            (Err(e), Err(f)) => assert_eq!(e, expected(f.kind()), "{:?}", text),
            (x, y) => panic!("{:?}: {:?} against {:?}", text, x, y),
        }
    }
}

#[test]
fn read_u8_agrees_with_std() {
    for text in samples() {
        match (read_u8(&text), text.parse::<u8>()) {
            (Ok(x), Ok(y)) => assert_eq!(x, y, "{:?}", text),
            (Err(e), Err(f)) => assert_eq!(e, expected(f.kind()), "{:?}", text),
            (x, y) => panic!("{:?}: {:?} against {:?}", text, x, y),
        }
    }
}

#[test]
fn read_flag_agrees_with_std() {
    for text in ["true", "false", "", "True", "FALSE", "1", "0", " true", "true ", "tru", "truee"] {
        match (read_flag(text), text.parse::<bool>()) {
            (Ok(x), Ok(y)) => assert_eq!(x, y, "{:?}", text),
            (Err(e), Err(_)) => assert_eq!(e, ParseError::NotBool),
            (x, y) => panic!("{:?}: {:?} against {:?}", text, x, y),
        }
    }
}

#[test]
fn exact_values_are_read() {
    assert_eq!(read_u32("4294967295"), Ok(4294967295));
    assert_eq!(read_u32("+17"), Ok(17));
    assert_eq!(read_u32("-17"), Err(ParseError::InvalidDigit));
    assert_eq!(read_u32(""), Err(ParseError::Empty));
    assert_eq!(read_u32("4294967296"), Err(ParseError::PosOverflow));
    assert_eq!(read_u32("4294967296x"), Err(ParseError::PosOverflow));
    assert_eq!(read_u32("429496729x"), Err(ParseError::InvalidDigit));
    assert_eq!(read_i32("-2147483648"), Ok(-2147483648));
    assert_eq!(read_i32("-2147483649"), Err(ParseError::NegOverflow));
    assert_eq!(read_i32("2147483648"), Err(ParseError::PosOverflow));
    assert_eq!(read_i32("-"), Err(ParseError::InvalidDigit));
    assert_eq!(read_u8("255"), Ok(255));
    assert_eq!(read_u8("256"), Err(ParseError::PosOverflow));
    assert_eq!(read_flag("true"), Ok(true));
    assert_eq!(read_flag("false"), Ok(false));
    assert_eq!(read_flag("1"), Err(ParseError::NotBool));
}

#[test]
fn numbers_are_written_as_std_writes_them() {
    for n in [0u32, 1, 9, 10, 11, 99, 100, 255, 256, 65535, 65536, 1000000, 4294967295] {
        assert_eq!(render_u32(n), n.to_string());
    }
    for n in 0..=255u8 {
        assert_eq!(render_u8(n), n.to_string());
    }
    for n in [0u16, 7, 80, 443, 27016, 65535] {
        assert_eq!(render_u16(n), n.to_string());
    }
    for n in [0i32, 1, -1, 10, -10, 2147483647, -2147483647, -2147483648, 123456, -123456] {
        assert_eq!(render_i32(n), n.to_string());
    }
    assert_eq!(render_flag(true), "true");
    assert_eq!(render_flag(false), "false");
}

#[test]
fn what_is_written_reads_back() {
    for n in [0u32, 5, 10, 4294967295, 1234567890] {
        assert_eq!(read_u32(&render_u32(n)), Ok(n));
    }
    for n in [0i32, -1, 1, -2147483648, 2147483647, -1000] {
        assert_eq!(read_i32(&render_i32(n)), Ok(n));
    }
    for n in 0..=255u8 {
        assert_eq!(read_u8(&render_u8(n)), Ok(n));
    }
    for b in [true, false] {
        assert_eq!(read_flag(&render_flag(b)), Ok(b));
    }
}

#[test]
fn parse_error_messages() {
    assert_eq!(ParseError::Empty.message(), "cannot parse integer from empty string");
    assert_eq!(ParseError::InvalidDigit.message(), "invalid digit found in string");
    assert_eq!(ParseError::PosOverflow.message(), "number too large to fit in target type");
    assert_eq!(ParseError::NegOverflow.message(), "number too small to fit in target type");
    assert_eq!(ParseError::NotBool.message(), "provided string was not `true` or `false`");
    assert_eq!(ParseError::Empty.message(), "".parse::<u32>().unwrap_err().to_string());
    assert_eq!(ParseError::InvalidDigit.message(), "x".parse::<u32>().unwrap_err().to_string());
    assert_eq!(ParseError::PosOverflow.message(), "999".parse::<u8>().unwrap_err().to_string());
    assert_eq!(ParseError::NegOverflow.message(), "-999".parse::<i8>().unwrap_err().to_string());
    assert_eq!(ParseError::NotBool.message(), "x".parse::<bool>().unwrap_err().to_string());
}

#[test]
fn texts_are_compared_character_by_character() {
    assert!(text_eq("", ""));
    assert!(text_eq("HI", "HI"));
    assert!(!text_eq("HI", "Hi"));
    assert!(!text_eq("HI", "HI "));
    assert!(!text_eq("", "a"));
    assert!(text_eq("grüß", "grüß"));
    assert!(!text_eq("grüß", "gruß"));
}
