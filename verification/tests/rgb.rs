//! Parsing and serializing hex color strings.

use tiny_gradient::{HexDigitError, RGBErrorKind, RGB};

#[test]
fn parse_plain_hex() {
    assert_eq!(RGB::from_str("010000").unwrap(), RGB::new(1, 0, 0));
    assert_eq!(RGB::from_str("da00ff").unwrap(), RGB::new(0xDA, 0x00, 0xFF));
    assert_eq!(RGB::from_str("ffffff").unwrap(), RGB::new(255, 255, 255));
    assert_eq!(RGB::from_str("000000").unwrap(), RGB::new(0, 0, 0));
}

#[test]
fn parse_with_hash_prefix() {
    assert_eq!(RGB::from_str("#A1B2C3").unwrap(), RGB::new(0xA1, 0xB2, 0xC3));
    assert_eq!(RGB::from_str("#0f0E0d").unwrap(), RGB::new(0x0F, 0x0E, 0x0D));
}

#[test]
fn parse_is_case_insensitive() {
    assert_eq!(RGB::from_str("AbCdEf").unwrap(), RGB::from_str("abcdef").unwrap());
}

#[test]
fn parse_wrong_size() {
    let e = RGB::from_str("abcde").unwrap_err();
    assert_eq!(*e.kind(), RGBErrorKind::Size);
    let e = RGB::from_str("#abcde").unwrap_err();
    assert_eq!(*e.kind(), RGBErrorKind::Size);
    let e = RGB::from_str("").unwrap_err();
    assert_eq!(*e.kind(), RGBErrorKind::Size);
    let e = RGB::from_str("#").unwrap_err();
    assert_eq!(*e.kind(), RGBErrorKind::Size);
    let e = RGB::from_str("abcdef0").unwrap_err();
    assert_eq!(*e.kind(), RGBErrorKind::Size);
}

#[test]
fn parse_bad_digit_names_the_channel() {
    let e = RGB::from_str("gg0000").unwrap_err();
    assert_eq!(
        *e.kind(),
        RGBErrorKind::Format { pos: 0, error: HexDigitError::InvalidDigit },
    );
    let e = RGB::from_str("00g000").unwrap_err();
    assert_eq!(
        *e.kind(),
        RGBErrorKind::Format { pos: 1, error: HexDigitError::InvalidDigit },
    );
    let e = RGB::from_str("0000zz").unwrap_err();
    assert_eq!(
        *e.kind(),
        RGBErrorKind::Format { pos: 2, error: HexDigitError::InvalidDigit },
    );
    let e = RGB::from_str("+f0000").unwrap_err();
    assert_eq!(
        *e.kind(),
        RGBErrorKind::Format { pos: 0, error: HexDigitError::InvalidDigit },
    );
}

#[test]
fn parse_non_ascii_is_invalid() {
    let e = RGB::from_str("ffäaaa").unwrap_err();
    assert_eq!(*e.kind(), RGBErrorKind::Invalid);
    let e = RGB::from_str("héllo!").unwrap_err();
    assert_eq!(*e.kind(), RGBErrorKind::Invalid);
}

#[test]
fn error_messages() {
    let e = RGB::from_str("abcde").unwrap_err();
    assert_eq!(
        e.message(),
        "cannot parse rgb from string with size not equal to 6 (or 7 if '#' is used)",
    );
    let e = RGB::from_str("ffäaaa").unwrap_err();
    assert_eq!(e.message(), "invalid string which contains UTF8 symbols");
    let e = RGB::from_str("00gg00").unwrap_err();
    assert_eq!(e.message(), "invalid digit found in string on position 1");
}

#[test]
fn hex_round_trip() {
    assert_eq!(RGB::from_str("a1b2c3").unwrap().hex(), "a1b2c3");
    assert_eq!(RGB::from_str("#a1b2c3").unwrap().hex(), "a1b2c3");
    assert_eq!(RGB::from_str("A1B2C3").unwrap().hex(), "a1b2c3");
    assert_eq!(RGB::from_str("#00FF07").unwrap().hex(), "00ff07");
    assert_eq!(RGB::new(0, 0, 0).hex(), "000000");
    assert_eq!(RGB::new(255, 255, 255).hex(), "ffffff");
}

#[test]
fn parse_through_from_str_trait() {
    let c: RGB = "234312".parse().unwrap();
    assert_eq!(c, RGB::new(0x23, 0x43, 0x12));
    assert!("not rgb".parse::<RGB>().is_err());
}

#[test]
fn default_is_black() {
    assert_eq!(RGB::default(), RGB::new(0, 0, 0));
}

#[test]
fn from_triple() {
    assert_eq!(RGB::from((1, 2, 3)), RGB::new(1, 2, 3));
}
