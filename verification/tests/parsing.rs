//! Tests for the hex color decoder and the integer string parsers.

use tarnish::hexcolor::decode_hex;
use tarnish::hexcolor::HexError;
use tarnish::numparse::parse_i32;
use tarnish::numparse::parse_u32;
use tarnish::pixmap::image_from_raw;
use tarnish::pixmap::image_to_raw;
use tarnish::Pixel;

#[test]
fn decode_hex_red_uppercase() {
    assert_eq!(decode_hex("FF0000"), Ok((255, 0, 0)));
}

#[test]
fn decode_hex_green_lowercase() {
    assert_eq!(decode_hex("00ff00"), Ok((0, 255, 0)));
}

#[test]
fn decode_hex_blue_and_mixed_case() {
    assert_eq!(decode_hex("0000Ff"), Ok((0, 0, 255)));
    assert_eq!(decode_hex("1a2B3c"), Ok((26, 43, 60)));
}

#[test]
fn decode_hex_rejects_non_hex() {
    assert_eq!(decode_hex("GG0000"), Err(HexError::NotHex));
}

#[test]
fn decode_hex_rejects_short_input() {
    assert_eq!(decode_hex("FF00"), Err(HexError::MissingDigits));
    assert_eq!(decode_hex(""), Err(HexError::MissingDigits));
    assert_eq!(decode_hex("F"), Err(HexError::MissingDigits));
    assert_eq!(decode_hex("FF00A"), Err(HexError::MissingDigits));
}

#[test]
fn decode_hex_reports_first_failing_group() {
    // the second group is read before the length for the third is checked
    assert_eq!(decode_hex("00XX"), Err(HexError::NotHex));
    assert_eq!(decode_hex("0000X0"), Err(HexError::NotHex));
}

#[test]
fn decode_hex_ignores_trailing_characters() {
    assert_eq!(decode_hex("FF0000zz"), Ok((255, 0, 0)));
}

#[test]
fn decode_hex_is_deterministic() {
    assert_eq!(decode_hex("ABCDEF"), decode_hex("ABCDEF"));
}

#[test]
fn parse_u32_plain_and_signed() {
    assert_eq!(parse_u32("0"), Some(0));
    assert_eq!(parse_u32("42"), Some(42));
    assert_eq!(parse_u32("+42"), Some(42));
    assert_eq!(parse_u32("-1"), None);
    assert_eq!(parse_u32(""), None);
    assert_eq!(parse_u32("+"), None);
    assert_eq!(parse_u32("12a"), None);
    assert_eq!(parse_u32("4294967295"), Some(u32::MAX));
    assert_eq!(parse_u32("4294967296"), None);
    assert_eq!(parse_u32("00000000000000042"), Some(42));
}

#[test]
fn parse_i32_signs_and_limits() {
    assert_eq!(parse_i32("0"), Some(0));
    assert_eq!(parse_i32("-360"), Some(-360));
    assert_eq!(parse_i32("+360"), Some(360));
    assert_eq!(parse_i32("2147483647"), Some(i32::MAX));
    assert_eq!(parse_i32("2147483648"), None);
    assert_eq!(parse_i32("-2147483648"), Some(i32::MIN));
    assert_eq!(parse_i32("-2147483649"), None);
    assert_eq!(parse_i32("--1"), None);
    assert_eq!(parse_i32(" 1"), None);
    assert_eq!(parse_i32("1.5"), None);
}

#[test]
fn parsers_agree_with_std() {
    for s in ["0", "17", "+17", "-17", "999999999999", "07", "x", ""] {
        assert_eq!(parse_u32(s), s.parse::<u32>().ok());
        assert_eq!(parse_i32(s), s.parse::<i32>().ok());
    }
}

#[test]
fn image_raw_round_trip() {
    let raw = vec![1, 2, 3, 4, 5, 6, 7, 8];
    let img = image_from_raw(2, 1, raw.clone()).unwrap();
    assert_eq!(img.width, 2);
    assert_eq!(img.height, 1);
    assert_eq!(img.pixels, vec![
        Pixel { r: 1, g: 2, b: 3, a: 4 },
        Pixel { r: 5, g: 6, b: 7, a: 8 },
    ]);
    assert_eq!(image_to_raw(&img), raw);
}

#[test]
fn image_from_raw_rejects_wrong_length() {
    assert!(image_from_raw(2, 2, vec![0; 15]).is_none());
    assert!(image_from_raw(2, 2, vec![0; 17]).is_none());
    assert!(image_from_raw(0, 0, vec![]).is_some());
}
