//! Unit tests for the byte-text parsers and field lookups.

use habctl::config::parse_listen_addr;
use habctl::frame::{ErrorCode, Mppt, OffReason, StateOfOperation};
use habctl::text::{
    bytes_eq, check_utf8, parse_hex_u32, parse_i32_dec, parse_onoff, parse_u16_dec, parse_u32_dec,
    parse_u8_dec,
};

#[test]
fn unsigned_decimal() {
    assert_eq!(parse_u32_dec(b"0"), Some(0));
    assert_eq!(parse_u32_dec(b"12540"), Some(12_540));
    assert_eq!(parse_u32_dec(b"+77"), Some(77));
    assert_eq!(parse_u32_dec(b"4294967295"), Some(u32::MAX));
    assert_eq!(parse_u32_dec(b"4294967296"), None);
    assert_eq!(parse_u32_dec(b""), None);
    assert_eq!(parse_u32_dec(b"+"), None);
    assert_eq!(parse_u32_dec(b"-1"), None);
    assert_eq!(parse_u32_dec(b"12 40"), None);
    assert_eq!(parse_u32_dec(b"0012"), Some(12));

    assert_eq!(parse_u16_dec(b"65535"), Some(u16::MAX));
    assert_eq!(parse_u16_dec(b"65536"), None);
    assert_eq!(parse_u8_dec(b"255"), Some(255));
    assert_eq!(parse_u8_dec(b"256"), None);
}

#[test]
fn signed_decimal() {
    assert_eq!(parse_i32_dec(b"0"), Some(0));
    assert_eq!(parse_i32_dec(b"-1230"), Some(-1_230));
    assert_eq!(parse_i32_dec(b"+300"), Some(300));
    assert_eq!(parse_i32_dec(b"2147483647"), Some(i32::MAX));
    assert_eq!(parse_i32_dec(b"2147483648"), None);
    assert_eq!(parse_i32_dec(b"-2147483648"), Some(i32::MIN));
    assert_eq!(parse_i32_dec(b"-2147483649"), None);
    assert_eq!(parse_i32_dec(b"-"), None);
    assert_eq!(parse_i32_dec(b"--1"), None);
}

#[test]
fn prefixed_hexadecimal() {
    assert_eq!(parse_hex_u32(b"0xA053"), Some(0xA053));
    assert_eq!(parse_hex_u32(b"0x00000001"), Some(1));
    assert_eq!(parse_hex_u32(b"0xdeadBEEF"), Some(0xDEAD_BEEF));
    // the first two bytes are discarded unexamined
    assert_eq!(parse_hex_u32(b"zz10"), Some(0x10));
    assert_eq!(parse_hex_u32(b"0x"), None);
    assert_eq!(parse_hex_u32(b"0"), None);
    assert_eq!(parse_hex_u32(b""), None);
    assert_eq!(parse_hex_u32(b"0xG1"), None);
    assert_eq!(parse_hex_u32(b"0x100000000"), None);
}

#[test]
fn switch_words() {
    assert_eq!(parse_onoff(b"ON"), Some(true));
    assert_eq!(parse_onoff(b"OFF"), Some(false));
    assert_eq!(parse_onoff(b"on"), None);
    assert_eq!(parse_onoff(b""), None);
    assert_eq!(parse_onoff(b"ON "), None);
}

#[test]
fn utf8_validation() {
    assert!(check_utf8(b""));
    assert!(check_utf8(b"plain ascii"));
    assert!(check_utf8("héllo wörld".as_bytes()));
    assert!(check_utf8("✓ → 𝄞".as_bytes()));
    assert!(!check_utf8(&[0xff]));
    assert!(!check_utf8(&[0xc3]));
    assert!(!check_utf8(&[0xc0, 0xaf])); // overlong
    assert!(!check_utf8(&[0xed, 0xa0, 0x80])); // surrogate
    assert!(!check_utf8(&[0xf4, 0x90, 0x80, 0x80])); // beyond U+10FFFF
    assert!(!check_utf8(&[0x80]));
}

#[test]
fn byte_equality() {
    assert!(bytes_eq(b"abc", b"abc"));
    assert!(!bytes_eq(b"abc", b"abd"));
    assert!(!bytes_eq(b"abc", b"abcd"));
    assert!(bytes_eq(b"", b""));
}

#[test]
fn listen_addresses() {
    let a = parse_listen_addr(b"0.0.0.0:8080").expect("valid address");
    assert_eq!((a.ip0, a.ip1, a.ip2, a.ip3, a.port), (0, 0, 0, 0, 8080));
    let a = parse_listen_addr(b"192.168.10.1:80").expect("valid address");
    assert_eq!((a.ip0, a.ip1, a.ip2, a.ip3, a.port), (192, 168, 10, 1, 80));
    assert!(parse_listen_addr(b"1.2.3.4").is_none());
    assert!(parse_listen_addr(b"1.2.3:80").is_none());
    assert!(parse_listen_addr(b"1.2.3.4.5:80").is_none());
    assert!(parse_listen_addr(b"1.2.3.256:80").is_none());
    assert!(parse_listen_addr(b"1.2.3.4:65536").is_none());
    assert!(parse_listen_addr(b"1.2.3.4:80:81").is_none());
    assert!(parse_listen_addr(b"").is_none());
    assert!(parse_listen_addr(b":80").is_none());
}

#[test]
fn enum_lookups() {
    assert!(matches!(StateOfOperation::from_u32(0), Some(StateOfOperation::Off)));
    assert!(matches!(StateOfOperation::from_u32(5), Some(StateOfOperation::Float)));
    assert!(matches!(
        StateOfOperation::from_u32(252),
        Some(StateOfOperation::ExternalControl)
    ));
    assert!(StateOfOperation::from_u32(8).is_none());
    assert!(StateOfOperation::from_u32(1000).is_none());

    assert!(matches!(ErrorCode::from_u32(0), Some(ErrorCode::NoError)));
    assert!(matches!(ErrorCode::from_u32(119), Some(ErrorCode::InvalidUserSettings)));
    assert!(ErrorCode::from_u32(1).is_none());

    assert!(matches!(Mppt::from_u32(2), Some(Mppt::MpptTrackerActive)));
    assert!(Mppt::from_u32(3).is_none());
}

#[test]
fn off_reason_flags() {
    assert_eq!(OffReason::from_bits(0).map(|o| o.bits()), Some(0));
    assert_eq!(OffReason::from_bits(0x1ff).map(|o| o.bits()), Some(0x1ff));
    assert_eq!(OffReason::from_bits(0x41).map(|o| o.bits()), Some(0x41));
    assert!(OffReason::from_bits(0x200).is_none());
    assert!(OffReason::from_bits(0xffff_ffff).is_none());
}
