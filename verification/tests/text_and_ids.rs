use playoh::ids::{parse_uuid, InvalidUuid};
use playoh::text::{decimal_string, signed_decimal_string, starts_with, starts_with_char, str_eq, trim};

#[test]
fn trim_removes_surrounding_white_space() {
    assert_eq!(trim("  abc \n\t"), "abc");
    assert_eq!(trim("\u{3000}x y\u{a0}"), "x y");
    assert_eq!(trim("   "), "");
    assert_eq!(trim(""), "");
    assert_eq!(trim("a"), "a");
}

#[test]
fn prefixes_and_equality() {
    assert!(starts_with("https://example.com", "http"));
    assert!(!starts_with("/system", "http"));
    assert!(!starts_with("ht", "http"));
    assert!(starts_with("anything", ""));
    assert!(starts_with_char("/menu", '/'));
    assert!(!starts_with_char("menu", '/'));
    assert!(!starts_with_char("", '/'));
    assert!(str_eq("1", "1"));
    assert!(!str_eq("1", "0"));
    assert!(!str_eq("10", "1"));
}

#[test]
fn decimals() {
    assert_eq!(decimal_string(0), "0");
    assert_eq!(decimal_string(7), "7");
    assert_eq!(decimal_string(10), "10");
    assert_eq!(decimal_string(4096), "4096");
    assert_eq!(decimal_string(u64::MAX), u64::MAX.to_string());
    assert_eq!(signed_decimal_string(-42), "-42");
    assert_eq!(signed_decimal_string(0), "0");
    assert_eq!(signed_decimal_string(i64::MIN), i64::MIN.to_string());
    assert_eq!(signed_decimal_string(i64::MAX), i64::MAX.to_string());
}

#[test]
fn uuid_text_is_parsed_to_its_value() {
    assert_eq!(
        parse_uuid("67e55044-10b1-426f-9247-bb680e5fe0c8"),
        Ok(0x67e5504410b1426f9247bb680e5fe0c8u128)
    );
    assert_eq!(
        parse_uuid("67e5504410b1426f9247bb680e5fe0c8"),
        Ok(0x67e5504410b1426f9247bb680e5fe0c8u128)
    );
    assert_eq!(parse_uuid("not-a-uuid"), Err(InvalidUuid));
    assert_eq!(parse_uuid(""), Err(InvalidUuid));
}

#[test]
fn trim_agrees_with_std_on_every_char_up_to_u3001() {
    for v in 0u32..0x3001 {
        if let Some(c) = char::from_u32(v) {
            let s = format!("{}a{}", c, c);
            assert_eq!(trim(&s), s.trim(), "code point {:#x}", v);
        }
    }
}
