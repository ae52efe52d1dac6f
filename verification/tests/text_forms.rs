//! The text forms of numbers, addresses and networks.

use platform_linux::net::{parse_network, IpAddr, IpNetwork};
use platform_linux::order::{sort_texts, text_at_most};
use platform_linux::parse::{read_u16, read_u32, read_u8};
use platform_linux::text::{decimal_text, hex_text, parse_decimal, parse_hex};

fn chars(text: &str) -> Vec<char> {
    text.chars().collect()
}

#[test]
fn numbers_are_read_back_from_their_text() {
    for number in [0, 7, 10, 255, 256, 65_535, 4_294_967_295, u64::MAX] {
        assert_eq!(decimal_text(number), number.to_string());
        assert_eq!(parse_decimal(&chars(&decimal_text(number)), u64::MAX), Some(number));
        assert_eq!(hex_text(number), format!("{number:x}"));
        assert_eq!(parse_hex(&chars(&hex_text(number)), u64::MAX), Some(number));
    }
    assert_eq!(read_u8(&decimal_text(255)), Some(255));
    assert_eq!(read_u8(&decimal_text(256)), None);
    assert_eq!(read_u16(&decimal_text(65_535)), Some(65_535));
    assert_eq!(read_u16(&decimal_text(65_536)), None);
    assert_eq!(read_u32(&decimal_text(4_294_967_295)), Some(4_294_967_295));
    assert_eq!(read_u32(&decimal_text(4_294_967_296)), None);
    assert_eq!(read_u32(""), None);
}

#[test]
fn addresses_are_read_back_from_their_text() {
    for (text, address) in [
        ("0.0.0.0", IpAddr::V4(0)),
        ("192.0.2.1", IpAddr::v4(192, 0, 2, 1)),
        ("::", IpAddr::V6(0)),
        ("::1", IpAddr::V6(1)),
        ("2001:db8::1", IpAddr::V6(0x2001_0db8_0000_0000_0000_0000_0000_0001)),
        ("fe80:0:0:1::", IpAddr::V6(0xfe80_0000_0000_0001_0000_0000_0000_0000)),
        ("1:0:2:3:4:5:6:7", IpAddr::V6(0x0001_0000_0002_0003_0004_0005_0006_0007)),
        ("::ffff:192.0.2.1", IpAddr::V6(0xffff_c000_0201)),
    ] {
        assert_eq!(address.text(), text);
        assert_eq!(IpAddr::parse(text), Some(address));
    }
    for text in ["", "1.2.3", "01.2.3.4", "1.2.3.256", "::1::", "12345::", "1:2:3:4:5:6:7"] {
        assert_eq!(IpAddr::parse(text), None);
    }
}

#[test]
fn networks_are_read_back_from_their_text() {
    let older = IpNetwork { address: IpAddr::v4(10, 1, 0, 0), prefix_len: 16 };
    let newer = IpNetwork { address: IpAddr::V6(0xfd00 << 112), prefix_len: 8 };
    assert_eq!(older.text(), "10.1.0.0/16");
    assert_eq!(newer.text(), "fd00::/8");
    assert_eq!(parse_network(&chars("10.1.0.0/16")), Some(older));
    assert_eq!(parse_network(&chars("fd00::/8")), Some(newer));
    assert_eq!(parse_network(&chars("10.1.0.0")), None);
}

#[test]
fn texts_are_ordered_by_their_bytes() {
    let texts: Vec<String> =
        ["b", "", "ab", "a", "\u{e9}", "a\u{10ffff}"].iter().map(|text| (*text).to_owned()).collect();
    let mut expected = texts.clone();
    expected.sort();
    assert_eq!(sort_texts(&texts), expected);
    assert!(text_at_most("a", "ab"));
    assert!(!text_at_most("b", "ab"));
}
