use bad_frpc_launcher::text::{
    chars_of, format_i64, format_u64, has_prefix, has_substring, parse_u16, string_from_chars,
    to_ascii_lowercase, trim,
};

#[test]
fn trim_matches_std() {
    let samples = [
        "",
        "   ",
        "  a b  ",
        "\t\n x\r\n",
        "\u{3000}全角\u{3000}",
        "\u{a0}nbsp\u{2009}",
        "\u{85}next\u{2028}",
        "no-space",
        "\u{200b}zero width\u{200b}",
    ];
    for s in samples {
        assert_eq!(trim(s), s.trim(), "input {:?}", s);
    }
}

#[test]
fn lowercase_matches_std() {
    for s in ["ABC", "MiXeD 123", "ÄÖÜ Straße", "", "udp"] {
        assert_eq!(to_ascii_lowercase(s), s.to_ascii_lowercase());
    }
}

#[test]
fn format_numbers() {
    assert_eq!(format_u64(0), "0");
    assert_eq!(format_u64(7000), "7000");
    assert_eq!(format_u64(u64::MAX), u64::MAX.to_string());
    assert_eq!(format_i64(0), "0");
    assert_eq!(format_i64(-5), "-5");
    assert_eq!(format_i64(1234567890), "1234567890");
    assert_eq!(format_i64(i64::MIN), i64::MIN.to_string());
    assert_eq!(format_i64(i64::MAX), i64::MAX.to_string());
}

#[test]
fn parse_u16_matches_std() {
    let samples = [
        "", "+", "-", "0", "00", "+0", "7000", "65535", "65536", "99999", "-1", "+80", "++1",
        " 80", "80 ", "1a", "٣", "0065535", "000000000000000000080", "4294967296",
    ];
    for s in samples {
        assert_eq!(parse_u16(s), s.parse::<u16>().ok(), "input {:?}", s);
    }
}

#[test]
fn decimal_round_trip_for_all_ports() {
    for p in [0u16, 1, 9, 10, 99, 100, 25565, 65535] {
        assert_eq!(parse_u16(&format_u64(p as u64)), Some(p));
    }
}

#[test]
fn prefix_and_substring() {
    assert!(has_prefix("[[Error]] boom", "[[Error]]"));
    assert!(!has_prefix("[ERR", "[ERR]"));
    assert!(has_prefix("abc", ""));
    assert!(has_substring("xx proxy added yy", "proxy added"));
    assert!(!has_substring("proxy add", "proxy added"));
    assert!(has_substring("", ""));
    assert!(has_substring("abc", "c"));
    assert!(!has_substring("", "a"));
}

#[test]
fn chars_round_trip() {
    let v = chars_of("héllo");
    assert_eq!(v, vec!['h', 'é', 'l', 'l', 'o']);
    assert_eq!(string_from_chars(&v, 1, 4), "éll");
    assert_eq!(string_from_chars(&v, 2, 2), "");
}
