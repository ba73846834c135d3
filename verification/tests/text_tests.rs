use app_versions::text::{decimal_string, escape_changelog, hex_lower, parse_u16, str_eq};

#[test]
fn decimal_renders_numbers() {
    assert_eq!(decimal_string(0), "0");
    assert_eq!(decimal_string(7), "7");
    assert_eq!(decimal_string(10), "10");
    assert_eq!(decimal_string(1650000000), "1650000000");
    assert_eq!(decimal_string(u64::MAX), "18446744073709551615");
}

#[test]
fn decimal_matches_to_string() {
    for n in [0u64, 1, 9, 99, 100, 12345, 4294967296, 999999999999] {
        assert_eq!(decimal_string(n), n.to_string());
    }
}

#[test]
fn hex_lower_renders_bytes() {
    assert_eq!(hex_lower(&[]), "");
    assert_eq!(hex_lower(&[0, 15, 16, 255]), "000f10ff");
    assert_eq!(hex_lower(&[0xab, 0xcd]), "abcd");
}

#[test]
fn escape_changelog_drops_cr_and_escapes_lf() {
    assert_eq!(escape_changelog("a\r\nb\nc"), "a\\nb\\nc");
    assert_eq!(escape_changelog("plain"), "plain");
    assert_eq!(escape_changelog(""), "");
    assert_eq!(escape_changelog("\r\r"), "");
    let s = "x\ny\r\nz";
    assert_eq!(escape_changelog(s), s.replace('\r', "").replace('\n', "\\n"));
}

#[test]
fn escape_changelog_output_has_no_line_breaks() {
    let out = escape_changelog("one\ntwo\r\nthree\r");
    assert!(!out.contains('\n'));
    assert!(!out.contains('\r'));
}

#[test]
fn parse_u16_accepts_what_std_accepts() {
    assert_eq!(parse_u16("8080"), Some(8080));
    assert_eq!(parse_u16("+80"), Some(80));
    assert_eq!(parse_u16("00080"), Some(80));
    assert_eq!(parse_u16("0"), Some(0));
    assert_eq!(parse_u16("65535"), Some(65535));
    assert_eq!(parse_u16("65536"), None);
    assert_eq!(parse_u16("99999999999"), None);
    assert_eq!(parse_u16(""), None);
    assert_eq!(parse_u16("+"), None);
    assert_eq!(parse_u16("-1"), None);
    assert_eq!(parse_u16(" 80"), None);
    assert_eq!(parse_u16("8o"), None);
    for s in ["8080", "+80", "00080", "65535", "65536", "", "+", "-1", " 80", "8o", "٣"] {
        assert_eq!(parse_u16(s), s.parse::<u16>().ok(), "input {:?}", s);
    }
}

#[test]
fn port_roundtrip_through_decimal() {
    for n in [0u16, 1, 80, 443, 8080, 65535] {
        assert_eq!(parse_u16(&decimal_string(n as u64)), Some(n));
    }
}

#[test]
fn str_eq_compares_whole_strings() {
    assert!(str_eq("abc", "abc"));
    assert!(!str_eq("abc", "abd"));
    assert!(!str_eq("abc", "ab"));
    assert!(str_eq("", ""));
    assert!(str_eq("é", "é"));
}
