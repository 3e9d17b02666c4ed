use soundfx::text::{byte_len_capped, decimal_string, parse_u32, parse_u64, parse_unsigned_decimal, replace_all_str};

#[test]
fn decimal_renders_numbers() {
    assert_eq!(decimal_string(0), "0");
    assert_eq!(decimal_string(7), "7");
    assert_eq!(decimal_string(10), "10");
    assert_eq!(decimal_string(4096), "4096");
    assert_eq!(decimal_string(u64::MAX), "18446744073709551615");
}

#[test]
fn parse_u32_follows_from_str() {
    for s in ["0", "12", "+12", "007", "4294967295", "", "+", "-1", "-0", "4294967296", "1a", " 1", "++1", "١"] {
        assert_eq!(parse_u32(s), s.parse::<u32>().ok(), "input {:?}", s);
    }
    assert_eq!(parse_u32("+12"), Some(12));
    assert_eq!(parse_u32("4294967296"), None);
}

#[test]
fn parse_u64_follows_from_str() {
    for s in ["18446744073709551615", "18446744073709551616", "99999999999999999999", "42", "+0", ""] {
        assert_eq!(parse_u64(s), s.parse::<u64>().ok(), "input {:?}", s);
    }
}

#[test]
fn parse_with_a_bound() {
    assert_eq!(parse_unsigned_decimal("255", 255), Some(255));
    assert_eq!(parse_unsigned_decimal("256", 255), None);
    assert_eq!(parse_unsigned_decimal("9", 5), None);
}

#[test]
fn parse_reads_back_decimal() {
    for n in [0u32, 1, 9, 10, 123456, u32::MAX] {
        assert_eq!(parse_u32(&decimal_string(n as u64)), Some(n));
    }
}

#[test]
fn replace_all_follows_str_replace() {
    let cases = [
        ("a-ID-b-ID", "ID", "42"),
        ("IDID", "ID", "x"),
        ("aaa", "aa", "b"),
        ("no match", "zz", "y"),
        ("", "ID", "1"),
        ("getID|ID", "ID", "9"),
        ("héllo wörld", "ö", "oe"),
    ];
    for (s, from, to) in cases {
        assert_eq!(replace_all_str(s, from, to), s.replace(from, to), "input {:?}", s);
    }
}

#[test]
fn byte_length_with_a_cap() {
    assert_eq!(byte_len_capped("abc", 10), 3);
    assert_eq!(byte_len_capped("é", 10), 2);
    assert_eq!(byte_len_capped("€", 10), 3);
    assert_eq!(byte_len_capped("🔒", 10), 4);
    assert_eq!(byte_len_capped("abcdefghijklmnop", 10), 11);
    assert_eq!(byte_len_capped("", 0), 0);
}
