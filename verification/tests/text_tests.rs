use rustray::text::{
    ends_with, i32_text, parse_i32, parse_u16, split_on_char, starts_with, str_eq, u64_text,
    u64_text_padded,
};

#[test]
fn str_eq_compares_characters() {
    assert!(str_eq("abc", "abc"));
    assert!(!str_eq("abc", "abd"));
    assert!(!str_eq("abc", "ab"));
    assert!(str_eq("", ""));
    assert!(str_eq("öl", "öl"));
}

#[test]
fn prefix_and_suffix_tests() {
    assert!(starts_with("monte_carlo=1", "monte_carlo="));
    assert!(!starts_with("monte", "monte_carlo="));
    assert!(starts_with("abc", ""));
    assert!(ends_with("scene/a.json", ".json"));
    assert!(!ends_with("scene/a.json5", ".json"));
    assert!(!ends_with("json", ".json"));
}

#[test]
fn split_matches_str_split() {
    assert_eq!(split_on_char("800x600", 'x'), vec!["800", "600"]);
    assert_eq!(split_on_char("", 'x'), vec![""]);
    assert_eq!(split_on_char("x", 'x'), vec!["", ""]);
    assert_eq!(split_on_char("1x2x3x4", 'x'), vec!["1", "2", "3", "4"]);
    assert_eq!(split_on_char("a==b", '='), vec!["a", "", "b"]);
    for s in ["", "x", "axbxc", "xx", "no sep", "trailingx"] {
        let expected: Vec<&str> = s.split('x').collect();
        assert_eq!(split_on_char(s, 'x'), expected);
    }
}

#[test]
fn parse_i32_like_str_parse() {
    assert_eq!(parse_i32("800"), Some(800));
    assert_eq!(parse_i32("-20"), Some(-20));
    assert_eq!(parse_i32("+5"), Some(5));
    assert_eq!(parse_i32("-2147483648"), Some(i32::MIN));
    assert_eq!(parse_i32("2147483647"), Some(i32::MAX));
    assert_eq!(parse_i32("2147483648"), None);
    assert_eq!(parse_i32(""), None);
    assert_eq!(parse_i32("-"), None);
    assert_eq!(parse_i32("12a"), None);
    assert_eq!(parse_i32(" 1"), None);
    for s in ["0", "007", "-0", "+", "99999999999", "-2147483649", "1_000", "٣"] {
        assert_eq!(parse_i32(s), s.parse::<i32>().ok(), "input {:?}", s);
    }
}

#[test]
fn parse_u16_like_str_parse() {
    assert_eq!(parse_u16("16"), Some(16));
    assert_eq!(parse_u16("65535"), Some(65535));
    assert_eq!(parse_u16("65536"), None);
    assert_eq!(parse_u16("+0"), Some(0));
    assert_eq!(parse_u16("-1"), None);
    assert_eq!(parse_u16("abc"), None);
    for s in ["", "1", "00065535", "1e3", "+", "4294967296"] {
        assert_eq!(parse_u16(s), s.parse::<u16>().ok(), "input {:?}", s);
    }
}

#[test]
fn integers_written_like_format() {
    assert_eq!(i32_text(-42), "-42");
    assert_eq!(i32_text(0), "0");
    assert_eq!(i32_text(i32::MIN), "-2147483648");
    assert_eq!(i32_text(i32::MAX), "2147483647");
    assert_eq!(u64_text(u64::MAX), "18446744073709551615");
    assert_eq!(u64_text(10), "10");
    for v in [-1000000, -9, -1, 1, 9, 10, 99, 100, 65535] {
        assert_eq!(i32_text(v), format!("{}", v));
        assert_eq!(parse_i32(&i32_text(v)), Some(v));
    }
}

#[test]
fn padded_integers_like_format() {
    assert_eq!(u64_text_padded(7, 8), "00000007");
    assert_eq!(u64_text_padded(0, 8), "00000000");
    assert_eq!(u64_text_padded(123456789, 8), "123456789");
    assert_eq!(u64_text_padded(42, 0), "42");
    for v in [0u64, 5, 12345678, 99999999, 100000000] {
        assert_eq!(u64_text_padded(v, 8), format!("{:0>8}", v));
    }
}
