use btrfs_csi::number::{i64_text, parse_i64, parse_u32, parse_u64, u64_text};
use btrfs_csi::numeral::scale_text;
use btrfs_csi::table::Table;
use btrfs_csi::text::{
    contains, ends_with, join_strings, list_contains, split_fields, split_lines, split_once,
    split_words, starts_with, strip_prefix, trim,
};

#[test]
fn lines_words_and_fields() {
    assert_eq!(split_lines("a\r\nb\n\nc"), vec!["a", "b", "", "c"]);
    assert_eq!(split_lines(""), Vec::<&str>::new());
    assert_eq!(split_lines("a\n"), vec!["a"]);
    assert_eq!(split_words("  one\ttwo  three "), vec!["one", "two", "three"]);
    assert_eq!(split_words(" \u{a0} "), Vec::<&str>::new());
    assert_eq!(split_fields("a,,b", ','), vec!["a", "", "b"]);
    assert_eq!(split_fields("", ','), vec![""]);
}

#[test]
fn text_functions_agree_with_std() {
    let samples = [
        "", " ", "a", " a ", "a b", "\u{3000}x\u{2003}", "k=v=w", "x\r\ny\rz\n", "ID 258 gen 100",
    ];
    for s in samples {
        assert_eq!(trim(s), s.trim());
        assert_eq!(split_lines(s), s.lines().collect::<Vec<_>>());
        assert_eq!(split_words(s), s.split_whitespace().collect::<Vec<_>>());
        assert_eq!(split_fields(s, '='), s.split('=').collect::<Vec<_>>());
        assert_eq!(split_once(s, '='), s.split_once('='));
        for p in ["", "a", "=", "ID", "b"] {
            assert_eq!(contains(s, p), s.contains(p));
            assert_eq!(starts_with(s, p), s.starts_with(p));
            assert_eq!(ends_with(s, p), s.ends_with(p));
            assert_eq!(strip_prefix(s, p), s.strip_prefix(p));
        }
    }
}

#[test]
fn joining_and_searching_lists() {
    let list = vec!["a".to_string(), "b".to_string()];
    assert_eq!(join_strings(&list, ", "), "a, b");
    assert_eq!(join_strings(&Vec::new(), ","), "");
    assert!(list_contains(&list, "b"));
    assert!(!list_contains(&list, "c"));
}

#[test]
fn numbers_read_like_std() {
    let samples = [
        "0", "7", "+7", "-7", "-0", "", "+", "-", "007", "18446744073709551615",
        "18446744073709551616", "9223372036854775807", "9223372036854775808",
        "-9223372036854775808", "-9223372036854775809", "4294967295", "4294967296", " 1", "1 ",
        "1_0", "++1", "+-1", "0x10",
    ];
    for s in samples {
        assert_eq!(parse_u64(s), s.parse::<u64>().ok(), "{}", s);
        assert_eq!(parse_i64(s), s.parse::<i64>().ok(), "{}", s);
        assert_eq!(parse_u32(s), s.parse::<u32>().ok(), "{}", s);
    }
}

#[test]
fn numbers_read_back_from_text() {
    for n in [0u64, 1, 9, 10, 99, 100, 12345678901234567890, u64::MAX] {
        assert_eq!(u64_text(n), n.to_string());
        assert_eq!(parse_u64(&u64_text(n)), Some(n));
    }
    for n in [0i64, -1, 42, i64::MIN, i64::MAX] {
        assert_eq!(i64_text(n), n.to_string());
        assert_eq!(parse_i64(&i64_text(n)), Some(n));
    }
}

#[test]
fn scaled_fractions_are_those_of_doubles() {
    let samples = [
        "0", "1", "10.00", "1.5", "0.1", "0.3", ".5", "5.", ".", "", "+1.25", "-3", "1e3", "1E3",
        "1e-3", "2e+2", "1e", "e5", "inf", "INF", "infinity", "-inf", "nan", "NaN", "1e400",
        "1e-400", "0e999999999999999999999", "1e999999999999999999999", "1e-99999999999999999999",
        "0.99999999999999999999", "0.9999999999999999", "4503599627370496.5",
        "4503599627370497.5", "9007199254740993", "9007199254740992.5", "9007199254740991.5",
        "18446744073709551615", "18446744073709550591", "18446744073709550592",
        "123456789012345678901234567890", "0.000000000000000000000000000001", "1_000", "1.2.3",
        "0x10", "9223372036854775807.99", "1.0000000000000002", "3.1415926535897932384626",
        "2.2250738585072014e-308", "17179869183.9999999999",
    ];
    for s in samples {
        let value: f64 = s.parse().unwrap_or(0.0);
        for (k, unit) in [
            (0, 1.0),
            (10, 1024.0),
            (20, 1048576.0),
            (30, 1073741824.0),
            (40, 1099511627776.0),
        ] {
            assert_eq!(scale_text(s, k), (value * unit) as u64, "{} {}", s, k);
        }
    }
}

#[test]
fn scaled_random_fractions_are_those_of_doubles() {
    let mut x: u64 = 0x243f6a8885a308d3;
    for _ in 0..2000 {
        x = x.wrapping_mul(6364136223846793005).wrapping_add(1442695040888963407);
        let a = x >> (x % 60);
        x = x.wrapping_mul(6364136223846793005).wrapping_add(1442695040888963407);
        let b = x >> 3;
        let s = format!("{}.{}", a, b);
        let value: f64 = s.parse().unwrap();
        assert_eq!(scale_text(&s, 0), value as u64, "{}", s);
        assert_eq!(scale_text(&s, 30), (value * 1073741824.0) as u64, "{}", s);
    }
}

#[test]
fn table_keeps_one_value_per_name() {
    let mut t: Table<String> = Table::new();
    t.insert("a".to_string(), "1".to_string());
    t.insert("b".to_string(), "2".to_string());
    t.insert("a".to_string(), "3".to_string());
    assert_eq!(t.len(), 2);
    assert_eq!(t.get("a").map(|s| s.as_str()), Some("3"));
    assert_eq!(t.key_at(0), "a");
    assert_eq!(t.remove("a"), Some("3".to_string()));
    assert_eq!(t.remove("a"), None);
    assert!(!t.contains("a"));
    assert!(t.contains("b"));
}
