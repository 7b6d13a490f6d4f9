use mexc_lag::table::Table;
use mexc_lag::text::{
    chars_of, contains_text, is_whitespace, join, lines, pad_left, pad_right, parse_i64, split,
    starts_with, string_of, strip_prefix, strip_suffix, text_of_i64, text_of_u64, trim,
};

fn owned(list: &[&str]) -> Vec<String> {
    list.iter().map(|s| s.to_string()).collect()
}

#[test]
fn integers_are_written() {
    for n in [0i64, 7, -7, 10, -10, i64::MAX, i64::MIN] {
        assert_eq!(text_of_i64(n), n.to_string());
    }
    for n in [0u64, 9, 10, 12345, u64::MAX] {
        assert_eq!(text_of_u64(n), n.to_string());
    }
}

#[test]
fn integers_are_read() {
    let all = [
        "0", "-0", "+5", "007", "9223372036854775807", "9223372036854775808",
        "-9223372036854775808", "-9223372036854775809", "", "-", "+", "1 ", " 1", "1.0", "a", "--1",
    ];
    for t in all {
        assert_eq!(parse_i64(t), t.parse::<i64>().ok(), "{}", t);
    }
    for n in [0i64, 1, -1, i64::MAX, i64::MIN] {
        assert_eq!(parse_i64(&text_of_i64(n)), Some(n));
    }
}

#[test]
fn spaces_are_those_of_std() {
    for n in 0..=0x10ffffu32 {
        if let Some(c) = char::from_u32(n) {
            assert_eq!(is_whitespace(c), c.is_whitespace(), "{}", n);
        }
    }
}

#[test]
fn trimming() {
    for t in ["", "  ", " a b ", "\t\n/login \r\n", "x", "\u{3000}y\u{2003}"] {
        assert_eq!(trim(t), t.trim());
    }
}

#[test]
fn prefixes_and_suffixes() {
    assert!(starts_with("Bearer abc", "Bearer "));
    assert!(!starts_with("Bear", "Bearer "));
    assert_eq!(strip_prefix("Bearer abc", "Bearer "), Some("abc".to_string()));
    assert_eq!(strip_prefix("bearer abc", "Bearer "), None);
    assert_eq!(strip_suffix("BTCUSDT", "USDT"), Some("BTC".to_string()));
    assert_eq!(strip_suffix("USDT", "USDT"), Some(String::new()));
    assert_eq!(strip_suffix("SDT", "USDT"), None);
    let chars = chars_of("añb");
    assert_eq!(chars, vec!['a', 'ñ', 'b']);
    assert_eq!(string_of(&chars, 1, 3), "ñb");
}

#[test]
fn lists_are_searched_and_joined() {
    assert!(contains_text(&owned(&["a", "b"]), "b"));
    assert!(!contains_text(&owned(&["a", "b"]), "c"));
    assert_eq!(join(&owned(&[]), "/"), "");
    assert_eq!(join(&owned(&["a"]), "/"), "a");
    assert_eq!(join(&owned(&["a", "", "c"]), "/"), "a//c");
}

#[test]
fn splitting_undoes_joining() {
    for parts in [vec![""], vec!["a"], vec!["a", "", "b"], vec!["", ""]] {
        let list = owned(&parts);
        assert_eq!(split(&join(&list, ","), ','), list);
    }
}

#[test]
fn splitting_and_lines_are_those_of_std() {
    for t in ["", "a", "a,b", ",", "a,,b,", "x\ny", "x\r\ny\r\n", "\n", "\r", "a\r\r\nb", "a\n\nb\n"] {
        let parts: Vec<String> = t.split(',').map(|s| s.to_string()).collect();
        assert_eq!(split(t, ','), parts, "{:?}", t);
        let all: Vec<String> = t.lines().map(|s| s.to_string()).collect();
        assert_eq!(lines(t), all, "{:?}", t);
    }
}

#[test]
fn columns_are_those_of_std() {
    for t in ["", "abc", "longer than the column", "é"] {
        assert_eq!(pad_left(t, 8), format!("{:<8}", t));
        assert_eq!(pad_right(t, 8), format!("{:>8}", t));
    }
}

#[test]
fn tables_hold_one_entry_for_a_key() {
    let mut t: Table<i32> = Table::new();
    assert!(t.get("a").is_none());
    t.put("a".to_string(), 1);
    t.put("b".to_string(), 2);
    t.put("a".to_string(), 3);
    assert_eq!(t.get("a"), Some(&3));
    let mut keys = t.keys();
    keys.sort();
    assert_eq!(keys, owned(&["a", "b"]));
    assert_eq!(t.take("a"), Some(3));
    assert_eq!(t.take("a"), None);
    assert_eq!(t.get("b"), Some(&2));
}
