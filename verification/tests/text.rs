use agl_health::text::{
    ascii_string, char_is_ws, parse_unsigned_chars, push_decimal, push_padded_decimal,
    split_lines, split_words, str_chars,
};

fn strs(v: Vec<Vec<char>>) -> Vec<String> {
    v.into_iter().map(|w| w.into_iter().collect()).collect()
}

#[test]
fn lines_and_words_follow_std() {
    let text = "a b\r\n\n  c\td  \nlast";
    let chars = str_chars(text);
    assert_eq!(strs(split_lines(&chars)), text.lines().map(String::from).collect::<Vec<_>>());
    let words = "  x \u{a0}y\tz\u{3000} ";
    assert_eq!(
        strs(split_words(&str_chars(words))),
        words.split_whitespace().map(String::from).collect::<Vec<_>>()
    );
    assert!(char_is_ws('\u{2028}'));
    assert!(!char_is_ws('x'));
}

#[test]
fn unsigned_parsing_matches_from_str() {
    let p = |s: &str| parse_unsigned_chars(&str_chars(s), u64::MAX);
    assert_eq!(p("42"), Some(42));
    assert_eq!(p("+7"), Some(7));
    assert_eq!(p("18446744073709551615"), Some(u64::MAX));
    assert_eq!(p("18446744073709551616"), None);
    assert_eq!(p(""), None);
    assert_eq!(p("+"), None);
    assert_eq!(p("-1"), None);
    assert_eq!(p("1x"), None);
    assert_eq!(parse_unsigned_chars(&str_chars("4294967296"), u32::MAX as u64), None);
}

#[test]
fn decimal_rendering() {
    let mut v = Vec::new();
    push_decimal(&mut v, 0);
    push_decimal(&mut v, 1234567890);
    push_padded_decimal(&mut v, 42, 5);
    assert_eq!(ascii_string(&v), "0123456789000042");
}
