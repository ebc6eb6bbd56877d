use campus_autologin::text::{
    chars_eq_str, chars_of, decimal_chars, find_str, is_whitespace, join_strings,
    leading_digits_from, parse_u64_chars, string_of, trim_str,
};

fn s(v: Vec<char>) -> String {
    v.into_iter().collect()
}

#[test]
fn trimming_matches_str_trim() {
    for text in ["  a b  ", "\u{3000}x\u{a0}", "\t\n", "", "plain", "\u{2028}y\u{85}"] {
        assert_eq!(s(trim_str(text)), text.trim(), "{text:?}");
    }
    assert!(is_whitespace('\u{205f}'));
    assert!(!is_whitespace('x'));
    assert!(!is_whitespace('\u{200b}'));
}

#[test]
fn numbers_parse_like_u64_from_str() {
    for text in ["0", "42", "+7", "007", "18446744073709551615", "18446744073709551616", "", "+", "-1", "1a", " 1"] {
        assert_eq!(parse_u64_chars(&chars_of(text)), text.parse::<u64>().ok(), "{text:?}");
    }
    assert_eq!(s(decimal_chars(0)), "0");
    assert_eq!(s(decimal_chars(u64::MAX)), u64::MAX.to_string());
}

#[test]
fn searching_and_joining() {
    let hay = chars_of("abcabc");
    assert_eq!(find_str(&hay, "ca"), Some(2));
    assert_eq!(find_str(&hay, ""), Some(0));
    assert_eq!(find_str(&hay, "x"), None);
    assert!(chars_eq_str(&chars_of("héllo"), "héllo"));
    assert!(!chars_eq_str(&chars_of("hello"), "hell"));
    let list = vec!["a".to_owned(), "b".to_owned(), "c".to_owned()];
    assert_eq!(s(join_strings(&list, ", ")), "a, b, c");
    assert_eq!(s(join_strings(&vec![], ", ")), "");
    assert_eq!(s(leading_digits_from(&chars_of("x123y4"), 1)), "123");
    assert_eq!(string_of(&chars_of("añb")), "añb");
}
