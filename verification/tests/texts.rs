use gemlite::text::{
    join2, join3, replace_all, same_text, starts_with, strip_prefix, take_chars, to_decimal,
    trim_end,
};

#[test]
fn white_space_is_cut_at_the_end_only() {
    assert_eq!(trim_end("  a b \t\r\n"), "  a b");
    assert_eq!(trim_end("a\u{a0}\u{3000}\u{2028}"), "a");
    assert_eq!(trim_end("a\u{200b}"), "a\u{200b}");
    assert_eq!(trim_end(" \n"), "");
    for code in 0..0x3100u32 {
        if let Some(c) = char::from_u32(code) {
            let text = format!("a{c}");
            assert_eq!(trim_end(&text), text.trim_end());
        }
    }
}

#[test]
fn prefix_is_stripped_once() {
    assert_eq!(strip_prefix("models/models/x", "models/"), Some("models/x"));
    assert_eq!(strip_prefix("data: ", "data: "), Some(""));
    assert_eq!(strip_prefix("data:", "data: "), None);
    assert_eq!(strip_prefix("x", ""), Some("x"));
}

#[test]
fn characters_are_counted_not_bytes() {
    assert_eq!(take_chars("éàü", 2), "éà");
    assert_eq!(take_chars("éàü", 3), "éàü");
    assert_eq!(take_chars("éàü", 9), "éàü");
    assert_eq!(take_chars("éàü", 0), "");
}

#[test]
fn numbers_are_written_in_decimal() {
    assert_eq!(to_decimal(0), "0");
    assert_eq!(to_decimal(10), "10");
    assert_eq!(to_decimal(209715200), "209715200");
    assert_eq!(to_decimal(u64::MAX), u64::MAX.to_string());
}

#[test]
fn texts_compare_and_join() {
    assert!(same_text("abc", "abc"));
    assert!(!same_text("abc", "abd"));
    assert!(!same_text("abc", "ab"));
    assert!(starts_with("application/json; charset=UTF-8", "application/json"));
    assert!(!starts_with("text/html", "application/json"));
    assert_eq!(join2("a", "b"), "ab");
    assert_eq!(join3("a", "", "c"), "ac");
    assert_eq!(replace_all("a-b-c", "-", "+"), "a+b+c");
}
