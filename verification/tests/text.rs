use codex_shuttle::entries::TextMap;
use codex_shuttle::text::{
    contains_text, decimal_text, ends_with, lowered, parse_number, same_text, split_at_char,
    split_at_white, split_lines, split_words, starts_with, stripped_end, stripped_start, trimmed,
};

#[test]
fn texts_are_split_as_std_splits_them() {
    for text in ["", "a", "a\n", "\n", "a\r\nb\rc\n\nd\r", "\r\n", "é\nü"] {
        let lines: Vec<&str> = text.lines().collect();
        assert_eq!(split_lines(text), lines, "{text:?}");
    }
    for text in ["", " ", "a", " a\u{a0}b\tc\u{c}d ", "\u{3000}x\u{2028}y\u{85}z"] {
        let words: Vec<&str> = text.split_whitespace().collect();
        assert_eq!(split_words(text, false), words, "{text:?}");
        let words: Vec<&str> = text.split_ascii_whitespace().collect();
        assert_eq!(split_words(text, true), words, "{text:?}");
        assert_eq!(trimmed(text), text.trim());
    }
}

#[test]
fn whitespace_is_that_of_unicode() {
    for code in 0..0x11_0000 {
        if let Some(c) = char::from_u32(code) {
            assert_eq!(codex_shuttle::text::white(c), c.is_whitespace());
            assert_eq!(
                codex_shuttle::text::blank(c, true),
                c.is_ascii() && (c as u8).is_ascii_whitespace()
            );
        }
    }
}

#[test]
fn texts_are_compared_and_searched() {
    assert!(same_text("aé", "aé"));
    assert!(!same_text("a", "ab"));
    assert!(!same_text("ab", "a"));
    assert!(starts_with("abc", "ab") && starts_with("abc", "") && !starts_with("a", "ab"));
    assert!(ends_with("abc", "bc") && ends_with("abc", "") && !ends_with("c", "bc"));
    assert!(contains_text("abcd", "bc") && contains_text("", "") && !contains_text("ab", "ba"));
    assert!(contains_text("ab", "") && contains_text("ab", "b") && !contains_text("", "b"));
    assert_eq!(lowered("AZaz[@É1"), "AZaz[@É1".to_ascii_lowercase());
    assert_eq!(stripped_end("a//", '/'), "a");
    assert_eq!(stripped_start("**a*", '*'), "a*");
    assert_eq!(
        split_at_char("a=b=c", '='),
        Some(("a".to_owned(), "b=c".to_owned()))
    );
    assert_eq!(split_at_char("abc", '='), None);
    assert_eq!(
        split_at_white("a\u{a0}b c"),
        Some(("a".to_owned(), "b c".to_owned()))
    );
}

#[test]
fn numbers_are_written_and_read() {
    for n in [0, 9, 10, 101, u64::MAX] {
        assert_eq!(decimal_text(n), n.to_string());
    }
    assert_eq!(parse_number("0042", 42), Some(42));
    assert_eq!(parse_number("43", 42), None);
    assert_eq!(parse_number("99999999999999999999999999", 0xffff_ffff), None);
    assert_eq!(parse_number("+", 42), None);
}

#[test]
fn entries_keep_their_order() {
    let mut map = TextMap::new();
    map.set("b".to_owned(), "1".to_owned());
    map.set("a".to_owned(), "22".to_owned());
    map.set("b".to_owned(), "é".to_owned());
    assert_eq!(map.get("b"), Some("é"));
    assert_eq!(map.value_len(), 4);
    assert_eq!(map.entries[0].0, "b");
    assert_eq!(map.take("b").as_deref(), Some("é"));
    assert_eq!(map.take("b"), None);
    assert!(!map.is_empty());
}
