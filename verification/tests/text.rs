use esp32_lcd_test::text::{find_char, find_str, is_whitespace, str_equals, trim};

#[test]
fn whitespace_matches_std() {
    for v in 0u32..0x11_0000 {
        if let Some(c) = char::from_u32(v) {
            assert_eq!(is_whitespace(c), c.is_whitespace(), "U+{v:04X}");
        }
    }
}

#[test]
fn trim_matches_std() {
    for s in ["", "   ", " a ", "\t\r\nabc def\u{3000}", "x", "\u{a0}é\u{2028}", "a b  "] {
        assert_eq!(trim(s), s.trim());
    }
}

#[test]
fn find_str_gives_the_first_character_index() {
    assert_eq!(find_str("abcabc", "ca"), Some(2));
    assert_eq!(find_str("abc", ""), Some(0));
    assert_eq!(find_str("abc", "abcd"), None);
    assert_eq!(find_str("éab", "ab"), Some(1));
    assert_eq!(find_str("aaa", "b"), None);
}

#[test]
fn find_char_from_a_position() {
    assert_eq!(find_char("a\"b\"c", '"', 0), Some(1));
    assert_eq!(find_char("a\"b\"c", '"', 2), Some(3));
    assert_eq!(find_char("a\"b\"c", '"', 4), None);
    assert_eq!(find_char("abc", 'z', 10), None);
}

#[test]
fn str_equality() {
    assert!(str_equals("SUCCESS", "SUCCESS"));
    assert!(!str_equals("SUCCESS", "SUCCES"));
    assert!(!str_equals("a", "b"));
    assert!(str_equals("", ""));
}
