use devchain::text::{
    chars_of, is_blank_text, is_whitespace_char, push_decimal, remove_whitespace, same_text,
    to_hex, trim,
};

#[test]
fn whitespace_characters_are_the_unicode_white_space_set() {
    for c in [' ', '\t', '\n', '\u{0B}', '\u{0C}', '\r', '\u{85}', '\u{A0}', '\u{1680}', '\u{2000}',
        '\u{200A}', '\u{2028}', '\u{2029}', '\u{202F}', '\u{205F}', '\u{3000}']
    {
        assert!(is_whitespace_char(c), "{:?}", c);
        assert!(c.is_whitespace());
    }
    for c in ['a', '0', '_', '\u{08}', '\u{0E}', '\u{200B}', '\u{FEFF}', '\u{1F}', '\u{2060}'] {
        assert!(!is_whitespace_char(c), "{:?}", c);
        assert!(!c.is_whitespace());
    }
}

#[test]
fn whitespace_test_agrees_with_std_on_every_char() {
    let mut v: u32 = 0;
    while v <= 0x10FFFF {
        if let Some(c) = char::from_u32(v) {
            assert_eq!(is_whitespace_char(c), c.is_whitespace(), "U+{:04X}", v);
        }
        v += 1;
    }
}

#[test]
fn remove_whitespace_drops_every_whitespace_character() {
    assert_eq!(remove_whitespace("a b\tc\n d"), "abcd");
    assert_eq!(remove_whitespace("  \u{A0}x\u{3000}y\r\n"), "xy");
    assert_eq!(remove_whitespace(""), "");
    assert_eq!(remove_whitespace(" \t\n"), "");
    assert_eq!(remove_whitespace("héllo wörld"), "héllowörld");
}

#[test]
fn blank_text_holds_only_whitespace() {
    assert!(is_blank_text(""));
    assert!(is_blank_text("   "));
    assert!(is_blank_text("\n\t \r\u{2003}"));
    assert!(!is_blank_text(" a "));
    assert!(!is_blank_text("\u{200B}"));
}

#[test]
fn same_text_compares_character_by_character() {
    assert!(same_text("", ""));
    assert!(same_text("Python", "Python"));
    assert!(!same_text("Python", "python"));
    assert!(!same_text("Python", "Pytho"));
    assert!(!same_text("é", "e"));
    assert!(same_text("日本語", "日本語"));
}

#[test]
fn hex_is_lower_case_two_digits_per_byte() {
    assert_eq!(to_hex(&[]), "");
    assert_eq!(to_hex(&[0x00, 0x0f, 0xa5, 0xff]), "000fa5ff");
    assert_eq!(to_hex(&[0x10, 0x9a, 0xbc, 0xde]), "109abcde");
}

#[test]
fn decimal_has_no_leading_zeros() {
    let mut out = String::from("n=");
    push_decimal(&mut out, 0);
    assert_eq!(out, "n=0");
    let mut out = String::new();
    push_decimal(&mut out, 100);
    assert_eq!(out, "100");
    let mut out = String::new();
    push_decimal(&mut out, 9);
    push_decimal(&mut out, 10);
    assert_eq!(out, "910");
    let mut out = String::new();
    push_decimal(&mut out, u64::MAX);
    assert_eq!(out, "18446744073709551615");
}

#[test]
fn trim_removes_whitespace_at_both_ends_only() {
    assert_eq!(trim("  a b \n"), "a b");
    assert_eq!(trim("a"), "a");
    assert_eq!(trim(""), "");
    assert_eq!(trim(" \t "), "");
    assert_eq!(trim("\u{3000}x y\u{A0}"), "x y");
    for s in ["  a b \n", "x", "", "   ", "\t7\r\n", " é "] {
        assert_eq!(trim(s), s.trim());
    }
}

#[test]
fn chars_of_lists_the_characters() {
    assert_eq!(chars_of("aé日"), vec!['a', 'é', '日']);
    assert_eq!(chars_of(""), Vec::<char>::new());
}
