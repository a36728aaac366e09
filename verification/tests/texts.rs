use sukusho::text::{chars_of, same_chars, same_text, utf16_units};

#[test]
fn characters_are_read_in_order() {
    assert_eq!(chars_of("a😀é"), vec!['a', '😀', 'é']);
    assert_eq!(chars_of(""), Vec::<char>::new());
}

#[test]
fn texts_are_compared_character_by_character() {
    assert!(same_text("png", "png"));
    assert!(same_text("", ""));
    assert!(!same_text("png", "pn"));
    assert!(!same_text("png", "pnh"));
    assert!(!same_text("png", "PNG"));
    assert!(same_chars(&vec!['a', 'b'], &vec!['a', 'b']));
    assert!(!same_chars(&vec!['a', 'b'], &vec!['b', 'a']));
    assert!(!same_chars(&vec![], &vec!['a']));
}

#[test]
fn one_unit_for_the_basic_plane() {
    assert_eq!(utf16_units("C:\\a"), vec![0x43, 0x3A, 0x5C, 0x61]);
    assert_eq!(utf16_units("\u{FFFF}\u{0}\u{D7FF}\u{E000}"), vec![0xFFFF, 0, 0xD7FF, 0xE000]);
    assert_eq!(utf16_units(""), Vec::<u16>::new());
}

#[test]
fn two_units_beyond_the_basic_plane() {
    assert_eq!(utf16_units("\u{10000}"), vec![0xD800, 0xDC00]);
    assert_eq!(utf16_units("😀"), vec![0xD83D, 0xDE00]);
    assert_eq!(utf16_units("\u{10FFFF}"), vec![0xDBFF, 0xDFFF]);
}

#[test]
fn units_agree_with_the_standard_library() {
    for text in ["", "C:\\shots\\a.png", "스크린샷", "日本語", "a😀b\u{10000}c\u{10FFFF}", "\u{0}x", "é\u{FFFF}"] {
        let expected: Vec<u16> = text.encode_utf16().collect();
        assert_eq!(utf16_units(text), expected, "{:?}", text);
    }
}
