use typingsucks::text::{char_is_whitespace, chars_of, lowercase_chars, trim_chars};

#[test]
fn white_space_is_unicode_white_space() {
    for u in 0..=0x10FFFFu32 {
        if let Some(c) = char::from_u32(u) {
            assert_eq!(char_is_whitespace(c), c.is_whitespace(), "U+{:04X}", u);
        }
    }
}

#[test]
fn trimming_matches_str_trim() {
    for s in ["  a b \n", "\u{3000}x\u{2029}", "", " \t ", "\u{85}y", "z"] {
        let t: String = trim_chars(&chars_of(s)).into_iter().collect();
        assert_eq!(t, s.trim());
    }
}

#[test]
fn lowercasing() {
    assert_eq!(lowercase_chars("ScrollLock"), chars_of("scrolllock"));
    assert_eq!(lowercase_chars("ÄÖ"), chars_of("äö"));
}
