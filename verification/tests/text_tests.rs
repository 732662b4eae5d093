use beanstalk_hir::text::{is_blank, is_unicode_whitespace};

#[test]
fn whitespace_matches_std_for_every_char() {
    for n in 0u32..=0x10FFFF {
        if let Some(c) = char::from_u32(n) {
            assert_eq!(is_unicode_whitespace(c), c.is_whitespace(), "char {:x}", n);
        }
    }
}

#[test]
fn blank_text_is_what_trims_to_nothing() {
    for s in ["", " ", "\t\n", "\u{a0}\u{2009}", " a ", "x", "\u{200b}"] {
        assert_eq!(is_blank(s), s.trim().is_empty(), "{:?}", s);
    }
}
