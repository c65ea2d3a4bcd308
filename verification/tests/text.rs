use lectic::text::{chars_of, is_blank, trimmed, trimmed_span};

#[test]
fn characters_come_in_order() {
    assert_eq!(chars_of(""), Vec::<char>::new());
    assert_eq!(chars_of("aé\u{2003}z"), vec!['a', 'é', '\u{2003}', 'z']);
}

#[test]
fn blank_means_whitespace_alone() {
    assert!(is_blank(""));
    assert!(is_blank(" \t\n\u{b}\u{c}\r"));
    assert!(is_blank("\u{85}\u{a0}\u{1680}\u{2000}\u{200a}\u{2028}\u{2029}\u{202f}\u{205f}\u{3000}"));
    assert!(!is_blank(" a "));
    assert!(!is_blank("\u{200b}"));
    assert!(!is_blank("\u{8}"));
    assert!(!is_blank("\u{e}"));
    assert!(!is_blank("\u{1f}"));
}

#[test]
fn trimming_agrees_with_the_standard_library() {
    for s in ["", " ", "a", " a", "a ", "  a b  ", "\u{a0}a\u{3000}", "\n\t x \r\n", "\u{200b} "] {
        assert_eq!(trimmed(s), s.trim(), "{:?}", s);
    }
}

#[test]
fn trimmed_span_stays_within_its_range() {
    let chars = chars_of("ab  cd  ef");
    assert_eq!(trimmed_span(&chars, 2, 8), (4, 6));
    assert_eq!(trimmed_span(&chars, 2, 4), (4, 4));
    assert_eq!(trimmed_span(&chars, 0, 10), (0, 10));
    assert_eq!(trimmed_span(&chars, 5, 5), (5, 5));
}
