use berd_lexer::chars::{classify, classify_text, is_whitespace, CharClass};

#[test]
fn white_space_is_what_the_standard_library_says() {
    for code in 0..=0x10FFFFu32 {
        if let Some(c) = char::from_u32(code) {
            assert_eq!(is_whitespace(c), c.is_whitespace(), "{:x}", code);
        }
    }
}

#[test]
fn white_space_has_twenty_five_characters() {
    let count = (0..=0x10FFFFu32).filter_map(char::from_u32).filter(|c| is_whitespace(*c)).count();
    assert_eq!(count, 25);
}

#[test]
fn white_space_includes_space_and_newline() {
    assert!(is_whitespace(' '));
    assert!(is_whitespace('\n'));
    assert!(is_whitespace('\t'));
    assert!(is_whitespace('\r'));
    assert!(is_whitespace('\u{a0}'));
    assert!(!is_whitespace('a'));
    assert!(!is_whitespace('!'));
    assert!(!is_whitespace('?'));
    assert!(!is_whitespace('"'));
    assert!(!is_whitespace('\u{200b}'));
    assert!(!is_whitespace('\u{8}'));
    assert!(!is_whitespace('\u{e}'));
}

#[test]
fn classify_tells_letters_from_digits() {
    assert_eq!(classify('a'), CharClass { alphabetic: true, numeric: false });
    assert_eq!(classify('Z'), CharClass { alphabetic: true, numeric: false });
    assert_eq!(classify('京'), CharClass { alphabetic: true, numeric: false });
    assert_eq!(classify('7'), CharClass { alphabetic: false, numeric: true });
    assert_eq!(classify('¾'), CharClass { alphabetic: false, numeric: true });
    assert_eq!(classify('٣'), CharClass { alphabetic: false, numeric: true });
    assert_eq!(classify('Ⅷ'), CharClass { alphabetic: true, numeric: true });
    assert_eq!(classify('_'), CharClass { alphabetic: false, numeric: false });
    assert_eq!(classify(' '), CharClass { alphabetic: false, numeric: false });
    assert_eq!(classify('💝'), CharClass { alphabetic: false, numeric: false });
}

#[test]
fn classify_is_what_the_standard_library_says() {
    for code in 0..=0x10FFFFu32 {
        if let Some(c) = char::from_u32(code) {
            let class = classify(c);
            assert_eq!(class.alphabetic, c.is_alphabetic());
            assert_eq!(class.numeric, c.is_numeric());
            assert_eq!(class.is_alphanumeric(), c.is_alphanumeric());
        }
    }
}

#[test]
fn is_alphanumeric_is_either() {
    assert!(CharClass { alphabetic: true, numeric: false }.is_alphanumeric());
    assert!(CharClass { alphabetic: false, numeric: true }.is_alphanumeric());
    assert!(CharClass { alphabetic: true, numeric: true }.is_alphanumeric());
    assert!(!CharClass { alphabetic: false, numeric: false }.is_alphanumeric());
}

#[test]
fn classify_text_classifies_each_character_in_order() {
    assert_eq!(classify_text(""), vec![]);
    assert_eq!(
        classify_text("a1 é"),
        vec![
            CharClass { alphabetic: true, numeric: false },
            CharClass { alphabetic: false, numeric: true },
            CharClass { alphabetic: false, numeric: false },
            CharClass { alphabetic: true, numeric: false },
        ]
    );
}
