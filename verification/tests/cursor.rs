use berd_lexer::lexer::Input;
use berd_lexer::token::Location;

fn input(text: &str) -> Input {
    Input::of(text.to_string())
}

fn at(text: &str, cursor: u32) -> Input {
    let mut input = input(text);
    input.move_cursor(cursor);
    assert_eq!(input.cursor, cursor);
    input
}

#[test]
fn of_starts_at_the_beginning() {
    let input = input("abc");
    assert_eq!(input.input, "abc");
    assert_eq!(input.cursor, 0);
    assert!(input.is_well_formed());
}

#[test]
fn a_cursor_past_the_end_is_not_well_formed() {
    let input = Input { input: "abc".to_string(), cursor: 4 };
    assert!(!input.is_well_formed());
    let input = Input { input: "abc".to_string(), cursor: 3 };
    assert!(input.is_well_formed());
}

#[test]
fn move_cursor_advances_within_the_text() {
    let mut input = input("hello");
    input.move_cursor(2);
    assert_eq!(input.cursor, 2);
    input.move_cursor(3);
    assert_eq!(input.cursor, 5);
    input.move_cursor(0);
    assert_eq!(input.cursor, 5);
}

#[test]
fn move_cursor_past_the_end_does_nothing() {
    let mut input = input("hello");
    input.move_cursor(6);
    assert_eq!(input.cursor, 0);
    input.move_cursor(4);
    input.move_cursor(2);
    assert_eq!(input.cursor, 4);
    input.move_cursor(u32::MAX);
    assert_eq!(input.cursor, 4);
    assert_eq!(input.input, "hello");
}

#[test]
fn the_cursor_counts_characters_not_bytes() {
    let mut input = input("héé!");
    assert_eq!(input.remaining_length(), 4);
    input.move_cursor(3);
    assert_eq!(input.peek(), Some('!'));
    assert_eq!(input.remaining_length(), 1);
    input.move_cursor(2);
    assert_eq!(input.cursor, 3);
    input.move_cursor(1);
    assert_eq!(input.cursor, 4);
    assert!(!input.has_remaining_input());
}

#[test]
fn remaining_length_counts_down() {
    assert_eq!(input("").remaining_length(), 0);
    assert_eq!(input("abc").remaining_length(), 3);
    assert_eq!(at("abc", 1).remaining_length(), 2);
    assert_eq!(at("abc", 3).remaining_length(), 0);
}

#[test]
fn peek_gives_the_character_at_the_cursor() {
    assert_eq!(input("").peek(), None);
    assert_eq!(input("abc").peek(), Some('a'));
    assert_eq!(at("abc", 2).peek(), Some('c'));
    assert_eq!(at("abc", 3).peek(), None);
    assert_eq!(at("aé∀", 1).peek(), Some('é'));
    assert_eq!(at("aé∀", 2).peek(), Some('∀'));
    let input = at("abc", 1);
    assert_eq!(input.peek(), Some('b'));
    assert_eq!(input.peek(), Some('b'));
    assert_eq!(input.cursor, 1);
}

#[test]
fn has_remaining_input_until_the_end() {
    assert!(!input("").has_remaining_input());
    assert!(input("a").has_remaining_input());
    assert!(at("ab", 1).has_remaining_input());
    assert!(!at("ab", 2).has_remaining_input());
}

#[test]
fn skip_whitespace_stops_at_the_first_other_character() {
    let mut input = input("  \t\n x y");
    input.skip_whitespace(u32::MAX, true);
    assert_eq!(input.cursor, 5);
    assert_eq!(input.peek(), Some('x'));
    input.skip_whitespace(u32::MAX, true);
    assert_eq!(input.cursor, 5);
}

#[test]
fn skip_whitespace_skips_at_most_max() {
    let mut input = input("     x");
    input.skip_whitespace(2, false);
    assert_eq!(input.cursor, 2);
    input.skip_whitespace(0, false);
    assert_eq!(input.cursor, 2);
    input.skip_whitespace(3, false);
    assert_eq!(input.cursor, 5);
    input.skip_whitespace(3, false);
    assert_eq!(input.cursor, 5);
}

#[test]
fn skip_whitespace_runs_to_the_end() {
    let mut input = input("a \n\n  ");
    input.move_cursor(1);
    input.skip_whitespace(u32::MAX, true);
    assert_eq!(input.cursor, 6);
    assert!(!input.has_remaining_input());
}

#[test]
fn skip_whitespace_keeps_a_single_trailing_space() {
    let mut input = input("a ");
    input.move_cursor(1);
    input.skip_whitespace(u32::MAX, true);
    assert_eq!(input.cursor, 1);
    input.skip_whitespace(u32::MAX, false);
    assert_eq!(input.cursor, 2);
}

#[test]
fn skip_whitespace_keeps_only_a_plain_space() {
    for text in ["a\n", "a\t", "a\u{a0}"] {
        let mut input = input(text);
        input.move_cursor(1);
        input.skip_whitespace(u32::MAX, true);
        assert_eq!(input.cursor, 2);
    }
}

#[test]
fn skip_whitespace_skips_two_trailing_spaces() {
    let mut input = input("a  ");
    input.move_cursor(1);
    input.skip_whitespace(u32::MAX, true);
    assert_eq!(input.cursor, 3);
}

#[test]
fn skip_whitespace_knows_unicode_white_space() {
    let mut input = input("\u{85}\u{a0}\u{1680}\u{2000}\u{200a}\u{2028}\u{2029}\u{202f}\u{205f}\u{3000}\u{200b}");
    input.skip_whitespace(u32::MAX, false);
    assert_eq!(input.cursor, 10);
    assert_eq!(input.peek(), Some('\u{200b}'));
}

#[test]
fn remaining_input_is_the_rest() {
    assert_eq!(input("hello").remaining_input(), "hello");
    assert_eq!(at("hello", 2).remaining_input(), "llo");
    assert_eq!(at("hello", 5).remaining_input(), "");
    assert_eq!(at("aé∀b", 2).remaining_input(), "∀b");
}

#[test]
fn peek_string_chars_gives_the_next_characters() {
    let input = at("hello", 1);
    assert_eq!(input.peek_string_chars(0), "");
    assert_eq!(input.peek_string_chars(1), "e");
    assert_eq!(input.peek_string_chars(3), "ell");
    assert_eq!(input.peek_string_chars(4), "ello");
    assert_eq!(input.cursor, 1);
}

#[test]
fn peek_string_chars_gives_nothing_when_too_few_are_left() {
    let input = at("hello", 1);
    assert_eq!(input.peek_string_chars(5), "");
    assert_eq!(input.peek_string_chars(u32::MAX), "");
    assert_eq!(at("hello", 5).peek_string_chars(1), "");
}

#[test]
fn read_returns_the_text_and_advances() {
    let mut input = input("hello world");
    assert_eq!(input.read(5), "hello");
    assert_eq!(input.cursor, 5);
    assert_eq!(input.read(1), " ");
    assert_eq!(input.read(0), "");
    assert_eq!(input.cursor, 6);
    assert_eq!(input.read(5), "world");
    assert_eq!(input.cursor, 11);
}

#[test]
fn read_past_the_end_reads_nothing_and_stays() {
    let mut input = input("hello");
    input.move_cursor(3);
    assert_eq!(input.read(3), "");
    assert_eq!(input.cursor, 3);
    assert_eq!(input.read(2), "lo");
    assert_eq!(input.read(1), "");
    assert_eq!(input.cursor, 5);
}

#[test]
fn read_counts_characters() {
    let mut input = input("aé∀b");
    assert_eq!(input.read(3), "aé∀");
    assert_eq!(input.read(1), "b");
}

#[test]
fn current_location_starts_at_one_one() {
    assert_eq!(input("").current_location(), Location { line: 1, col: 1 });
    assert_eq!(input("abc").current_location(), Location { line: 1, col: 1 });
}

#[test]
fn current_location_counts_columns_and_lines() {
    let text = "ab\ncd\n\nef";
    let expected = [(1, 1), (1, 2), (1, 3), (2, 1), (2, 2), (2, 3), (3, 1), (4, 1), (4, 2), (4, 3)];
    for (cursor, (line, col)) in expected.into_iter().enumerate() {
        assert_eq!(at(text, cursor as u32).current_location(), Location { line, col });
    }
}

#[test]
fn current_location_looks_only_before_the_cursor() {
    assert_eq!(at("ab\ncd", 2).current_location(), Location { line: 1, col: 3 });
    assert_eq!(at("ab", 2).current_location(), Location { line: 1, col: 3 });
}

#[test]
fn current_location_counts_characters() {
    assert_eq!(at("é∀\né", 2).current_location(), Location { line: 1, col: 3 });
    assert_eq!(at("é∀\né", 4).current_location(), Location { line: 2, col: 2 });
}
