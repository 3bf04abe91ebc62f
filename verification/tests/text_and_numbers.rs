use pumpkin::command::tokenizer::tokenize;
use pumpkin::number::{format_i32, parse_i32, NumberError};
use pumpkin::protocol::{floor_at_zero, ExperienceCounters};
use pumpkin::text::{chars_of, same_chars, same_text, spells, whitespace};

fn word(text: &str) -> Vec<char> {
    text.chars().collect()
}

fn words(texts: &[&str]) -> Vec<Vec<char>> {
    texts.iter().map(|t| word(t)).collect()
}

#[test]
fn chars_of_keeps_every_character() {
    assert_eq!(chars_of("xp add"), vec!['x', 'p', ' ', 'a', 'd', 'd']);
    assert_eq!(chars_of(""), Vec::<char>::new());
    assert_eq!(chars_of("é@"), vec!['é', '@']);
}

#[test]
fn text_comparisons_are_exact() {
    assert!(same_chars(&word("Steve"), &word("Steve")));
    assert!(!same_chars(&word("Steve"), &word("steve")));
    assert!(!same_chars(&word("Steve"), &word("Stev")));
    assert!(spells(&word("add"), "add"));
    assert!(!spells(&word("add"), "adds"));
    assert!(same_text("levels", "levels"));
    assert!(!same_text("levels", "points"));
    assert!(same_text("", ""));
}

#[test]
fn whitespace_is_the_five_ascii_separators() {
    for c in [' ', '\t', '\n', '\x0C', '\r'] {
        assert!(whitespace(c));
    }
    for c in ['a', '0', '@', '-', '\u{00A0}', '\x0B'] {
        assert!(!whitespace(c));
    }
}

#[test]
fn tokenize_splits_at_whitespace() {
    assert_eq!(tokenize("xp add Steve 5 levels"), words(&["xp", "add", "Steve", "5", "levels"]));
}

#[test]
fn tokenize_ignores_leading_trailing_and_repeated_whitespace() {
    assert_eq!(tokenize("  xp \t add\n\nSteve  "), words(&["xp", "add", "Steve"]));
}

#[test]
fn tokenize_of_blank_lines_is_empty() {
    assert_eq!(tokenize(""), Vec::<Vec<char>>::new());
    assert_eq!(tokenize(" \t\r\n"), Vec::<Vec<char>>::new());
}

#[test]
fn tokenize_keeps_a_single_word() {
    assert_eq!(tokenize("xp"), words(&["xp"]));
    assert_eq!(tokenize("@a"), words(&["@a"]));
}

#[test]
fn whitespace_keeps_the_tokens_of_both_sides_apart() {
    for (left, right) in [("xp add", "Steve 5"), ("", "a"), ("a", ""), (" a ", " b "), ("ab", "cd")] {
        for separator in [' ', '\t', '\n'] {
            let joined = format!("{}{}{}", left, separator, right);
            let mut expected = tokenize(left);
            expected.extend(tokenize(right));
            assert_eq!(tokenize(&joined), expected, "{:?}", joined);
        }
    }
}

#[test]
fn no_token_is_empty_or_holds_whitespace() {
    for line in ["xp add Steve 5 levels", "  a\t\tb  ", "\n", "x", "a \r\n b \x0C c"] {
        for token in tokenize(line) {
            assert!(!token.is_empty());
            assert!(token.iter().all(|c| !whitespace(*c)));
        }
    }
}

#[test]
fn parse_i32_reads_plain_and_signed_numerals() {
    assert_eq!(parse_i32(&word("0")), Ok(0));
    assert_eq!(parse_i32(&word("5")), Ok(5));
    assert_eq!(parse_i32(&word("+5")), Ok(5));
    assert_eq!(parse_i32(&word("-10")), Ok(-10));
    assert_eq!(parse_i32(&word("007")), Ok(7));
    assert_eq!(parse_i32(&word("-0")), Ok(0));
}

#[test]
fn parse_i32_reads_the_limits() {
    assert_eq!(parse_i32(&word("2147483647")), Ok(i32::MAX));
    assert_eq!(parse_i32(&word("-2147483648")), Ok(i32::MIN));
}

#[test]
fn parse_i32_reports_values_that_do_not_fit() {
    assert_eq!(parse_i32(&word("2147483648")), Err(NumberError::OutOfRange));
    assert_eq!(parse_i32(&word("-2147483649")), Err(NumberError::OutOfRange));
    assert_eq!(parse_i32(&word("99999999999999999999999999")), Err(NumberError::OutOfRange));
}

#[test]
fn parse_i32_rejects_what_is_no_numeral() {
    for text in ["", "-", "+", "abc", "5a", "a5", "5 ", "1_000", "0x10", "1.5", "--5", "5-"] {
        assert_eq!(parse_i32(&word(text)), Err(NumberError::NotANumeral), "{:?}", text);
    }
    assert_eq!(parse_i32(&word("99999999999999999999x")), Err(NumberError::NotANumeral));
}

#[test]
fn format_i32_writes_decimal_notation() {
    assert_eq!(format_i32(0), "0");
    assert_eq!(format_i32(5), "5");
    assert_eq!(format_i32(42), "42");
    assert_eq!(format_i32(-10), "-10");
    assert_eq!(format_i32(1000), "1000");
    assert_eq!(format_i32(i32::MAX), "2147483647");
    assert_eq!(format_i32(i32::MIN), "-2147483648");
}

#[test]
fn every_formatted_number_reads_back() {
    for v in [0, 1, -1, 9, 10, 17, 85, -85, 12345, i32::MAX, i32::MIN] {
        assert_eq!(parse_i32(&word(&format_i32(v))), Ok(v));
    }
}

#[test]
fn floor_at_zero_raises_negative_values_only() {
    assert_eq!(floor_at_zero(-3), 0);
    assert_eq!(floor_at_zero(-1), 0);
    assert_eq!(floor_at_zero(0), 0);
    assert_eq!(floor_at_zero(7), 7);
    assert_eq!(floor_at_zero(i32::MIN), 0);
    assert_eq!(floor_at_zero(i32::MAX), i32::MAX);
}

#[test]
fn experience_counters_are_floored() {
    let counters = ExperienceCounters::new(-3, -1);
    assert_eq!(counters.level, 0);
    assert_eq!(counters.total_experience, 0);
    let kept = ExperienceCounters::new(4, 70);
    assert_eq!(kept, ExperienceCounters { level: 4, total_experience: 70 });
}

#[test]
fn experience_counters_are_idempotent() {
    for (level, total) in [(-3, -1), (0, 0), (5, -2), (-5, 2), (30, 1395)] {
        let once = ExperienceCounters::new(level, total);
        let twice = ExperienceCounters::new(once.level, once.total_experience);
        assert_eq!(once, twice);
    }
}
