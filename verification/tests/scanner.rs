use clac::lexer::scanner::Scanner;
use std::hint::black_box;

#[test]
fn empty_source() {
    let mut scanner = Scanner::new("");
    assert!(scanner.rest().is_empty());
    assert!(scanner.peek().is_none());
    assert!(scanner.lexeme().is_empty());
    assert!(!scanner.eat('\0'));
    assert!(scanner.bump().is_none());
}

#[test]
fn lexemes() {
    const SOURCE: &str = "{áéíóú}[☕🧀🍗]";

    let mut scanner = Scanner::new(SOURCE);
    assert!(scanner.lexeme().is_empty());
    assert_eq!(scanner.bump(), Some('{'));
    assert_eq!(scanner.lexeme(), "{");

    scanner.begin_lexeme();
    assert!(scanner.lexeme().is_empty());
    scanner.eat_while(char::is_alphabetic);
    assert_eq!(scanner.lexeme(), "áéíóú");

    scanner.begin_lexeme();
    assert!(scanner.lexeme().is_empty());
    assert_eq!(scanner.bump(), Some('}'));
    assert_eq!(scanner.bump(), Some('['));
    assert_eq!(scanner.lexeme(), "}[");

    scanner.begin_lexeme();
    assert!(scanner.lexeme().is_empty());
    assert_eq!(scanner.bump(), Some('☕'));
    assert_eq!(scanner.bump(), Some('🧀'));
    assert_eq!(scanner.bump(), Some('🍗'));
    assert_eq!(scanner.lexeme(), "☕🧀🍗");

    scanner.begin_lexeme();
    assert!(scanner.lexeme().is_empty());
    assert_eq!(scanner.bump(), Some(']'));
    assert_eq!(scanner.lexeme(), "]");

    assert!(scanner.bump().is_none());
    assert!(!scanner.eat('\0'));
    assert_eq!(scanner.rest(), scanner.lexeme());
}

/// A `char` predicate function that always returns `true`.
fn is_char_not_eof(char: char) -> bool {
    black_box(char) == black_box(char)
}

#[test]
fn eat_while_terminates() {
    const SOURCE: &str = "0123456789";

    let mut scanner = Scanner::new(SOURCE);
    assert!(scanner.lexeme().is_empty());
    scanner.eat_while(is_char_not_eof);
    assert_eq!(scanner.lexeme(), SOURCE);
    assert!(scanner.peek().is_none());
}

#[test]
fn eat_matches_only_the_expected_char() {
    let mut scanner = Scanner::new("ab");
    assert!(!scanner.eat('b'));
    assert!(scanner.eat('a'));
    assert!(scanner.eat('b'));
    assert!(!scanner.eat('b'));
    assert_eq!(scanner.lexeme(), "ab");
    assert!(scanner.lexeme_matches(&['a', 'b']));
    assert!(!scanner.lexeme_matches(&['a']));
}

#[test]
fn rest_starts_at_the_lexeme() {
    let mut scanner = Scanner::new("xyz");
    scanner.bump();
    scanner.begin_lexeme();
    assert_eq!(scanner.rest(), "yz");
    scanner.bump();
    assert_eq!(scanner.rest(), "yz");
    assert_eq!(scanner.lexeme(), "y");
}
