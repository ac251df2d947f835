use clac::lex::errors::ErrorKind;
use clac::lex::{LexError, Lexer};
use clac::tokens::Token;
use clac::symbols::Symbols;
use std::f64::consts::PI;
use Expect::{Bool, Name, Num, Tok};

/// The value of a number token, parsed as the compiler's consumer would.
fn number(token: &Result<Token, LexError>) -> Option<f64> {
    match token {
        Ok(Token::Number(lexeme)) => lexeme.parse().ok(),
        _ => None,
    }
}

fn ident(token: &Result<Token, LexError>) -> Option<String> {
    match token {
        Ok(Token::Ident(name)) => Some(name.clone()),
        _ => None,
    }
}

#[test]
fn empty_source_code_produces_no_tokens() {
    let mut lexer = Lexer::new("");
    assert!(matches!(lexer.next_token(), Ok(Token::Eof)));
}

#[test]
fn whitespace_produces_no_tokens() {
    let mut lexer = Lexer::new(" \r\n\t ");
    assert!(matches!(lexer.next_token(), Ok(Token::Eof)));
}

#[test]
fn whitespace_separates_digraph_tokens() {
    let mut lexer = Lexer::new("- >, ->, = =, ==, ! =, !=, < =, <=, > =, >=, & &, &&, | |, ||,");
    let expected = [
        Ok(Token::Minus),
        Ok(Token::Greater),
        Ok(Token::Comma),
        Ok(Token::MinusGreater),
        Ok(Token::Comma),
        Ok(Token::Equals),
        Ok(Token::Equals),
        Ok(Token::Comma),
        Ok(Token::EqualsEquals),
        Ok(Token::Comma),
        Ok(Token::Bang),
        Ok(Token::Equals),
        Ok(Token::Comma),
        Ok(Token::BangEquals),
        Ok(Token::Comma),
        Ok(Token::Less),
        Ok(Token::Equals),
        Ok(Token::Comma),
        Ok(Token::LessEquals),
        Ok(Token::Comma),
        Ok(Token::Greater),
        Ok(Token::Equals),
        Ok(Token::Comma),
        Ok(Token::GreaterEquals),
        Ok(Token::Comma),
        Err(LexError(ErrorKind::BitwiseAnd)),
        Err(LexError(ErrorKind::BitwiseAnd)),
        Ok(Token::Comma),
        Ok(Token::AndAnd),
        Ok(Token::Comma),
        Err(LexError(ErrorKind::BitwiseOr)),
        Err(LexError(ErrorKind::BitwiseOr)),
        Ok(Token::Comma),
        Ok(Token::PipePipe),
        Ok(Token::Comma),
    ];
    for token in expected {
        assert_eq!(lexer.next_token(), token);
    }
    assert!(matches!(lexer.next_token(), Ok(Token::Eof)));
}

#[test]
fn non_ascii_chars_are_scanned() {
    let mut lexer = Lexer::new("(Café ☕!)(🦀💻🧮)");
    assert_eq!(lexer.next_token(), Ok(Token::OpenParen));
    assert_eq!(ident(&lexer.next_token()).as_deref(), Some("Caf"));
    assert_eq!(lexer.next_token(), Err(LexError(ErrorKind::UnexpectedChar('é'))));
    assert_eq!(lexer.next_token(), Err(LexError(ErrorKind::UnexpectedChar('☕'))));
    assert_eq!(lexer.next_token(), Ok(Token::Bang));
    assert_eq!(lexer.next_token(), Ok(Token::CloseParen));
    assert_eq!(lexer.next_token(), Ok(Token::OpenParen));
    assert_eq!(lexer.next_token(), Err(LexError(ErrorKind::UnexpectedChar('🦀'))));
    assert_eq!(lexer.next_token(), Err(LexError(ErrorKind::UnexpectedChar('💻'))));
    assert_eq!(lexer.next_token(), Err(LexError(ErrorKind::UnexpectedChar('🧮'))));
    assert_eq!(lexer.next_token(), Ok(Token::CloseParen));
    assert!(matches!(lexer.next_token(), Ok(Token::Eof)));
}

#[test]
fn trailing_eof_tokens_are_produced() {
    let mut lexer = Lexer::new("1 2 3");
    assert_eq!(number(&lexer.next_token()), Some(1.0));
    assert_eq!(number(&lexer.next_token()), Some(2.0));
    assert_eq!(number(&lexer.next_token()), Some(3.0));
    for _ in 0..16 {
        assert!(matches!(lexer.next_token(), Ok(Token::Eof)));
    }
}

/// The expected token at one position of a stream.
enum Expect {
    Tok(Token),
    Num(f64),
    Name(&'static str),
    Bool(bool),
}

fn assert_stream(source: &str, expected: Vec<Expect>) {
    let mut lexer = Lexer::new(source);
    for expect in expected {
        let token = lexer.next_token();
        match expect {
            Expect::Tok(t) => assert_eq!(token, Ok(t)),
            Expect::Num(n) => assert_eq!(number(&token), Some(n)),
            Expect::Name(s) => assert_eq!(ident(&token).as_deref(), Some(s)),
            Expect::Bool(b) => assert_eq!(token, Ok(Token::Bool(b))),
        }
    }
    assert!(matches!(lexer.next_token(), Ok(Token::Eof)));
}

#[test]
fn all_tokens_are_produced() {
    assert_stream(
        "-(1 + 2.5) * 3. / 4 == !{foo -> _B4R = baz, true != false} min <= mid < max > 2 >= 1",
        vec![
            Tok(Token::Minus),
            Tok(Token::OpenParen),
            Num(1.0),
            Tok(Token::Plus),
            Num(2.5),
            Tok(Token::CloseParen),
            Tok(Token::Star),
            Num(3.0),
            Tok(Token::Slash),
            Num(4.0),
            Tok(Token::EqualsEquals),
            Tok(Token::Bang),
            Tok(Token::OpenBrace),
            Name("foo"),
            Tok(Token::MinusGreater),
            Name("_B4R"),
            Tok(Token::Equals),
            Name("baz"),
            Tok(Token::Comma),
            Bool(true),
            Tok(Token::BangEquals),
            Bool(false),
            Tok(Token::CloseBrace),
            Name("min"),
            Tok(Token::LessEquals),
            Name("mid"),
            Tok(Token::Less),
            Name("max"),
            Tok(Token::Greater),
            Num(2.0),
            Tok(Token::GreaterEquals),
            Num(1.0),
        ],
    );
    assert_stream("x ^ 2", vec![Name("x"), Tok(Token::Caret), Num(2.0)]);
    assert_stream(
        "foo && bar || baz",
        vec![Name("foo"), Tok(Token::AndAnd), Name("bar"), Tok(Token::PipePipe), Name("baz")],
    );
    assert_stream(
        "abs(n) = n < 0 ? -n : n",
        vec![
            Name("abs"),
            Tok(Token::OpenParen),
            Name("n"),
            Tok(Token::CloseParen),
            Tok(Token::Equals),
            Name("n"),
            Tok(Token::Less),
            Num(0.0),
            Tok(Token::Question),
            Tok(Token::Minus),
            Name("n"),
            Tok(Token::Colon),
            Name("n"),
        ],
    );
}

#[test]
fn integers_tokens_are_produced() {
    assert_stream(
        "0, -1, 002, 300, 00400, 5_000, 0b1010, 0o10, 0xff,",
        vec![
            Num(0.0),
            Tok(Token::Comma),
            Tok(Token::Minus),
            Num(1.0),
            Tok(Token::Comma),
            Num(2.0),
            Tok(Token::Comma),
            Num(300.0),
            Tok(Token::Comma),
            Num(400.0),
            Tok(Token::Comma),
            Num(5.0),
            Name("_000"),
            Tok(Token::Comma),
            Num(0.0),
            Name("b1010"),
            Tok(Token::Comma),
            Num(0.0),
            Name("o10"),
            Tok(Token::Comma),
            Num(0.0),
            Name("xff"),
            Tok(Token::Comma),
        ],
    );
}

#[test]
fn decimal_tokens_are_produced() {
    let mut lexer = Lexer::new("0.0, 1., -2.5, 00300.12500, 4.0625, .5, 0.03125, .,");
    assert_eq!(number(&lexer.next_token()), Some(0.0));
    assert_eq!(lexer.next_token(), Ok(Token::Comma));
    assert_eq!(number(&lexer.next_token()), Some(1.0));
    assert_eq!(lexer.next_token(), Ok(Token::Comma));
    assert_eq!(lexer.next_token(), Ok(Token::Minus));
    assert_eq!(number(&lexer.next_token()), Some(2.5));
    assert_eq!(lexer.next_token(), Ok(Token::Comma));
    assert_eq!(number(&lexer.next_token()), Some(300.125));
    assert_eq!(lexer.next_token(), Ok(Token::Comma));
    assert_eq!(number(&lexer.next_token()), Some(4.0625));
    assert_eq!(lexer.next_token(), Ok(Token::Comma));
    assert_eq!(lexer.next_token(), Err(LexError(ErrorKind::UnexpectedChar('.'))));
    assert_eq!(number(&lexer.next_token()), Some(5.0));
    assert_eq!(lexer.next_token(), Ok(Token::Comma));
    assert_eq!(number(&lexer.next_token()), Some(0.03125));
    assert_eq!(lexer.next_token(), Ok(Token::Comma));
    assert_eq!(lexer.next_token(), Err(LexError(ErrorKind::UnexpectedChar('.'))));
    assert_eq!(lexer.next_token(), Ok(Token::Comma));
    assert!(matches!(lexer.next_token(), Ok(Token::Eof)));
}

#[test]
fn decimal_tokens_are_accurate() {
    let mut lexer = Lexer::new("3.14159265358979323846264338327950288");
    assert_eq!(number(&lexer.next_token()), Some(PI));
    assert!(matches!(lexer.next_token(), Ok(Token::Eof)));

    let mut lexer = Lexer::new(
        "3.141592653589793238462643383279502884197169399375105820974944592307816406286208998628035",
    );
    assert_eq!(number(&lexer.next_token()), Some(PI));
    assert!(matches!(lexer.next_token(), Ok(Token::Eof)));
}

#[test]
fn keywords_are_length_sensitive() {
    assert_stream(
        "f, fals, false, false_, falsetto,",
        vec![
            Name("f"),
            Tok(Token::Comma),
            Name("fals"),
            Tok(Token::Comma),
            Bool(false),
            Tok(Token::Comma),
            Name("false_"),
            Tok(Token::Comma),
            Name("falsetto"),
            Tok(Token::Comma),
        ],
    );
    assert_stream(
        "t, tru, true, true_, truest,",
        vec![
            Name("t"),
            Tok(Token::Comma),
            Name("tru"),
            Tok(Token::Comma),
            Bool(true),
            Tok(Token::Comma),
            Name("true_"),
            Tok(Token::Comma),
            Name("truest"),
            Tok(Token::Comma),
        ],
    );
}

#[test]
fn keywords_are_case_sensitive() {
    let mut lexer = Lexer::new("false, False, FALSE, fálse,");
    assert_eq!(lexer.next_token(), Ok(Token::Bool(false)));
    assert_eq!(lexer.next_token(), Ok(Token::Comma));
    assert_eq!(ident(&lexer.next_token()).as_deref(), Some("False"));
    assert_eq!(lexer.next_token(), Ok(Token::Comma));
    assert_eq!(ident(&lexer.next_token()).as_deref(), Some("FALSE"));
    assert_eq!(lexer.next_token(), Ok(Token::Comma));
    assert_eq!(ident(&lexer.next_token()).as_deref(), Some("f"));
    assert_eq!(lexer.next_token(), Err(LexError(ErrorKind::UnexpectedChar('á'))));
    assert_eq!(ident(&lexer.next_token()).as_deref(), Some("lse"));
    assert_eq!(lexer.next_token(), Ok(Token::Comma));
    assert!(matches!(lexer.next_token(), Ok(Token::Eof)));

    let mut lexer = Lexer::new("true, True, TRUE, trüe,");
    assert_eq!(lexer.next_token(), Ok(Token::Bool(true)));
    assert_eq!(lexer.next_token(), Ok(Token::Comma));
    assert_eq!(ident(&lexer.next_token()).as_deref(), Some("True"));
    assert_eq!(lexer.next_token(), Ok(Token::Comma));
    assert_eq!(ident(&lexer.next_token()).as_deref(), Some("TRUE"));
    assert_eq!(lexer.next_token(), Ok(Token::Comma));
    assert_eq!(ident(&lexer.next_token()).as_deref(), Some("tr"));
    assert_eq!(lexer.next_token(), Err(LexError(ErrorKind::UnexpectedChar('ü'))));
    assert_eq!(ident(&lexer.next_token()).as_deref(), Some("e"));
    assert_eq!(lexer.next_token(), Ok(Token::Comma));
    assert!(matches!(lexer.next_token(), Ok(Token::Eof)));
}

#[test]
fn symbols_are_reused_and_case_sensitive() {
    let mut symbols = Symbols::new();
    let mut lexer = Lexer::new("foo foo FOO FOO bar");
    let mut next_symbol = |lexer: &mut Lexer| {
        let Some(name) = ident(&lexer.next_token()) else {
            unreachable!("token should be an identifier");
        };
        (symbols.intern(&name), name)
    };

    let (lower_symbol, lower_name) = next_symbol(&mut lexer);
    assert_eq!(lower_name, "foo");
    assert_eq!(lower_symbol, next_symbol(&mut lexer).0);

    let (upper_symbol, upper_name) = next_symbol(&mut lexer);
    assert_eq!(upper_name, "FOO");
    assert_eq!(upper_symbol, next_symbol(&mut lexer).0);

    assert_ne!(lower_symbol, upper_symbol);

    let (other_symbol, other_name) = next_symbol(&mut lexer);
    assert_eq!(other_name, "bar");
    assert_ne!(other_symbol, lower_symbol);
    assert_ne!(other_symbol, upper_symbol);

    assert!(matches!(lexer.next_token(), Ok(Token::Eof)));
}

#[test]
fn lexer_reads_whitespace_from_unicode() {
    let mut lexer = Lexer::new("\u{a0}1\u{2003}+\u{3000}x\u{85}");
    assert_eq!(number(&lexer.next_token()), Some(1.0));
    assert_eq!(lexer.next_token(), Ok(Token::Plus));
    assert_eq!(ident(&lexer.next_token()).as_deref(), Some("x"));
    assert!(matches!(lexer.next_token(), Ok(Token::Eof)));
}

#[test]
fn whitespace_set_matches_std() {
    for c in ['\u{0}', ' ', '\t', '\n', '\u{b}', '\u{c}', '\r', '\u{85}', '\u{a0}', '\u{1680}',
        '\u{2000}', '\u{200a}', '\u{200b}', '\u{2028}', '\u{2029}', '\u{202f}', '\u{205f}',
        '\u{3000}', 'a', '_', '\u{feff}', '\u{180e}'] {
        assert_eq!(clac::chars::is_whitespace(c), c.is_whitespace(), "{c:?}");
    }
    for code in 0u32..=0x3100 {
        if let Some(c) = char::from_u32(code) {
            assert_eq!(clac::chars::is_whitespace(c), c.is_whitespace(), "{code:#x}");
        }
    }
}

#[test]
fn number_lexemes_keep_their_text() {
    let mut lexer = Lexer::new("007.50 1.");
    assert_eq!(lexer.next_token(), Ok(Token::Number("007.50".to_string())));
    assert_eq!(lexer.next_token(), Ok(Token::Number("1.".to_string())));
    assert_eq!(lexer.next_token(), Ok(Token::Eof));
}
