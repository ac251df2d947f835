pub mod errors;
pub mod scan;

use vstd::prelude::*;

use crate::chars::{
    is_ascii_alphabetic, is_ascii_digit, is_whitespace, lemma_scan_while, lemma_scan_while_all,
    lemma_scan_while_bounds, scan_while,
    spec_is_ascii_alphabetic, spec_is_ascii_digit, spec_is_whitespace,
};
use crate::tokens::{Token, TokenView};

use self::errors::ErrorKind;
use self::scan::{Scanner, ScannerView};

verus! {

/// An error caught while reading a [`Token`].
#[derive(Debug, PartialEq, Eq)]
pub struct LexError(pub ErrorKind);

/// Whether a `char` begins a keyword or identifier.
pub open spec fn spec_is_word_start(c: char) -> bool {
    spec_is_ascii_alphabetic(c) || c == '_'
}

/// Whether a `char` continues a keyword or identifier.
pub open spec fn spec_is_word_continue(c: char) -> bool {
    spec_is_word_start(c) || spec_is_ascii_digit(c)
}

/// Whether the `char` at offset `p` of `s` exists and equals `c`.
pub open spec fn char_at_is(s: Seq<char>, p: int, c: char) -> bool {
    0 <= p < s.len() && s[p] == c
}

/// The end of a number lexeme whose first digit precedes offset `p`: more
/// digits, then optionally a `.` followed by digits.
pub open spec fn number_end(s: Seq<char>, p: int) -> int {
    let q = scan_while(s, p, |c: char| spec_is_ascii_digit(c));
    if char_at_is(s, q, '.') {
        scan_while(s, q + 1, |c: char| spec_is_ascii_digit(c))
    } else {
        q
    }
}

/// The end of a keyword or identifier lexeme whose first `char` precedes
/// offset `p`.
pub open spec fn word_end(s: Seq<char>, p: int) -> int {
    scan_while(s, p, |c: char| spec_is_word_continue(c))
}

/// The token for a keyword or identifier lexeme.
pub open spec fn word_token(word: Seq<char>) -> TokenView {
    if word == seq!['f', 'a', 'l', 's', 'e'] {
        TokenView::Bool(false)
    } else if word == seq!['t', 'r', 'u', 'e'] {
        TokenView::Bool(true)
    } else {
        TokenView::Ident(word)
    }
}

/// The outcome of reading one token from offset `q`, where `s[q]` is neither
/// a digit nor a word start: the result and the offset after it.
pub open spec fn symbol_token(s: Seq<char>, q: int) -> (Result<TokenView, ErrorKind>, int) {
    let c = s[q];
    if c == '(' {
        (Ok(TokenView::OpenParen), q + 1)
    } else if c == ')' {
        (Ok(TokenView::CloseParen), q + 1)
    } else if c == '{' {
        (Ok(TokenView::OpenBrace), q + 1)
    } else if c == '}' {
        (Ok(TokenView::CloseBrace), q + 1)
    } else if c == ',' {
        (Ok(TokenView::Comma), q + 1)
    } else if c == '+' {
        (Ok(TokenView::Plus), q + 1)
    } else if c == '-' {
        if char_at_is(s, q + 1, '>') {
            (Ok(TokenView::MinusGreater), q + 2)
        } else {
            (Ok(TokenView::Minus), q + 1)
        }
    } else if c == '*' {
        (Ok(TokenView::Star), q + 1)
    } else if c == '/' {
        (Ok(TokenView::Slash), q + 1)
    } else if c == '^' {
        (Ok(TokenView::Caret), q + 1)
    } else if c == '=' {
        if char_at_is(s, q + 1, '=') {
            (Ok(TokenView::EqualsEquals), q + 2)
        } else {
            (Ok(TokenView::Equals), q + 1)
        }
    } else if c == '!' {
        if char_at_is(s, q + 1, '=') {
            (Ok(TokenView::BangEquals), q + 2)
        } else {
            (Ok(TokenView::Bang), q + 1)
        }
    } else if c == '<' {
        if char_at_is(s, q + 1, '=') {
            (Ok(TokenView::LessEquals), q + 2)
        } else {
            (Ok(TokenView::Less), q + 1)
        }
    } else if c == '>' {
        if char_at_is(s, q + 1, '=') {
            (Ok(TokenView::GreaterEquals), q + 2)
        } else {
            (Ok(TokenView::Greater), q + 1)
        }
    } else if c == '&' {
        if char_at_is(s, q + 1, '&') {
            (Ok(TokenView::AndAnd), q + 2)
        } else {
            (Err(ErrorKind::BitwiseAnd), q + 1)
        }
    } else if c == '|' {
        if char_at_is(s, q + 1, '|') {
            (Ok(TokenView::PipePipe), q + 2)
        } else {
            (Err(ErrorKind::BitwiseOr), q + 1)
        }
    } else if c == '?' {
        (Ok(TokenView::Question), q + 1)
    } else if c == ':' {
        (Ok(TokenView::Colon), q + 1)
    } else {
        (Err(ErrorKind::UnexpectedChar(c)), q + 1)
    }
}

/// The outcome of reading one token from source code `s` at offset `p`:
/// whitespace is skipped, the token's lexeme spans `start..end`.
pub struct LexStep {
    pub result: Result<TokenView, ErrorKind>,
    pub start: int,
    pub end: int,
}

/// The lexical grammar: the token read from offset `p` of `s`.
pub open spec fn lex_step(s: Seq<char>, p: int) -> LexStep {
    let q = scan_while(s, p, |c: char| spec_is_whitespace(c));
    if q >= s.len() {
        LexStep { result: Ok(TokenView::Eof), start: q, end: q }
    } else if spec_is_ascii_digit(s[q]) {
        let e = number_end(s, q + 1);
        LexStep { result: Ok(TokenView::Number(s.subrange(q, e))), start: q, end: e }
    } else if spec_is_word_start(s[q]) {
        let e = word_end(s, q + 1);
        LexStep { result: Ok(word_token(s.subrange(q, e))), start: q, end: e }
    } else {
        let (result, e) = symbol_token(s, q);
        LexStep { result, start: q, end: e }
    }
}

/// Reading a token never moves backwards, stays within the source code, and
/// consumes at least one `char` unless it reports the end of source code.
pub proof fn lemma_lex_step_progress(s: Seq<char>, p: int)
    requires
        0 <= p <= s.len(),
    ensures
        p <= lex_step(s, p).start <= lex_step(s, p).end <= s.len(),
        lex_step(s, p).result != Ok::<TokenView, ErrorKind>(TokenView::Eof) ==> lex_step(s, p).start
            < lex_step(s, p).end,
        lex_step(s, p).result == Ok::<TokenView, ErrorKind>(TokenView::Eof) ==> lex_step(s, p).end
            == s.len(),
{
    let q = scan_while(s, p, |c: char| spec_is_whitespace(c));
    lemma_scan_while_bounds(s, p, |c: char| spec_is_whitespace(c));
    if q < s.len() {
        lemma_scan_while_bounds(s, q + 1, |c: char| spec_is_ascii_digit(c));
        let r = scan_while(s, q + 1, |c: char| spec_is_ascii_digit(c));
        if char_at_is(s, r, '.') {
            lemma_scan_while_bounds(s, r + 1, |c: char| spec_is_ascii_digit(c));
        }
        lemma_scan_while_bounds(s, q + 1, |c: char| spec_is_word_continue(c));
    }
}

/// Once the end of source code is reached, every further read reports the end
/// of source code again without moving.
pub proof fn lemma_eof_repeats(s: Seq<char>, p: int)
    requires
        0 <= p <= s.len(),
        lex_step(s, p).result == Ok::<TokenView, ErrorKind>(TokenView::Eof),
    ensures
        lex_step(s, lex_step(s, p).end) == lex_step(s, p),
{
    lemma_lex_step_progress(s, p);
}

/// A number lexeme: a digit followed by digits and at most one `.`.
pub open spec fn is_number_lexeme(lexeme: Seq<char>) -> bool {
    &&& lexeme.len() >= 1
    &&& spec_is_ascii_digit(lexeme[0])
    &&& forall|i: int|
        0 <= i < lexeme.len() ==> spec_is_ascii_digit(#[trigger] lexeme[i]) || lexeme[i] == '.'
    &&& forall|i: int, j: int|
        0 <= i < j < lexeme.len() && #[trigger] lexeme[i] == '.' ==> #[trigger] lexeme[j] != '.'
}

/// A number token's lexeme starts with a digit and is made of digits and at
/// most one `.`.
pub proof fn lemma_number_lexeme(s: Seq<char>, p: int)
    requires
        0 <= p <= s.len(),
        lex_step(s, p).result matches Ok(TokenView::Number(_)),
    ensures
        lex_step(s, p).result matches Ok(TokenView::Number(lexeme)) ==> is_number_lexeme(lexeme),
{
    let q = scan_while(s, p, |c: char| spec_is_whitespace(c));
    lemma_scan_while_bounds(s, p, |c: char| spec_is_whitespace(c));
    let r = scan_while(s, q + 1, |c: char| spec_is_ascii_digit(c));
    lemma_scan_while_bounds(s, q + 1, |c: char| spec_is_ascii_digit(c));
    lemma_scan_while_all(s, q + 1, |c: char| spec_is_ascii_digit(c));
    if char_at_is(s, r, '.') {
        lemma_scan_while_bounds(s, r + 1, |c: char| spec_is_ascii_digit(c));
        lemma_scan_while_all(s, r + 1, |c: char| spec_is_ascii_digit(c));
    }
    let e = number_end(s, q + 1);
    let lexeme = s.subrange(q, e);
    assert forall|i: int|
        0 <= i < lexeme.len() implies spec_is_ascii_digit(#[trigger] lexeme[i]) || lexeme[i] == '.' by {
        if i > 0 && q + i != r {
            assert((|c: char| spec_is_ascii_digit(c))(s[q + i]));
        }
    }
    assert forall|i: int, j: int|
        0 <= i < j < lexeme.len() && #[trigger] lexeme[i] == '.' implies #[trigger] lexeme[j] != '.' by {
        if i > 0 && q + i != r {
            assert((|c: char| spec_is_ascii_digit(c))(s[q + i]));
        }
        assert((|c: char| spec_is_ascii_digit(c))(s[q + j]));
    }
}

/// The abstract value of a lexing result.
pub open spec fn result_view(res: Result<Token, LexError>) -> Result<TokenView, ErrorKind> {
    match res {
        Ok(token) => Ok(token@),
        Err(error) => Err(error.0),
    }
}

/// A structure which reads a stream of [`Token`]s from source code.
pub struct Lexer<'src> {
    /// The [`Scanner`].
    scanner: Scanner<'src>,
}

impl<'src> View for Lexer<'src> {
    type V = ScannerView;

    closed spec fn view(&self) -> ScannerView {
        self.scanner@
    }
}

impl<'src> Lexer<'src> {
    /// The lexer's internal consistency.
    pub closed spec fn wf(&self) -> bool {
        self.scanner.wf()
    }

    /// Creates a new `Lexer` from source code.
    pub fn new(source: &'src str) -> (lexer: Self)
        ensures
            lexer.wf(),
            lexer@ == (ScannerView { text: source@, start: 0, pos: 0 }),
    {
        Lexer { scanner: Scanner::new(source) }
    }

    /// Returns the next [`Token`]. This function returns a [`LexError`] if a
    /// [`Token`] could not be read.
    pub fn next_token(&mut self) -> (res: Result<Token, LexError>)
        requires
            old(self).wf(),
        ensures
            final(self).wf(),
            ({
                let step = lex_step(old(self)@.text, old(self)@.pos);
                &&& result_view(res) == step.result
                &&& final(self)@ == (ScannerView {
                    text: old(self)@.text,
                    start: step.start,
                    pos: step.end,
                })
            }),
    {
        let ghost s = self.scanner@.text;
        let ghost p = self.scanner@.pos;
        proof {
            self.scanner.lemma_valid();
        }
        self.scanner.eat_while(is_whitespace);
        proof {
            self.scanner.lemma_valid();
            lemma_scan_while(s, p, self.scanner@.pos, |c: char| spec_is_whitespace(c));
        }
        self.scanner.begin_lexeme();
        let ghost q = self.scanner@.pos;
        let Some(c) = self.scanner.bump() else {
            return Ok(Token::Eof);
        };
        assert(c == s[q]);
        let token = if is_char_digit(c) {
            self.next_number_token()
        } else if is_char_word_start(c) {
            self.next_word_token()
        } else if c == '(' {
            Token::OpenParen
        } else if c == ')' {
            Token::CloseParen
        } else if c == '{' {
            Token::OpenBrace
        } else if c == '}' {
            Token::CloseBrace
        } else if c == ',' {
            Token::Comma
        } else if c == '+' {
            Token::Plus
        } else if c == '-' {
            if self.scanner.eat('>') {
                Token::MinusGreater
            } else {
                Token::Minus
            }
        } else if c == '*' {
            Token::Star
        } else if c == '/' {
            Token::Slash
        } else if c == '^' {
            Token::Caret
        } else if c == '=' {
            if self.scanner.eat('=') {
                Token::EqualsEquals
            } else {
                Token::Equals
            }
        } else if c == '!' {
            if self.scanner.eat('=') {
                Token::BangEquals
            } else {
                Token::Bang
            }
        } else if c == '<' {
            if self.scanner.eat('=') {
                Token::LessEquals
            } else {
                Token::Less
            }
        } else if c == '>' {
            if self.scanner.eat('=') {
                Token::GreaterEquals
            } else {
                Token::Greater
            }
        } else if c == '&' {
            if self.scanner.eat('&') {
                Token::AndAnd
            } else {
                return Err(LexError(ErrorKind::BitwiseAnd));
            }
        } else if c == '|' {
            if self.scanner.eat('|') {
                Token::PipePipe
            } else {
                return Err(LexError(ErrorKind::BitwiseOr));
            }
        } else if c == '?' {
            Token::Question
        } else if c == ':' {
            Token::Colon
        } else {
            return Err(LexError(ErrorKind::UnexpectedChar(c)));
        };
        Ok(token)
    }

    /// Returns the next number [`Token`] after consuming its first `char`.
    fn next_number_token(&mut self) -> (token: Token)
        requires
            old(self).wf(),
            old(self)@.start + 1 == old(self)@.pos,
            old(self)@.pos <= old(self)@.text.len(),
        ensures
            final(self).wf(),
            final(self)@ == (ScannerView {
                pos: number_end(old(self)@.text, old(self)@.pos),
                ..old(self)@
            }),
            token@ == TokenView::Number(final(self)@.lexeme()),
    {
        let ghost s = self.scanner@.text;
        let ghost p = self.scanner@.pos;
        self.scanner.eat_while(is_char_digit);
        proof {
            self.scanner.lemma_valid();
            lemma_scan_while(s, p, self.scanner@.pos, |c: char| spec_is_ascii_digit(c));
        }
        let ghost q = self.scanner@.pos;
        if self.scanner.eat('.') {
            self.scanner.eat_while(is_char_digit);
            proof {
                self.scanner.lemma_valid();
                lemma_scan_while(s, q + 1, self.scanner@.pos, |c: char| spec_is_ascii_digit(c));
            }
        }
        Token::Number(self.scanner.lexeme().to_owned())
    }

    /// Returns the next keyword or identifier [`Token`] after consuming its
    /// first `char`.
    fn next_word_token(&mut self) -> (token: Token)
        requires
            old(self).wf(),
            old(self)@.start + 1 == old(self)@.pos,
            old(self)@.pos <= old(self)@.text.len(),
        ensures
            final(self).wf(),
            final(self)@ == (ScannerView {
                pos: word_end(old(self)@.text, old(self)@.pos),
                ..old(self)@
            }),
            token@ == word_token(final(self)@.lexeme()),
    {
        let ghost s = self.scanner@.text;
        let ghost p = self.scanner@.pos;
        self.scanner.eat_while(is_char_word_continue);
        proof {
            self.scanner.lemma_valid();
            lemma_scan_while(s, p, self.scanner@.pos, |c: char| spec_is_word_continue(c));
        }
        if self.scanner.lexeme_matches(&['f', 'a', 'l', 's', 'e']) {
            Token::Bool(false)
        } else if self.scanner.lexeme_matches(&['t', 'r', 'u', 'e']) {
            Token::Bool(true)
        } else {
            Token::Ident(self.scanner.lexeme().to_owned())
        }
    }
}

/// Returns `true` if a `char` is a digit.
fn is_char_digit(c: char) -> (r: bool)
    ensures
        r == spec_is_ascii_digit(c),
{
    is_ascii_digit(c)
}

/// Returns `true` if a `char` is a keyword or identifier start.
fn is_char_word_start(c: char) -> (r: bool)
    ensures
        r == spec_is_word_start(c),
{
    is_ascii_alphabetic(c) || c == '_'
}

/// Returns `true` if a `char` is a keyword or identifier continuation.
fn is_char_word_continue(c: char) -> (r: bool)
    ensures
        r == spec_is_word_continue(c),
{
    is_char_word_start(c) || is_char_digit(c)
}

} // verus!
