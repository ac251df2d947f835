//! A lexer for arithmetic expressions and assignments over decimal numbers.

use vstd::prelude::*;

use crate::chars::{
    is_ascii_digit, is_whitespace, lemma_scan_while, scan_while, spec_is_ascii_digit,
    spec_is_whitespace,
};
use crate::lex::number_end;
use crate::lex::scan::{Scanner, ScannerView};
use crate::token::{token_char, Token, TokenView};

verus! {

/// A syntax error encountered while lexing source code.
#[derive(Debug, Clone, Copy, PartialEq, Eq)]
pub enum LexError {
    /// A character was encountered that does not begin a token.
    NonToken(char),
}

/// The token read at offset `p` of `s` (after skipping whitespace) and the
/// offset after it.
pub open spec fn calc_step(s: Seq<char>, p: int) -> (Result<TokenView, LexError>, int) {
    let q = scan_while(s, p, |c: char| spec_is_whitespace(c));
    if q >= s.len() {
        (Ok(TokenView::Eof), q)
    } else {
        let c = s[q];
        if spec_is_ascii_digit(c) {
            let e = number_end(s, q + 1);
            (Ok(TokenView::Literal(s.subrange(q, e))), e)
        } else if c == '(' {
            (Ok(TokenView::OpenParen), q + 1)
        } else if c == ')' {
            (Ok(TokenView::CloseParen), q + 1)
        } else if c == '=' {
            (Ok(TokenView::Eq), q + 1)
        } else if c == '+' {
            (Ok(TokenView::Plus), q + 1)
        } else if c == '-' {
            (Ok(TokenView::Minus), q + 1)
        } else if c == '*' {
            (Ok(TokenView::Star), q + 1)
        } else if c == '/' {
            (Ok(TokenView::Slash), q + 1)
        } else {
            (Err(LexError::NonToken(c)), q + 1)
        }
    }
}

/// Every one-`char` token is read from the `char` that writes it, and only
/// from it: after whitespace, a `char` that writes a token is read as that
/// token (and `-` as a minus, `+` as a plus), consuming that `char` alone,
/// and a one-`char` token that is read was written by the `char` there.
pub proof fn lemma_calc_token_spelling(s: Seq<char>, p: int)
    ensures
        ({
            let q = scan_while(s, p, |c: char| spec_is_whitespace(c));
            let (token, next) = calc_step(s, p);
            q < s.len() ==> {
                &&& (token is Ok && token_char(token->Ok_0) is Some) ==> token_char(token->Ok_0)
                    == Some(s[q]) && next == q + 1
                &&& forall|t: TokenView|
                    #[trigger] token_char(t) == Some(s[q]) ==> token == Ok::<TokenView, LexError>(
                        t,
                    ) && next == q + 1
            }
        }),
{
}

/// The abstract value of a lexing result.
pub open spec fn calc_result_view(res: Result<Token, LexError>) -> Result<TokenView, LexError> {
    match res {
        Ok(token) => Ok(token@),
        Err(error) => Err(error),
    }
}

/// A structure that generates a stream of tokens from source code.
pub struct Lexer<'a> {
    /// The `char` scanner.
    chars: Scanner<'a>,
}

impl<'a> View for Lexer<'a> {
    type V = ScannerView;

    closed spec fn view(&self) -> ScannerView {
        self.chars@
    }
}

impl<'a> Lexer<'a> {
    /// The lexer's internal consistency.
    pub closed spec fn wf(&self) -> bool {
        self.chars.wf()
    }

    /// Creates a new lexer from source code.
    pub fn new(source: &'a str) -> (lexer: Self)
        ensures
            lexer.wf(),
            lexer@.text == source@,
            lexer@.pos == 0,
    {
        Lexer { chars: Scanner::new(source) }
    }

    /// Returns the next token from the token stream. At the end of source code
    /// this returns [`Token::Eof`], again and again.
    pub fn next_token(&mut self) -> (res: Result<Token, LexError>)
        requires
            old(self).wf(),
        ensures
            final(self).wf(),
            final(self)@.text == old(self)@.text,
            (calc_result_view(res), final(self)@.pos) == calc_step(old(self)@.text, old(self)@.pos),
    {
        let ghost s = self.chars@.text;
        let ghost p = self.chars@.pos;
        proof {
            self.chars.lemma_valid();
        }
        self.chars.eat_while(is_whitespace);
        proof {
            self.chars.lemma_valid();
            lemma_scan_while(s, p, self.chars@.pos, |c: char| spec_is_whitespace(c));
        }
        self.chars.begin_lexeme();
        let first_char = match self.chars.bump() {
            None => return Ok(Token::Eof),
            Some(c) => c,
        };
        if is_ascii_digit(first_char) {
            Ok(self.number())
        } else if first_char == '(' {
            Ok(Token::OpenParen)
        } else if first_char == ')' {
            Ok(Token::CloseParen)
        } else if first_char == '=' {
            Ok(Token::Eq)
        } else if first_char == '+' {
            Ok(Token::Plus)
        } else if first_char == '-' {
            Ok(Token::Minus)
        } else if first_char == '*' {
            Ok(Token::Star)
        } else if first_char == '/' {
            Ok(Token::Slash)
        } else {
            Err(LexError::NonToken(first_char))
        }
    }

    /// Creates a new number literal token after its first digit was read.
    fn number(&mut self) -> (token: Token)
        requires
            old(self).wf(),
            old(self)@.start + 1 == old(self)@.pos,
            old(self)@.pos <= old(self)@.text.len(),
        ensures
            final(self).wf(),
            final(self)@ == (ScannerView {
                pos: number_end(old(self)@.text, old(self)@.pos),
                ..old(self)@
            }),
            token@ == TokenView::Literal(final(self)@.lexeme()),
    {
        let ghost s = self.chars@.text;
        let ghost p = self.chars@.pos;
        self.chars.eat_while(is_ascii_digit);
        proof {
            self.chars.lemma_valid();
            lemma_scan_while(s, p, self.chars@.pos, |c: char| spec_is_ascii_digit(c));
        }
        let ghost q = self.chars@.pos;
        if self.chars.eat('.') {
            self.chars.eat_while(is_ascii_digit);
            proof {
                self.chars.lemma_valid();
                lemma_scan_while(s, q + 1, self.chars@.pos, |c: char| spec_is_ascii_digit(c));
            }
        }
        Token::Literal(self.chars.lexeme().to_owned())
    }
}

} // verus!
