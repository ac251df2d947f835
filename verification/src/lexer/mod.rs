pub mod scanner;
pub mod token;

pub use self::token::Token;

use vstd::prelude::*;

use crate::chars::{is_whitespace, lemma_scan_while, scan_while, spec_is_whitespace};

use self::scanner::{Scanner, ScannerView};
use self::token::{token_char, TokenView};

verus! {

/// The token for a `char` that this lexer reads as a one-`char` token.
pub open spec fn symbol_token(c: char) -> Option<TokenView> {
    if c == '(' {
        Some(TokenView::OpenParen)
    } else if c == ')' {
        Some(TokenView::CloseParen)
    } else if c == ',' {
        Some(TokenView::Comma)
    } else if c == '+' {
        Some(TokenView::Plus)
    } else if c == '-' {
        Some(TokenView::Minus)
    } else if c == '*' {
        Some(TokenView::Star)
    } else if c == '/' {
        Some(TokenView::Slash)
    } else {
        None
    }
}

/// The offset of the first non-whitespace `char` at or after `p`.
pub open spec fn skip_whitespace_end(s: Seq<char>, p: int) -> int {
    scan_while(s, p, |c: char| spec_is_whitespace(c))
}

/// Whether a token can be read at offset `p`: after whitespace there is
/// either the end of source code or a `char` that begins a token.
pub open spec fn can_read_token(s: Seq<char>, p: int) -> bool {
    let q = skip_whitespace_end(s, p);
    q < s.len() ==> symbol_token(s[q]) is Some
}

/// The token read at offset `p` and the offset after it.
pub open spec fn read_step(s: Seq<char>, p: int) -> (TokenView, int) {
    let q = skip_whitespace_end(s, p);
    if q < s.len() {
        (symbol_token(s[q]).unwrap(), q + 1)
    } else {
        (TokenView::Eof, q)
    }
}

/// Every one-`char` token is read from the `char` that writes it, and only
/// from it: a `char` that writes a token is read as that token (`*` as a
/// star, `/` as a slash), and a token read from a `char` is written by it.
/// Reading after whitespace takes that one `char`.
pub proof fn lemma_token_spelling(s: Seq<char>, p: int, c: char)
    ensures
        symbol_token(c) matches Some(t) ==> token_char(t) == Some(c),
        forall|t: TokenView| #[trigger] token_char(t) == Some(c) ==> symbol_token(c) == Some(t),
        ({
            let q = skip_whitespace_end(s, p);
            can_read_token(s, p) && q < s.len() ==> token_char(read_step(s, p).0) == Some(s[q])
                && read_step(s, p).1 == q + 1
        }),
{
}

/// A structure that reads a stream of [`Token`]s from source code.
pub struct Lexer<'a> {
    /// The [`Scanner`] for reading `char`s from source code.
    chars: Scanner<'a>,
}

impl<'a> View for Lexer<'a> {
    type V = ScannerView;

    closed spec fn view(&self) -> ScannerView {
        self.chars@
    }
}

impl<'a> Lexer<'a> {
    /// The lexer's internal consistency.
    pub closed spec fn wf(&self) -> bool {
        self.chars.wf()
    }

    /// Creates a new `Lexer` from source code to be read.
    pub fn new(source: &'a str) -> (lexer: Self)
        ensures
            lexer.wf(),
            lexer@.text == source@,
            lexer@.pos == 0,
    {
        Lexer { chars: Scanner::new(source) }
    }

    /// Reads the next [`Token`]. Only parentheses, commas and the four
    /// arithmetic operators are read; any other `char` is not handled.
    pub fn read_token(&mut self) -> (token: Token)
        requires
            old(self).wf(),
            can_read_token(old(self)@.text, old(self)@.pos),
        ensures
            final(self).wf(),
            final(self)@.text == old(self)@.text,
            (token@, final(self)@.pos) == read_step(old(self)@.text, old(self)@.pos),
    {
        self.skip_whitespace();
        let Some(c) = self.chars.bump() else {
            return Token::Eof;
        };
        if c == '(' {
            Token::OpenParen
        } else if c == ')' {
            Token::CloseParen
        } else if c == ',' {
            Token::Comma
        } else if c == '+' {
            Token::Plus
        } else if c == '-' {
            Token::Minus
        } else if c == '*' {
            Token::Star
        } else {
            Token::Slash
        }
    }

    /// Advances the `Lexer` until the next `char` is not whitespace according
    /// to the Unicode `White_Space` property.
    fn skip_whitespace(&mut self)
        requires
            old(self).wf(),
        ensures
            final(self).wf(),
            final(self)@.text == old(self)@.text,
            final(self)@.pos == skip_whitespace_end(old(self)@.text, old(self)@.pos),
    {
        let ghost s = self.chars@.text;
        let ghost p = self.chars@.pos;
        proof {
            self.chars.lemma_valid();
        }
        loop
            invariant
                self.chars.wf(),
                self.chars@.text == s,
                p <= self.chars@.pos,
                forall|i: int| p <= i < self.chars@.pos ==> spec_is_whitespace(#[trigger] s[i]),
            ensures
                self.chars.wf(),
                self.chars@.text == s,
                p <= self.chars@.pos,
                forall|i: int| p <= i < self.chars@.pos ==> spec_is_whitespace(#[trigger] s[i]),
                self.chars@.pos < s.len() ==> !spec_is_whitespace(s[self.chars@.pos]),
            decreases s.len() - self.chars@.pos,
        {
            proof {
                self.chars.lemma_valid();
            }
            match self.chars.peek() {
                Some(c) => {
                    if is_whitespace(c) {
                        self.chars.bump();
                    } else {
                        break;
                    }
                },
                None => break,
            }
        }
        proof {
            self.chars.lemma_valid();
            lemma_scan_while(s, p, self.chars@.pos, |c: char| spec_is_whitespace(c));
        }
    }
}

} // verus!
