use vstd::prelude::*;

verus! {

/// A lexical element of source code.
#[derive(Debug, PartialEq)]
pub enum Token {
    /// A number, as written in source code.
    Number(String),
    /// An opening parenthesis.
    OpenParen,
    /// A closing parenthesis.
    CloseParen,
    /// A comma.
    Comma,
    /// A plus sign.
    Plus,
    /// A minus sign.
    Minus,
    /// An asterisk.
    Star,
    /// A forward slash.
    Slash,
    /// An end of source code marker.
    Eof,
}

/// The abstract value of a [`Token`].
pub enum TokenView {
    Number(Seq<char>),
    OpenParen,
    CloseParen,
    Comma,
    Plus,
    Minus,
    Star,
    Slash,
    Eof,
}

impl View for Token {
    type V = TokenView;

    open spec fn view(&self) -> TokenView {
        match self {
            Token::Number(s) => TokenView::Number(s@),
            Token::OpenParen => TokenView::OpenParen,
            Token::CloseParen => TokenView::CloseParen,
            Token::Comma => TokenView::Comma,
            Token::Plus => TokenView::Plus,
            Token::Minus => TokenView::Minus,
            Token::Star => TokenView::Star,
            Token::Slash => TokenView::Slash,
            Token::Eof => TokenView::Eof,
        }
    }
}

/// The `char` that writes a one-`char` token, as its documentation gives it.
pub open spec fn token_char(token: TokenView) -> Option<char> {
    match token {
        TokenView::OpenParen => Some('('),
        TokenView::CloseParen => Some(')'),
        TokenView::Comma => Some(','),
        TokenView::Plus => Some('+'),
        TokenView::Minus => Some('-'),
        TokenView::Star => Some('*'),
        TokenView::Slash => Some('/'),
        _ => None,
    }
}

} // verus!
