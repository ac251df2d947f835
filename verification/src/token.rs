use vstd::prelude::*;

verus! {

/// A lexical element of an arithmetic expression or assignment.
#[derive(Debug, PartialEq)]
pub enum Token {
    /// A number literal, as written in source code.
    Literal(String),
    /// `(`
    OpenParen,
    /// `)`
    CloseParen,
    /// `=`
    Eq,
    /// `+`
    Plus,
    /// `-`
    Minus,
    /// `*`
    Star,
    /// `/`
    Slash,
    /// The end of source code.
    Eof,
}

/// The abstract value of a [`Token`].
pub enum TokenView {
    Literal(Seq<char>),
    OpenParen,
    CloseParen,
    Eq,
    Plus,
    Minus,
    Star,
    Slash,
    Eof,
}

impl View for Token {
    type V = TokenView;

    open spec fn view(&self) -> TokenView {
        match self {
            Token::Literal(s) => TokenView::Literal(s@),
            Token::OpenParen => TokenView::OpenParen,
            Token::CloseParen => TokenView::CloseParen,
            Token::Eq => TokenView::Eq,
            Token::Plus => TokenView::Plus,
            Token::Minus => TokenView::Minus,
            Token::Star => TokenView::Star,
            Token::Slash => TokenView::Slash,
            Token::Eof => TokenView::Eof,
        }
    }
}

/// The `char` that writes a one-`char` token, as its documentation gives it.
pub open spec fn token_char(token: TokenView) -> Option<char> {
    match token {
        TokenView::OpenParen => Some('('),
        TokenView::CloseParen => Some(')'),
        TokenView::Eq => Some('='),
        TokenView::Plus => Some('+'),
        TokenView::Minus => Some('-'),
        TokenView::Star => Some('*'),
        TokenView::Slash => Some('/'),
        _ => None,
    }
}

} // verus!
