use vstd::prelude::*;

verus! {

/// A lexical element of source code.
///
/// Number literals carry their lexeme (decimal digits with an optional
/// fractional part); turning that text into a floating-point value is left to
/// the consumer of the token stream.
#[derive(Debug, PartialEq)]
pub enum Token {
    /// A number literal, as written in source code.
    Number(String),
    /// A Boolean literal (`true` or `false`).
    Bool(bool),
    /// An identifier.
    Ident(String),
    /// `(`
    OpenParen,
    /// `)`
    CloseParen,
    /// `{`
    OpenBrace,
    /// `}`
    CloseBrace,
    /// `,`
    Comma,
    /// `+`
    Plus,
    /// `-`
    Minus,
    /// `->`
    MinusGreater,
    /// `*`
    Star,
    /// `/`
    Slash,
    /// `^`
    Caret,
    /// `=`
    Equals,
    /// `==`
    EqualsEquals,
    /// `!`
    Bang,
    /// `!=`
    BangEquals,
    /// `<`
    Less,
    /// `<=`
    LessEquals,
    /// `>`
    Greater,
    /// `>=`
    GreaterEquals,
    /// `&&`
    AndAnd,
    /// `||`
    PipePipe,
    /// `?`
    Question,
    /// `:`
    Colon,
    /// The end of source code.
    Eof,
}

/// The abstract value of a [`Token`]: text is held as a sequence of `char`s.
pub enum TokenView {
    Number(Seq<char>),
    Bool(bool),
    Ident(Seq<char>),
    OpenParen,
    CloseParen,
    OpenBrace,
    CloseBrace,
    Comma,
    Plus,
    Minus,
    MinusGreater,
    Star,
    Slash,
    Caret,
    Equals,
    EqualsEquals,
    Bang,
    BangEquals,
    Less,
    LessEquals,
    Greater,
    GreaterEquals,
    AndAnd,
    PipePipe,
    Question,
    Colon,
    Eof,
}

impl View for Token {
    type V = TokenView;

    open spec fn view(&self) -> TokenView {
        match self {
            Token::Number(s) => TokenView::Number(s@),
            Token::Bool(b) => TokenView::Bool(*b),
            Token::Ident(s) => TokenView::Ident(s@),
            Token::OpenParen => TokenView::OpenParen,
            Token::CloseParen => TokenView::CloseParen,
            Token::OpenBrace => TokenView::OpenBrace,
            Token::CloseBrace => TokenView::CloseBrace,
            Token::Comma => TokenView::Comma,
            Token::Plus => TokenView::Plus,
            Token::Minus => TokenView::Minus,
            Token::MinusGreater => TokenView::MinusGreater,
            Token::Star => TokenView::Star,
            Token::Slash => TokenView::Slash,
            Token::Caret => TokenView::Caret,
            Token::Equals => TokenView::Equals,
            Token::EqualsEquals => TokenView::EqualsEquals,
            Token::Bang => TokenView::Bang,
            Token::BangEquals => TokenView::BangEquals,
            Token::Less => TokenView::Less,
            Token::LessEquals => TokenView::LessEquals,
            Token::Greater => TokenView::Greater,
            Token::GreaterEquals => TokenView::GreaterEquals,
            Token::AndAnd => TokenView::AndAnd,
            Token::PipePipe => TokenView::PipePipe,
            Token::Question => TokenView::Question,
            Token::Colon => TokenView::Colon,
            Token::Eof => TokenView::Eof,
        }
    }
}

} // verus!
