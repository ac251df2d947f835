use vstd::prelude::*;

verus! {

/// A kind of [`LexError`][super::LexError].
#[derive(Debug, PartialEq, Eq, Clone, Copy)]
pub enum ErrorKind {
    /// A `char` which does not begin a token was encountered.
    UnexpectedChar(char),
    /// A bitwise and (`&`) operator was encountered.
    BitwiseAnd,
    /// A bitwise or (`|`) operator was encountered.
    BitwiseOr,
}

} // verus!
