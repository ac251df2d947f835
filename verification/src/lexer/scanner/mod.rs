//! A structure that reads a stream of `char`s from source code and records
//! lexemes. It is the same scanner that the [`lex`](crate::lex) lexer uses.

pub use crate::lex::scan::{Scanner, ScannerView};
