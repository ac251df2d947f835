//! Clac: a small calculator language with a lexer, a scope-resolving lowering
//! pass and the stack bookkeeping used to compile it.

pub mod lex;
pub mod tokens;
pub mod chars;
pub mod lexer;
pub mod bin_op;
pub mod calc_lexer;
pub mod token;
pub mod decl_table;
pub mod locals;
pub mod compile;
pub mod scoped;
pub mod cfg;
pub mod compiler;
pub mod compilation;
pub mod symbols;
pub mod lower;
pub mod ast;
pub mod interpret;
pub mod hir;
