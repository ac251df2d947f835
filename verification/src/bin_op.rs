use vstd::prelude::*;

use crate::token::{Token, TokenView};

verus! {

/// A binary operator.
#[derive(Clone, Copy, Debug, PartialEq, Eq, Structural)]
pub enum BinOp {
    /// An addition operator.
    Add,
    /// A subtraction operator.
    Subtract,
    /// A multiplication operator.
    Multiply,
    /// A division operator.
    Divide,
}

/// A binary operator's precedence level.
#[derive(Clone, Copy, Debug, PartialEq, Eq, Structural)]
pub enum Prec {
    /// The precedence of the addition and subtraction operators.
    Sum,
    /// The precedence of the multiplication and division operators.
    Term,
}

/// A binary operator's associativity.
#[derive(Clone, Copy, Debug, PartialEq, Eq, Structural)]
pub enum Assoc {
    /// A left-to-right associativity.
    Left,
    /// A right-to-left associativity.
    Right,
}

/// The precedence of a binary operator.
pub open spec fn spec_prec(op: BinOp) -> Prec {
    match op {
        BinOp::Add | BinOp::Subtract => Prec::Sum,
        BinOp::Multiply | BinOp::Divide => Prec::Term,
    }
}

/// The integer level of a precedence; a higher level binds more tightly.
pub open spec fn spec_level(prec: Prec) -> u8 {
    match prec {
        Prec::Sum => 0,
        Prec::Term => 1,
    }
}

/// The binary operator that a token stands for, if any.
pub open spec fn spec_token_op(token: TokenView) -> Option<BinOp> {
    match token {
        TokenView::Plus => Some(BinOp::Add),
        TokenView::Minus => Some(BinOp::Subtract),
        TokenView::Star => Some(BinOp::Multiply),
        TokenView::Slash => Some(BinOp::Divide),
        _ => None,
    }
}

/// The token that writes a binary operator.
pub open spec fn spec_op_token(op: BinOp) -> TokenView {
    match op {
        BinOp::Add => TokenView::Plus,
        BinOp::Subtract => TokenView::Minus,
        BinOp::Multiply => TokenView::Star,
        BinOp::Divide => TokenView::Slash,
    }
}

impl BinOp {
    /// Returns the binary operator's precedence.
    pub fn prec(self) -> (prec: Prec)
        ensures
            prec == spec_prec(self),
    {
        match self {
            BinOp::Add | BinOp::Subtract => Prec::Sum,
            BinOp::Multiply | BinOp::Divide => Prec::Term,
        }
    }

    /// Returns the binary operator's associativity. All binary operators are
    /// left-associative.
    pub fn assoc(self) -> (assoc: Assoc)
        ensures
            assoc == Assoc::Left,
    {
        Assoc::Left
    }

    /// Returns the binary operator as it is written in source code.
    pub fn symbol(self) -> (symbol: &'static str)
        ensures
            symbol@ == match self {
                BinOp::Add => "+"@,
                BinOp::Subtract => "-"@,
                BinOp::Multiply => "*"@,
                BinOp::Divide => "/"@,
            },
    {
        match self {
            BinOp::Add => "+",
            BinOp::Subtract => "-",
            BinOp::Multiply => "*",
            BinOp::Divide => "/",
        }
    }

    /// Converts an operator token to a binary operator. This function returns
    /// `Err(())` for any other token.
    pub fn try_from(value: &Token) -> (op: Result<BinOp, ()>)
        ensures
            op == (match spec_token_op(value@) {
                Some(o) => Ok::<BinOp, ()>(o),
                None => Err(()),
            }),
    {
        match value {
            Token::Plus => Ok(BinOp::Add),
            Token::Minus => Ok(BinOp::Subtract),
            Token::Star => Ok(BinOp::Multiply),
            Token::Slash => Ok(BinOp::Divide),
            _ => Err(()),
        }
    }
}

impl Prec {
    /// Returns the precedence level represented as an integer.
    pub fn level(self) -> (level: u8)
        ensures
            level == spec_level(self),
    {
        match self {
            Prec::Sum => 0,
            Prec::Term => 1,
        }
    }
}

/// Multiplication and division bind more tightly than addition and
/// subtraction, and operators of the same kind share a level.
pub proof fn lemma_prec_levels(a: BinOp, b: BinOp)
    ensures
        spec_level(spec_prec(a)) < spec_level(spec_prec(b)) <==> (spec_prec(a) == Prec::Sum
            && spec_prec(b) == Prec::Term),
        spec_level(spec_prec(a)) == spec_level(spec_prec(b)) <==> spec_prec(a) == spec_prec(b),
{
}

/// Each operator is read back from the token that writes it, and each token
/// that stands for an operator is the token that writes that operator.
pub proof fn lemma_token_op_roundtrip(op: BinOp, token: TokenView)
    ensures
        spec_token_op(spec_op_token(op)) == Some(op),
        spec_token_op(token) == Some(op) ==> token == spec_op_token(op),
{
}

} // verus!
