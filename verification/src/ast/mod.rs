use vstd::prelude::*;

use crate::symbols::Symbol;

verus! {

/// A value that can be represented with a single token.
///
/// A number is held as the IEEE 754 bit pattern of its `f64` value, so that
/// it can be carried through the compiler unchanged.
#[derive(Clone, Copy, Debug, PartialEq, Eq, Structural)]
pub enum Literal {
    /// A number, as the bits of an `f64`.
    Number(u64),
    /// A Boolean value.
    Bool(bool),
}

/// A unary operator.
#[derive(Clone, Copy, Debug, PartialEq, Eq, Structural)]
pub enum UnOp {
    /// A negation.
    Negate,
    /// A logical negation.
    Not,
}

/// A binary operator.
#[derive(Clone, Copy, Debug, PartialEq, Eq, Structural)]
pub enum BinOp {
    /// An addition.
    Add,
    /// A subtraction.
    Subtract,
    /// A multiplication.
    Multiply,
    /// A division.
    Divide,
    /// An exponentiation.
    Power,
    /// An equality comparison.
    Equal,
    /// An inequality comparison.
    NotEqual,
    /// A less than comparison.
    Less,
    /// A less than or equal to comparison.
    LessEqual,
    /// A greater than comparison.
    Greater,
    /// A greater than or equal to comparison.
    GreaterEqual,
}

/// A short-circuiting logical operator.
#[derive(Clone, Copy, Debug, PartialEq, Eq, Structural)]
pub enum LogicOp {
    /// A logical and.
    And,
    /// A logical or.
    Or,
}

/// An abstract syntax tree: a sequence of statements, each written as an
/// expression.
#[derive(Debug)]
pub struct Ast(pub Vec<Expr>);

/// An expression. Statements (assignments and blocks) are expressions too.
#[derive(Debug)]
pub enum Expr {
    /// A [`Literal`].
    Literal(Literal),
    /// An identifier.
    Ident(Symbol),
    /// A parenthesized expression.
    Paren(Box<Expr>),
    /// A tuple.
    Tuple(Vec<Expr>),
    /// A block of statements.
    Block(Vec<Expr>),
    /// An assignment of a source to a target.
    Assign(Box<Expr>, Box<Expr>),
    /// A function with parameters and a body.
    Function(Vec<Expr>, Box<Expr>),
    /// A function call with a callee and arguments.
    Call(Box<Expr>, Vec<Expr>),
    /// A unary operation.
    Unary(UnOp, Box<Expr>),
    /// A binary operation.
    Binary(BinOp, Box<Expr>, Box<Expr>),
    /// A short-circuiting logical operation.
    Logic(LogicOp, Box<Expr>, Box<Expr>),
    /// A ternary conditional.
    Cond(Box<Expr>, Box<Expr>, Box<Expr>),
}

/// The symbol of a unary operator in source text.
pub open spec fn unary_symbol(op: UnOp) -> Seq<char> {
    match op {
        UnOp::Negate => "-"@,
        UnOp::Not => "!"@,
    }
}

/// The symbol of a binary operator in source text.
pub open spec fn binary_symbol(op: BinOp) -> Seq<char> {
    match op {
        BinOp::Add => "+"@,
        BinOp::Subtract => "-"@,
        BinOp::Multiply => "*"@,
        BinOp::Divide => "/"@,
        BinOp::Power => "^"@,
        BinOp::Equal => "=="@,
        BinOp::NotEqual => "!="@,
        BinOp::Less => "<"@,
        BinOp::LessEqual => "<="@,
        BinOp::Greater => ">"@,
        BinOp::GreaterEqual => ">="@,
    }
}

/// The symbol of a logical operator in source text.
pub open spec fn logic_symbol(op: LogicOp) -> Seq<char> {
    match op {
        LogicOp::And => "&&"@,
        LogicOp::Or => "||"@,
    }
}

impl UnOp {
    /// Returns the operator's symbol in source text.
    pub fn symbol(&self) -> (symbol: &'static str)
        ensures
            symbol@ == unary_symbol(*self),
    {
        match self {
            UnOp::Negate => "-",
            UnOp::Not => "!",
        }
    }
}

impl BinOp {
    /// Returns the operator's symbol in source text.
    pub fn symbol(&self) -> (symbol: &'static str)
        ensures
            symbol@ == binary_symbol(*self),
    {
        match self {
            BinOp::Add => "+",
            BinOp::Subtract => "-",
            BinOp::Multiply => "*",
            BinOp::Divide => "/",
            BinOp::Power => "^",
            BinOp::Equal => "==",
            BinOp::NotEqual => "!=",
            BinOp::Less => "<",
            BinOp::LessEqual => "<=",
            BinOp::Greater => ">",
            BinOp::GreaterEqual => ">=",
        }
    }
}

impl LogicOp {
    /// Returns the operator's symbol in source text.
    pub fn symbol(&self) -> (symbol: &'static str)
        ensures
            symbol@ == logic_symbol(*self),
    {
        match self {
            LogicOp::And => "&&",
            LogicOp::Or => "||",
        }
    }
}

} // verus!
