use vstd::prelude::*;

use crate::symbols::Symbol;

verus! {

/// An area where an expression must be used instead of a statement.
#[derive(Clone, Copy, Debug, PartialEq, Eq, Structural)]
pub enum ExprArea {
    /// An assignment source.
    AssignSource,
    /// Inside parentheses.
    Paren,
    /// A function body.
    FunctionBody,
    /// A callee.
    Callee,
    /// An argument.
    Arg,
    /// An operand.
    Operand,
    /// A condition.
    Condition,
}

/// A kind of [`LoweringError`][super::LoweringError].
#[derive(Clone, Copy, Debug, PartialEq, Eq, Structural)]
pub enum ErrorKind {
    /// A statement was used in an area where an expression was expected.
    UsedStmt(ExprArea),
    /// A tuple was used as a standalone value.
    TupleValue,
    /// An invalid target was assigned to.
    InvalidAssignTarget,
    /// A function was defined without an identifier name.
    InvalidFunctionName,
    /// A function was defined without an identifier parameter.
    InvalidParam,
    /// A function was defined with a duplicate parameter.
    DuplicateParam(Symbol),
    /// A variable that is already defined was defined again.
    AlreadyDefinedVariable(Symbol),
    /// An undefined variable was used.
    UndefinedVariable(Symbol),
}

impl ErrorKind {
    /// The kind of error for a statement used in an [`ExprArea`].
    pub fn from(value: ExprArea) -> (kind: ErrorKind)
        ensures
            kind == ErrorKind::UsedStmt(value),
    {
        ErrorKind::UsedStmt(value)
    }
}

} // verus!
