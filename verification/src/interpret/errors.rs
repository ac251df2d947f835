use vstd::prelude::*;

verus! {

/// A kind of error caught while interpreting.
#[derive(Clone, Copy, Debug, PartialEq, Eq, Structural)]
pub enum ErrorKind {
    /// An invalid type was used for an operation.
    InvalidType,
    /// A division by zero was attempted.
    DivideByZero,
    /// A non-function was called.
    CalledNonFunction,
    /// A function was called with the incorrect number of arguments.
    IncorrectCallArity,
}

} // verus!
