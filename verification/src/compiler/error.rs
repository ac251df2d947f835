use vstd::prelude::*;

verus! {

/// An error caught while compiling a program.
#[derive(Debug, PartialEq, Eq)]
pub enum CompileError {
    /// An invalid target was assigned to.
    InvalidAssignTarget,
    /// A variable that is already defined was defined again.
    AlreadyDefinedVariable(String),
    /// A variable that is undefined was used.
    UndefinedVariable(String),
}

} // verus!
