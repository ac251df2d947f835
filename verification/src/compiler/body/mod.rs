use vstd::prelude::*;

use super::stack::Stack;
use crate::scoped::ScopedView;

verus! {

/// Context for compiling a program or function's body.
pub struct Body {
    /// The [`Stack`] for tracking the locations of local variables and
    /// intermediate values.
    pub stack: Stack,
    /// The shallowest call depth where an accessed upvalue was defined.
    pub upvalue_call_depth: usize,
}

impl Body {
    /// Creates a new `Body` from a call depth.
    pub fn new(call_depth: usize) -> (body: Self)
        ensures
            body.stack@ == ScopedView::<super::stack::Elem>::empty(),
            body.upvalue_call_depth == call_depth,
    {
        Body { stack: Stack::new(), upvalue_call_depth: call_depth }
    }

    /// Declares the access of an upvalue declared at a call depth.
    pub fn access_upvalue(&mut self, call_depth: usize)
        ensures
            final(self).stack@ == old(self).stack@,
            final(self).upvalue_call_depth == if call_depth < old(self).upvalue_call_depth {
                call_depth
            } else {
                old(self).upvalue_call_depth
            },
    {
        if call_depth < self.upvalue_call_depth {
            self.upvalue_call_depth = call_depth;
        }
    }
}

} // verus!
