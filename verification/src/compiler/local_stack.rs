use vstd::prelude::*;

use crate::decl_table::DeclId;
use crate::scoped::{is_first_position, ScopedView, lemma_offsets_pop, lemma_offsets_push, offsets_view};

verus! {

/// A stack element.
#[derive(Clone, Copy, Debug, PartialEq, Eq, Structural)]
pub enum Elem {
    /// A local variable.
    Local(DeclId),
    /// A temporary value.
    Temp,
}

/// Whether a stack element is a local variable.
pub open spec fn is_local(elem: Elem) -> bool {
    elem is Local
}

/// Whether a stack element is a temporary value.
pub open spec fn is_temp(elem: Elem) -> bool {
    elem is Temp
}

/// The abstract state of a [`LocalStack`].
pub struct LocalStackView {
    /// The elements and open scopes.
    pub stack: ScopedView<Elem>,
    /// The shallowest call depth where an accessed upvalue was defined.
    pub upvalue_call_depth: usize,
}

/// A stack frame of local variables and temporary values.
pub struct LocalStack {
    /// The stack of [`Elem`]s.
    stack: Vec<Elem>,
    /// The stack offsets to each scope.
    scope_offsets: Vec<usize>,
    /// The shallowest call depth where an accessed upvalue was defined.
    upvalue_call_depth: usize,
}

impl View for LocalStack {
    type V = LocalStackView;

    closed spec fn view(&self) -> LocalStackView {
        LocalStackView {
            stack: ScopedView { elems: self.stack@, scope_offsets: offsets_view(self.scope_offsets@) },
            upvalue_call_depth: self.upvalue_call_depth,
        }
    }
}

impl LocalStack {
    /// Creates a new `LocalStack` from a call depth.
    pub fn new(call_depth: usize) -> (locals: Self)
        ensures
            locals@ == (LocalStackView {
                stack: ScopedView::empty(),
                upvalue_call_depth: call_depth,
            }),
    {
        let stack = LocalStack { stack: Vec::new(), scope_offsets: Vec::new(), upvalue_call_depth: call_depth };
        proof {
            assert(offsets_view(Seq::<usize>::empty()) =~= Seq::<int>::empty());
        }
        stack
    }

    /// Returns the number of values in the `LocalStack`.
    pub fn len(&self) -> (len: usize)
        ensures
            len == self@.stack.elems.len(),
    {
        self.stack.len()
    }

    /// Returns the shallowest call depth where an accessed upvalue was defined.
    /// This function returns the `LocalStack`'s own call depth if no upvalues
    /// were accessed.
    pub fn upvalue_call_depth(&self) -> (depth: usize)
        ensures
            depth == self@.upvalue_call_depth,
    {
        self.upvalue_call_depth
    }

    /// Begins a block.
    pub fn begin_block(&mut self)
        ensures
            final(self)@ == (LocalStackView { stack: old(self)@.stack.pushed_scope(), ..old(self)@ }),
    {
        let ghost before = self.scope_offsets@;
        let offset = self.stack.len();
        self.scope_offsets.push(offset);
        proof {
            lemma_offsets_push(before, offset);
        }
    }

    /// Ends a block and returns the number of local variables that were
    /// declared in the block.
    pub fn end_block(&mut self) -> (local_count: usize)
        requires
            old(self)@.stack.can_pop_scope(|e: Elem| is_local(e)),
        ensures
            final(self)@.stack == old(self)@.stack.popped_scope(),
            local_count == old(self)@.stack.innermost_len(),
            final(self)@.upvalue_call_depth == old(self)@.upvalue_call_depth,
    {
        proof {
            lemma_offsets_pop(self.scope_offsets@);
        }
        let offset = self.scope_offsets.pop().unwrap();
        let local_count = self.stack.len() - offset;
        self.stack.truncate(offset);
        local_count
    }

    /// Declares a new local variable.
    pub fn declare(&mut self, id: DeclId)
        ensures
            final(self)@ == (LocalStackView {
                stack: old(self)@.stack.pushed(Elem::Local(id)),
                ..old(self)@
            }),
    {
        self.stack.push(Elem::Local(id));
    }

    /// Returns the stack offset of a local variable: the first position where
    /// it was declared.
    pub fn offset(&self, id: DeclId) -> (offset: usize)
        requires
            self@.stack.elems.contains(Elem::Local(id)),
        ensures
            is_first_position(self@.stack.elems, Elem::Local(id), offset as int),
    {
        let mut i: usize = 0;
        while i < self.stack.len()
            invariant
                i <= self.stack.len(),
                self.stack@.contains(Elem::Local(id)),
                forall|j: int| 0 <= j < i ==> self.stack@[j] != Elem::Local(id),
            decreases self.stack.len() - i,
        {
            if self.stack[i] == Elem::Local(id) {
                return i;
            }
            i = i + 1;
        }
        proof {
            let k = choose|k: int| 0 <= k < self.stack@.len() && self.stack@[k] == Elem::Local(id);
            assert(self.stack@[k] != Elem::Local(id));
        }
        0
    }

    /// Pushes a temporary value to the `LocalStack`.
    pub fn push_temp(&mut self)
        ensures
            final(self)@ == (LocalStackView { stack: old(self)@.stack.pushed(Elem::Temp), ..old(self)@ }),
    {
        self.stack.push(Elem::Temp);
    }

    /// Drops a number of temporary values from the top of the `LocalStack`.
    pub fn drop_temps(&mut self, count: usize)
        requires
            old(self)@.stack.can_pop(count as int, |e: Elem| is_temp(e)),
        ensures
            final(self)@ == (LocalStackView { stack: old(self)@.stack.popped(count as int), ..old(self)@ }),
    {
        let offset = self.stack.len() - count;
        self.stack.truncate(offset);
    }

    /// Accesses an upvalue declared at a call depth.
    pub fn access_upvalue(&mut self, call_depth: usize)
        ensures
            final(self)@.stack == old(self)@.stack,
            final(self)@.upvalue_call_depth == if call_depth < old(self)@.upvalue_call_depth {
                call_depth
            } else {
                old(self)@.upvalue_call_depth
            },
    {
        if call_depth < self.upvalue_call_depth {
            self.upvalue_call_depth = call_depth;
        }
    }
}

} // verus!
