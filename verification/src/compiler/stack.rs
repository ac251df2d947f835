use vstd::prelude::*;

use crate::decl_table::DeclId;
use crate::scoped::{is_first_position, ScopedView, lemma_offsets_pop, lemma_offsets_push, offsets_view};

verus! {

/// A stack element.
#[derive(Clone, Copy, Debug, PartialEq, Eq, Structural)]
pub enum Elem {
    /// A local variable.
    Local(DeclId),
    /// An intermediate value.
    Intermediate,
}

/// Whether a stack element is a local variable.
pub open spec fn is_local(elem: Elem) -> bool {
    elem is Local
}

/// Whether a stack element is an intermediate value.
pub open spec fn is_intermediate(elem: Elem) -> bool {
    elem is Intermediate
}

/// A stack of local variables and intermediate values.
pub struct Stack {
    /// The declared [`Elem`]s.
    elems: Vec<Elem>,
    /// The stack offsets to each scope.
    scope_offsets: Vec<usize>,
}

impl View for Stack {
    type V = ScopedView<Elem>;

    closed spec fn view(&self) -> ScopedView<Elem> {
        ScopedView { elems: self.elems@, scope_offsets: offsets_view(self.scope_offsets@) }
    }
}

impl Stack {
    /// Creates a new `Stack`.
    pub fn new() -> (stack: Self)
        ensures
            stack@ == ScopedView::<Elem>::empty(),
    {
        let stack = Stack { elems: Vec::new(), scope_offsets: Vec::new() };
        proof {
            assert(offsets_view(Seq::<usize>::empty()) =~= Seq::<int>::empty());
        }
        stack
    }

    /// Returns the number of local variables and intermediate values on the
    /// `Stack`.
    pub fn len(&self) -> (len: usize)
        ensures
            len == self@.elems.len(),
    {
        self.elems.len()
    }

    /// Begins a scope.
    pub fn begin_scope(&mut self)
        ensures
            final(self)@ == old(self)@.pushed_scope(),
    {
        let ghost before = self.scope_offsets@;
        let offset = self.elems.len();
        self.scope_offsets.push(offset);
        proof {
            lemma_offsets_push(before, offset);
        }
    }

    /// Ends a scope and returns the number of local variables that were
    /// declared in the scope.
    pub fn end_scope(&mut self) -> (local_count: usize)
        requires
            old(self)@.can_pop_scope(|e: Elem| is_local(e)),
        ensures
            final(self)@ == old(self)@.popped_scope(),
            local_count == old(self)@.innermost_len(),
    {
        proof {
            lemma_offsets_pop(self.scope_offsets@);
        }
        let stack_offset = self.scope_offsets.pop().unwrap();
        let local_count = self.elems.len() - stack_offset;
        self.elems.truncate(stack_offset);
        local_count
    }

    /// Declares a new local variable at the top of the `Stack`.
    pub fn declare_local(&mut self, id: DeclId)
        ensures
            final(self)@ == old(self)@.pushed(Elem::Local(id)),
    {
        self.elems.push(Elem::Local(id));
    }

    /// Declares a new intermediate value at the top of the `Stack`.
    pub fn declare_intermediate(&mut self)
        ensures
            final(self)@ == old(self)@.pushed(Elem::Intermediate),
    {
        self.elems.push(Elem::Intermediate);
    }

    /// Declares the removal of a number of intermediate values from the top of
    /// the `Stack`.
    pub fn drop_intermediates(&mut self, count: usize)
        requires
            old(self)@.can_pop(count as int, |e: Elem| is_intermediate(e)),
        ensures
            final(self)@ == old(self)@.popped(count as int),
    {
        let stack_offset = self.elems.len() - count;
        self.elems.truncate(stack_offset);
    }

    /// Returns the stack offset of a local variable: the first position where
    /// it was declared.
    pub fn local_offset(&self, id: DeclId) -> (offset: usize)
        requires
            self@.elems.contains(Elem::Local(id)),
        ensures
            is_first_position(self@.elems, Elem::Local(id), offset as int),
    {
        let mut offset: usize = 0;
        while offset < self.elems.len()
            invariant
                offset <= self.elems.len(),
                self.elems@.contains(Elem::Local(id)),
                forall|j: int| 0 <= j < offset ==> self.elems@[j] != Elem::Local(id),
            decreases self.elems.len() - offset,
        {
            if let Elem::Local(declared_id) = self.elems[offset] {
                if declared_id == id {
                    return offset;
                }
            }
            offset = offset + 1;
        }
        proof {
            let k = choose|k: int| 0 <= k < self.elems@.len() && self.elems@[k] == Elem::Local(id);
            assert(self.elems@[k] != Elem::Local(id));
        }
        0
    }
}

} // verus!
