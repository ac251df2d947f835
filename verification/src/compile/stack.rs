use vstd::prelude::*;

use crate::locals::Local;
use crate::scoped::{is_first_position, ScopedView, lemma_offsets_pop, lemma_offsets_push, offsets_view};

verus! {

/// A stack element.
#[derive(Clone, Copy, Debug, PartialEq, Eq, Structural)]
pub enum Elem {
    /// A local variable.
    Local(Local),
    /// A temporary value.
    Temp,
}

/// The abstract state of a [`StackFrame`].
pub type StackFrameView = ScopedView<Elem>;

/// Whether a stack element is a local variable.
pub open spec fn is_local(elem: Elem) -> bool {
    elem is Local
}

/// Whether a stack element is a temporary value.
pub open spec fn is_temp(elem: Elem) -> bool {
    elem is Temp
}

/// A stack frame.
pub struct StackFrame {
    /// The stack of [`Elem`]s.
    elems: Vec<Elem>,
    /// The stack offsets to each scope.
    scope_offsets: Vec<usize>,
}

impl View for StackFrame {
    type V = StackFrameView;

    closed spec fn view(&self) -> StackFrameView {
        ScopedView { elems: self.elems@, scope_offsets: offsets_view(self.scope_offsets@) }
    }
}

impl StackFrame {
    /// Creates a new `StackFrame`.
    pub fn new() -> (frame: Self)
        ensures
            frame@ == StackFrameView::empty(),
    {
        let stack = StackFrame { elems: Vec::new(), scope_offsets: Vec::new() };
        proof {
            assert(offsets_view(Seq::<usize>::empty()) =~= Seq::<int>::empty());
        }
        stack
    }

    /// Returns the number of elements in the `StackFrame`.
    pub fn len(&self) -> (len: usize)
        ensures
            len == self@.elems.len(),
    {
        self.elems.len()
    }

    /// Returns a local variable's stack frame offset from its [`Local`]: the
    /// first position where it was pushed.
    pub fn local_offset(&self, local: Local) -> (offset: usize)
        requires
            self@.elems.contains(Elem::Local(local)),
        ensures
            is_first_position(self@.elems, Elem::Local(local), offset as int),
    {
        let mut i: usize = 0;
        while i < self.elems.len()
            invariant
                i <= self.elems.len(),
                self@.elems.contains(Elem::Local(local)),
                forall|j: int| 0 <= j < i ==> self.elems@[j] != Elem::Local(local),
            decreases self.elems.len() - i,
        {
            if self.elems[i] == Elem::Local(local) {
                return i;
            }
            i = i + 1;
        }
        proof {
            let k = choose|k: int| 0 <= k < self.elems@.len() && self.elems@[k] == Elem::Local(local);
            assert(self.elems@[k] != Elem::Local(local));
        }
        0
    }

    /// Pushes a new local scope to the `StackFrame`.
    pub fn push_scope(&mut self)
        ensures
            final(self)@ == old(self)@.pushed_scope(),
    {
        let ghost before = self.scope_offsets@;
        let offset = self.elems.len();
        self.scope_offsets.push(offset);
        proof {
            lemma_offsets_push(before, offset);
        }
    }

    /// Pops the current local scope from the `StackFrame` and returns the
    /// number of local variables that were declared in the local scope.
    pub fn pop_scope(&mut self) -> (local_count: usize)
        requires
            old(self)@.can_pop_scope(|e: Elem| is_local(e)),
        ensures
            final(self)@ == old(self)@.popped_scope(),
            local_count == old(self)@.innermost_len(),
    {
        proof {
            lemma_offsets_pop(self.scope_offsets@);
        }
        let offset = self.scope_offsets.pop().unwrap();
        let local_count = self.elems.len() - offset;
        self.elems.truncate(offset);
        local_count
    }

    /// Marks a local variable being pushed to the `StackFrame`.
    pub fn push_local(&mut self, local: Local)
        requires
            old(self)@.scope_offsets.len() > 0,
        ensures
            final(self)@ == old(self)@.pushed(Elem::Local(local)),
    {
        self.elems.push(Elem::Local(local));
    }

    /// Marks a callee being pushed to the `StackFrame`.
    pub fn push_callee(&mut self, local: Local)
        requires
            old(self)@.elems.len() == 0,
            old(self)@.scope_offsets.len() == 0,
        ensures
            final(self)@ == old(self)@.pushed(Elem::Local(local)),
    {
        self.elems.push(Elem::Local(local));
    }

    /// Marks a function parameter being pushed to the `StackFrame`: a
    /// function's parameters are declared before any local scope is opened.
    pub fn push_param(&mut self, local: Local)
        requires
            old(self)@.scope_offsets.len() == 0,
        ensures
            final(self)@ == old(self)@.pushed(Elem::Local(local)),
    {
        self.elems.push(Elem::Local(local));
    }

    /// Marks a temporary value being pushed to the `StackFrame`.
    pub fn push_temp(&mut self)
        ensures
            final(self)@ == old(self)@.pushed(Elem::Temp),
    {
        self.elems.push(Elem::Temp);
    }

    /// Marks a number of temporary values being popped from the `StackFrame`.
    pub fn pop_temps(&mut self, count: usize)
        requires
            old(self)@.can_pop(count as int, |e: Elem| is_temp(e)),
        ensures
            final(self)@ == old(self)@.popped(count as int),
    {
        let offset = self.elems.len() - count;
        self.elems.truncate(offset);
    }
}

} // verus!
