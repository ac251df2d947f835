use vstd::prelude::*;

use crate::decl_table::DeclId;
use crate::scoped::{
    is_first_position, lemma_offsets_pop, lemma_offsets_push, lemma_pushed_all_keeps_positions,
    lemma_scope_roundtrip, offsets_view, ScopedView,
};

verus! {

/// Any upvalue may be dropped when its scope ends.
pub open spec fn any_upvalue(id: DeclId) -> bool {
    true
}

/// Ending a scope undoes it. After `begin_scope` on a stack and `declare`
/// calls for `ids` (which push them all), `end_scope` may be called, returns
/// how many were declared, and leaves the stack exactly as it was before the
/// scope began; every upvalue declared before keeps its offset throughout.
pub proof fn lemma_end_scope_undoes_scope(before: ScopedView<DeclId>, ids: Seq<DeclId>)
    ensures
        before.pushed_scope().pushed_all(ids).can_pop_scope(|id: DeclId| any_upvalue(id)),
        before.pushed_scope().pushed_all(ids).innermost_len() == ids.len(),
        before.pushed_scope().pushed_all(ids).popped_scope() == before,
        forall|id: DeclId, offset: int|
            is_first_position(before.elems, id, offset) ==> #[trigger] is_first_position(
                before.pushed_scope().pushed_all(ids).elems,
                id,
                offset,
            ),
{
    lemma_scope_roundtrip(before, ids, |id: DeclId| any_upvalue(id));
    assert forall|id: DeclId, offset: int|
        is_first_position(before.elems, id, offset) implies #[trigger] is_first_position(
            before.pushed_scope().pushed_all(ids).elems,
            id,
            offset,
        ) by {
        lemma_pushed_all_keeps_positions(before.pushed_scope(), ids, id, offset);
    }
}

/// A stack of upvalues.
pub struct UpvalueStack {
    /// The stack of [`DeclId`]s that are declared as upvalues.
    stack: Vec<DeclId>,
    /// The stack offsets to each scope.
    scope_offsets: Vec<usize>,
}

impl View for UpvalueStack {
    type V = ScopedView<DeclId>;

    closed spec fn view(&self) -> ScopedView<DeclId> {
        ScopedView { elems: self.stack@, scope_offsets: offsets_view(self.scope_offsets@) }
    }
}

impl UpvalueStack {
    /// Creates a new `UpvalueStack`.
    pub fn new() -> (upvalues: Self)
        ensures
            upvalues@ == ScopedView::<DeclId>::empty(),
    {
        let stack = UpvalueStack { stack: Vec::new(), scope_offsets: Vec::new() };
        proof {
            assert(offsets_view(Seq::<usize>::empty()) =~= Seq::<int>::empty());
        }
        stack
    }

    /// Begins a scope.
    pub fn begin_scope(&mut self)
        ensures
            final(self)@ == old(self)@.pushed_scope(),
    {
        let ghost before = self.scope_offsets@;
        let offset = self.stack.len();
        self.scope_offsets.push(offset);
        proof {
            lemma_offsets_push(before, offset);
        }
    }

    /// Ends a scope and returns the number of upvalues that were declared in
    /// the scope.
    pub fn end_scope(&mut self) -> (upvalue_count: usize)
        requires
            old(self)@.can_pop_scope(|id: DeclId| any_upvalue(id)),
        ensures
            final(self)@ == old(self)@.popped_scope(),
            upvalue_count == old(self)@.innermost_len(),
    {
        proof {
            lemma_offsets_pop(self.scope_offsets@);
        }
        let offset = self.scope_offsets.pop().unwrap();
        let upvalue_count = self.stack.len() - offset;
        self.stack.truncate(offset);
        upvalue_count
    }

    /// Declares a new upvalue.
    pub fn declare(&mut self, id: DeclId)
        requires
            old(self)@.scope_offsets.len() > 0,
        ensures
            final(self)@ == old(self)@.pushed(id),
    {
        self.stack.push(id);
    }

    /// Returns the stack offset of an upvalue: the first position where it
    /// was declared.
    pub fn offset(&self, id: DeclId) -> (offset: usize)
        requires
            self@.elems.contains(id),
        ensures
            is_first_position(self@.elems, id, offset as int),
    {
        let mut i: usize = 0;
        while i < self.stack.len()
            invariant
                i <= self.stack.len(),
                self.stack@.contains(id),
                forall|j: int| 0 <= j < i ==> self.stack@[j] != id,
            decreases self.stack.len() - i,
        {
            if self.stack[i] == id {
                return i;
            }
            i = i + 1;
        }
        proof {
            let k = choose|k: int| 0 <= k < self.stack@.len() && self.stack@[k] == id;
            assert(self.stack@[k] != id);
        }
        0
    }
}

} // verus!
