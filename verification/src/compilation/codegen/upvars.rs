use vstd::prelude::*;

use crate::locals::Local;
use crate::scoped::{
    is_first_position, lemma_offsets_pop, lemma_offsets_push, lemma_pushed_all_keeps_positions,
    lemma_scope_roundtrip, offsets_view, ScopedView,
};

verus! {

/// Any upvar may be dropped when its scope is popped.
pub open spec fn any_upvar(local: Local) -> bool {
    true
}

/// Popping a scope undoes it. After `push_scope` on a stack and `push_upvar`
/// calls for `ids` (which push them all), `pop_scope` may be called, returns
/// how many were pushed, and leaves the stack exactly as it was before the
/// scope was pushed; every upvar pushed before keeps its offset throughout.
pub proof fn lemma_pop_scope_undoes_scope(before: ScopedView<Local>, ids: Seq<Local>)
    ensures
        before.pushed_scope().pushed_all(ids).can_pop_scope(|local: Local| any_upvar(local)),
        before.pushed_scope().pushed_all(ids).innermost_len() == ids.len(),
        before.pushed_scope().pushed_all(ids).popped_scope() == before,
        forall|id: Local, offset: int|
            is_first_position(before.elems, id, offset) ==> #[trigger] is_first_position(
                before.pushed_scope().pushed_all(ids).elems,
                id,
                offset,
            ),
{
    lemma_scope_roundtrip(before, ids, |local: Local| any_upvar(local));
    assert forall|id: Local, offset: int|
        is_first_position(before.elems, id, offset) implies #[trigger] is_first_position(
            before.pushed_scope().pushed_all(ids).elems,
            id,
            offset,
        ) by {
        lemma_pushed_all_keeps_positions(before.pushed_scope(), ids, id, offset);
    }
}

/// A stack of upvars.
pub struct UpvarStack {
    /// The stack of [`Local`]s which are accessible as upvars.
    upvars: Vec<Local>,
    /// The upvar stack offsets to each upvar scope.
    scope_offsets: Vec<usize>,
}

impl View for UpvarStack {
    type V = ScopedView<Local>;

    closed spec fn view(&self) -> ScopedView<Local> {
        ScopedView { elems: self.upvars@, scope_offsets: offsets_view(self.scope_offsets@) }
    }
}

impl UpvarStack {
    /// Creates a new `UpvarStack`.
    pub fn new() -> (upvars: Self)
        ensures
            upvars@ == ScopedView::<Local>::empty(),
    {
        let stack = UpvarStack { upvars: Vec::new(), scope_offsets: Vec::new() };
        proof {
            assert(offsets_view(Seq::<usize>::empty()) =~= Seq::<int>::empty());
        }
        stack
    }

    /// Returns an upvar's upvar stack offset from its [`Local`]: the first
    /// position where it was pushed.
    pub fn upvar_offset(&self, local: Local) -> (offset: usize)
        requires
            self@.elems.contains(local),
        ensures
            is_first_position(self@.elems, local, offset as int),
    {
        let mut i: usize = 0;
        while i < self.upvars.len()
            invariant
                i <= self.upvars.len(),
                self.upvars@.contains(local),
                forall|j: int| 0 <= j < i ==> self.upvars@[j] != local,
            decreases self.upvars.len() - i,
        {
            if self.upvars[i] == local {
                return i;
            }
            i = i + 1;
        }
        proof {
            let k = choose|k: int| 0 <= k < self.upvars@.len() && self.upvars@[k] == local;
            assert(self.upvars@[k] != local);
        }
        0
    }

    /// Pushes a new scope to the `UpvarStack`.
    pub fn push_scope(&mut self)
        ensures
            final(self)@ == old(self)@.pushed_scope(),
    {
        let ghost before = self.scope_offsets@;
        let offset = self.upvars.len();
        self.scope_offsets.push(offset);
        proof {
            lemma_offsets_push(before, offset);
        }
    }

    /// Pops the current scope from the `UpvarStack` and returns the number of
    /// upvars that were declared in the scope.
    pub fn pop_scope(&mut self) -> (upvar_count: usize)
        requires
            old(self)@.can_pop_scope(|local: Local| any_upvar(local)),
        ensures
            final(self)@ == old(self)@.popped_scope(),
            upvar_count == old(self)@.innermost_len(),
    {
        proof {
            lemma_offsets_pop(self.scope_offsets@);
        }
        let offset = self.scope_offsets.pop().unwrap();
        let upvar_count = self.upvars.len() - offset;
        self.upvars.truncate(offset);
        upvar_count
    }

    /// Marks an upvar being pushed to the `UpvarStack`.
    pub fn push_upvar(&mut self, local: Local)
        ensures
            final(self)@ == old(self)@.pushed(local),
    {
        self.upvars.push(local);
    }
}

} // verus!
