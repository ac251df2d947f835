//! The abstract model shared by the stacks that record where each scope
//! begins, with the laws that opening and closing scopes obey.

use vstd::prelude::*;

verus! {

/// `offset` is the first position of `x` in `s`.
pub open spec fn is_first_position<T>(s: Seq<T>, x: T, offset: int) -> bool {
    &&& 0 <= offset < s.len()
    &&& s[offset] == x
    &&& forall|j: int| 0 <= j < offset ==> s[j] != x
}

/// `offset` is the last position of `x` in `s`.
pub open spec fn is_last_position<T>(s: Seq<T>, x: T, offset: int) -> bool {
    &&& 0 <= offset < s.len()
    &&& s[offset] == x
    &&& forall|j: int| offset < j < s.len() ==> s[j] != x
}

/// The abstract state of a stack with scopes: its elements, bottom first,
/// and the stack offset where each open scope begins, outermost first.
pub struct ScopedView<E> {
    pub elems: Seq<E>,
    pub scope_offsets: Seq<int>,
}

impl<E> ScopedView<E> {
    /// An empty stack with no open scope.
    pub open spec fn empty() -> ScopedView<E> {
        ScopedView { elems: Seq::empty(), scope_offsets: Seq::empty() }
    }

    /// Whether the scope offsets are ordered, outermost first, and lie within
    /// the stack.
    pub open spec fn wf(self) -> bool {
        &&& forall|i: int, j: int|
            0 <= i <= j < self.scope_offsets.len() ==> #[trigger] self.scope_offsets[i]
                <= #[trigger] self.scope_offsets[j]
        &&& forall|i: int|
            0 <= i < self.scope_offsets.len() ==> 0 <= #[trigger] self.scope_offsets[i]
                <= self.elems.len()
    }

    /// The state after opening a scope at the top of the stack.
    pub open spec fn pushed_scope(self) -> ScopedView<E> {
        ScopedView {
            elems: self.elems,
            scope_offsets: self.scope_offsets.push(self.elems.len() as int),
        }
    }

    /// The state after pushing an element.
    pub open spec fn pushed(self, elem: E) -> ScopedView<E> {
        ScopedView { elems: self.elems.push(elem), scope_offsets: self.scope_offsets }
    }

    /// The state after pushing each of `elems`, in order.
    pub open spec fn pushed_all(self, elems: Seq<E>) -> ScopedView<E> {
        ScopedView { elems: self.elems + elems, scope_offsets: self.scope_offsets }
    }

    /// Whether the innermost scope can be closed: there is one, it begins
    /// within the stack, and every element above its start satisfies `allowed`.
    pub open spec fn can_pop_scope(self, allowed: spec_fn(E) -> bool) -> bool {
        &&& self.scope_offsets.len() > 0
        &&& self.scope_offsets.last() <= self.elems.len()
        &&& forall|i: int|
            self.scope_offsets.last() <= i < self.elems.len() ==> allowed(#[trigger] self.elems[i])
    }

    /// The state after closing the innermost scope.
    pub open spec fn popped_scope(self) -> ScopedView<E> {
        ScopedView {
            elems: self.elems.take(self.scope_offsets.last()),
            scope_offsets: self.scope_offsets.drop_last(),
        }
    }

    /// The number of elements that the innermost scope holds.
    pub open spec fn innermost_len(self) -> int {
        self.elems.len() - self.scope_offsets.last()
    }

    /// Whether `count` elements that satisfy `allowed` lie at the top of the
    /// stack.
    pub open spec fn can_pop(self, count: int, allowed: spec_fn(E) -> bool) -> bool {
        &&& 0 <= count <= self.elems.len()
        &&& forall|i: int|
            self.elems.len() - count <= i < self.elems.len() ==> allowed(#[trigger] self.elems[i])
    }

    /// The state after popping `count` elements.
    pub open spec fn popped(self, count: int) -> ScopedView<E> {
        ScopedView {
            elems: self.elems.take(self.elems.len() - count),
            scope_offsets: self.scope_offsets,
        }
    }
}

/// Opening a scope, pushing elements that a scope may hold, and closing the
/// scope again restores the stack and reports how many elements were pushed.
pub proof fn lemma_scope_roundtrip<E>(
    stack: ScopedView<E>,
    elems: Seq<E>,
    allowed: spec_fn(E) -> bool,
)
    requires
        forall|i: int| 0 <= i < elems.len() ==> allowed(#[trigger] elems[i]),
    ensures
        stack.pushed_scope().pushed_all(elems).can_pop_scope(allowed),
        stack.pushed_scope().pushed_all(elems).popped_scope() == stack,
        stack.pushed_scope().pushed_all(elems).innermost_len() == elems.len(),
{
    let after = stack.pushed_scope().pushed_all(elems);
    assert forall|i: int|
        stack.elems.len() <= i < after.elems.len() implies allowed(#[trigger] after.elems[i]) by {
        assert(after.elems[i] == elems[i - stack.elems.len()]);
    }
    assert(after.elems.take(stack.elems.len() as int) =~= stack.elems);
    assert(after.scope_offsets.drop_last() =~= stack.scope_offsets);
}

/// Pushing elements and then popping as many of them restores the stack.
pub proof fn lemma_push_pop_roundtrip<E>(
    stack: ScopedView<E>,
    elems: Seq<E>,
    allowed: spec_fn(E) -> bool,
)
    requires
        forall|i: int| 0 <= i < elems.len() ==> allowed(#[trigger] elems[i]),
    ensures
        stack.pushed_all(elems).can_pop(elems.len() as int, allowed),
        stack.pushed_all(elems).popped(elems.len() as int) == stack,
{
    let after = stack.pushed_all(elems);
    assert forall|i: int|
        after.elems.len() - elems.len() <= i < after.elems.len() implies allowed(
            #[trigger] after.elems[i],
        ) by {
        assert(after.elems[i] == elems[i - stack.elems.len()]);
    }
    assert(after.elems.take(stack.elems.len() as int) =~= stack.elems);
}

/// Pushing elements one call at a time is pushing them all at once.
pub proof fn lemma_pushed_all_push<E>(stack: ScopedView<E>, elems: Seq<E>, elem: E)
    ensures
        stack.pushed_all(elems).pushed(elem) == stack.pushed_all(elems.push(elem)),
        stack.pushed_all(Seq::empty()) == stack,
{
    assert((stack.elems + elems).push(elem) =~= stack.elems + elems.push(elem));
    assert(stack.elems + Seq::<E>::empty() =~= stack.elems);
}

/// Pushing elements keeps the first position of every element already on
/// the stack.
pub proof fn lemma_pushed_all_keeps_positions<E>(stack: ScopedView<E>, elems: Seq<E>, x: E, offset: int)
    requires
        is_first_position(stack.elems, x, offset),
    ensures
        is_first_position(stack.pushed_all(elems).elems, x, offset),
{
    let after = stack.pushed_all(elems).elems;
    assert(after[offset] == stack.elems[offset]);
    assert forall|j: int| 0 <= j < offset implies after[j] != x by {
        assert(after[j] == stack.elems[j]);
    }
}

/// The scope offsets of a stack, as integers.
pub open spec fn offsets_view(offsets: Seq<usize>) -> Seq<int> {
    offsets.map_values(|offset: usize| offset as int)
}

/// Pushing an offset pushes it to the integer offsets.
pub proof fn lemma_offsets_push(offsets: Seq<usize>, offset: usize)
    ensures
        offsets_view(offsets.push(offset)) == offsets_view(offsets).push(offset as int),
{
    assert(offsets_view(offsets.push(offset)) =~= offsets_view(offsets).push(offset as int));
}

/// Popping the last offset pops it from the integer offsets.
pub proof fn lemma_offsets_pop(offsets: Seq<usize>)
    requires
        offsets.len() > 0,
    ensures
        offsets_view(offsets.subrange(0, offsets.len() - 1)) == offsets_view(offsets).drop_last(),
        offsets_view(offsets).last() == offsets.last() as int,
{
    assert(offsets_view(offsets.subrange(0, offsets.len() - 1)) =~= offsets_view(offsets).drop_last());
}

} // verus!
