use vstd::prelude::*;

use crate::scoped::{is_last_position, ScopedView, lemma_offsets_pop, lemma_offsets_push, offsets_view};

verus! {

/// Any declared name may be dropped when its scope is popped.
pub open spec fn any_name(name: Seq<char>) -> bool {
    true
}

/// A stack of scoped local variable declarations.
pub struct Locals {
    /// The declared variable names in stack order.
    names: Vec<String>,
    /// The stack offsets to each scope.
    scope_offsets: Vec<usize>,
}

impl View for Locals {
    type V = ScopedView<Seq<char>>;

    closed spec fn view(&self) -> ScopedView<Seq<char>> {
        ScopedView {
            elems: self.names@.map_values(|name: String| name@),
            scope_offsets: offsets_view(self.scope_offsets@),
        }
    }
}

impl Locals {
    /// Creates new `Locals`.
    pub fn new() -> (locals: Self)
        ensures
            locals@ == ScopedView::<Seq<char>>::empty(),
    {
        let names = Vec::new();
        let scope_offsets = Vec::new();
        let locals = Locals { names, scope_offsets };
        proof {
            assert(locals@.elems =~= Seq::<Seq<char>>::empty());
            assert(offsets_view(Seq::<usize>::empty()) =~= Seq::<int>::empty());
        }
        locals
    }

    /// Pushes a new local scope.
    pub fn push_scope(&mut self)
        ensures
            final(self)@ == old(self)@.pushed_scope(),
    {
        let ghost before = self.scope_offsets@;
        let offset = self.names.len();
        self.scope_offsets.push(offset);
        proof {
            lemma_offsets_push(before, offset);
        }
    }

    /// Pops a local scope and returns the number of variables that were
    /// declared in the popped scope.
    pub fn pop_scope(&mut self) -> (variable_count: usize)
        requires
            old(self)@.can_pop_scope(|name: Seq<char>| any_name(name)),
        ensures
            final(self)@ == old(self)@.popped_scope(),
            variable_count == old(self)@.innermost_len(),
    {
        proof {
            lemma_offsets_pop(self.scope_offsets@);
        }
        let scope_offset = self.scope_offsets.pop().unwrap();
        let variable_count = self.names.len() - scope_offset;
        self.names.truncate(scope_offset);
        proof {
            assert(self@.elems =~= old(self)@.elems.take(scope_offset as int));
        }
        variable_count
    }

    /// Returns whether the current scope is the global scope.
    pub fn is_global_scope(&self) -> (is_global: bool)
        ensures
            is_global == (self@.scope_offsets.len() == 0),
    {
        self.scope_offsets.len() == 0
    }

    /// Returns the current number of local variable declarations, including
    /// shadowing and temporaries.
    pub fn count(&self) -> (count: usize)
        ensures
            count == self@.elems.len(),
    {
        self.names.len()
    }

    /// Returns the index of a local variable declaration: the most recent one
    /// with the name. This function returns `None` if the name is not
    /// declared as a local variable.
    pub fn get(&self, name: &str) -> (index: Option<usize>)
        ensures
            match index {
                Some(i) => is_last_position(self@.elems, name@, i as int),
                None => !self@.elems.contains(name@),
            },
    {
        let target = name.to_owned();
        let mut index = self.names.len();
        while index > 0
            invariant
                index <= self.names.len(),
                target@ == name@,
                forall|j: int| index <= j < self.names.len() ==> self@.elems[j] != name@,
            decreases index,
        {
            index = index - 1;
            assert(self@.elems[index as int] == self.names@[index as int]@);
            if self.names[index] == target {
                return Some(index);
            }
        }
        proof {
            if self@.elems.contains(name@) {
                let k = choose|k: int| 0 <= k < self@.elems.len() && self@.elems[k] == name@;
                assert(self@.elems[k] != name@);
            }
        }
        None
    }

    /// Declares a variable in the current local scope. This function returns
    /// `true` if a new variable was declared and returns `false` if the
    /// variable was already declared in the current scope.
    pub fn declare(&mut self, name: &str) -> (declared: bool)
        requires
            old(self)@.scope_offsets.len() > 0,
            old(self)@.scope_offsets.last() <= old(self)@.elems.len(),
        ensures
            declared == !old(self)@.elems.subrange(
                old(self)@.scope_offsets.last() as int,
                old(self)@.elems.len() as int,
            ).contains(name@),
            final(self)@ == if declared {
                old(self)@.pushed(name@)
            } else {
                old(self)@
            },
    {
        if self.top_contains(name) {
            false
        } else {
            self.names.push(name.to_owned());
            proof {
                assert(self@.elems =~= old(self)@.elems.push(name@));
            }
            true
        }
    }

    /// Pushes a temporary local variable to the current scope.
    pub fn push_temp(&mut self)
        ensures
            final(self)@ == old(self)@.pushed(Seq::<char>::empty()),
    {
        self.names.push(String::new());
        proof {
            assert(self@.elems =~= old(self)@.elems.push(Seq::<char>::empty()));
        }
    }

    /// Pops a temporary local variable from the current scope.
    pub fn pop_temp(&mut self)
        ensures
            final(self)@ == if old(self)@.elems.len() > 0 {
                old(self)@.popped(1)
            } else {
                old(self)@
            },
    {
        self.names.pop();
        proof {
            if old(self)@.elems.len() > 0 {
                assert(self@.elems =~= old(self)@.elems.take(old(self)@.elems.len() - 1));
            }
        }
    }

    /// Returns `true` if the top local scope contains a variable.
    fn top_contains(&self, name: &str) -> (contains: bool)
        requires
            self@.scope_offsets.len() > 0,
            self@.scope_offsets.last() <= self@.elems.len(),
        ensures
            contains == self@.elems.subrange(
                self@.scope_offsets.last() as int,
                self@.elems.len() as int,
            ).contains(name@),
    {
        let scope_offset = self.scope_offsets[self.scope_offsets.len() - 1];
        let target = name.to_owned();
        let mut i = scope_offset;
        while i < self.names.len()
            invariant
                scope_offset <= i <= self.names.len(),
                target@ == name@,
                scope_offset == self@.scope_offsets.last(),
                forall|j: int| scope_offset <= j < i ==> self@.elems[j] != name@,
            decreases self.names.len() - i,
        {
            assert(self@.elems[i as int] == self.names@[i as int]@);
            if self.names[i] == target {
                proof {
                    let top = self@.elems.subrange(scope_offset as int, self@.elems.len() as int);
                    assert(top[i - scope_offset] == name@);
                }
                return true;
            }
            i = i + 1;
        }
        proof {
            let top = self@.elems.subrange(scope_offset as int, self@.elems.len() as int);
            if top.contains(name@) {
                let k = choose|k: int| 0 <= k < top.len() && top[k] == name@;
                assert(self@.elems[scope_offset + k] != name@);
            }
        }
        false
    }
}

/// Declaring a name that the current scope does not hold makes it the
/// declaration that a lookup of that name finds.
pub proof fn lemma_declare_then_get(locals: ScopedView<Seq<char>>, name: Seq<char>)
    ensures
        is_last_position(locals.pushed(name).elems, name, locals.elems.len() as int),
{
}

} // verus!
