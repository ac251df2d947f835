use vstd::prelude::*;

use crate::cfg::UpvalueId;
use crate::decl_table::DeclId;

verus! {

/// A lookup table of [`UpvalueId`]s.
pub struct UpvalueTable {
    /// The [`DeclId`]s that are declared as upvalues, by [`UpvalueId`].
    decl_ids: Vec<DeclId>,
}

impl View for UpvalueTable {
    type V = Seq<DeclId>;

    closed spec fn view(&self) -> Seq<DeclId> {
        self.decl_ids@
    }
}

impl UpvalueTable {
    /// Creates a new `UpvalueTable`.
    pub fn new() -> (table: Self)
        ensures
            table@ == Seq::<DeclId>::empty(),
    {
        UpvalueTable { decl_ids: Vec::new() }
    }

    /// Declares a [`DeclId`] as an upvalue and returns its [`UpvalueId`].
    pub fn declare(&mut self, id: DeclId) -> (upvalue: UpvalueId)
        ensures
            final(self)@ == old(self)@.push(id),
            upvalue.0 == old(self)@.len(),
    {
        let index = self.decl_ids.len();
        self.decl_ids.push(id);
        UpvalueId(index)
    }
}

} // verus!
