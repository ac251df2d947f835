use vstd::prelude::*;

verus! {

/// A unique identifier for a [`Decl`]: its index in the [`DeclTable`].
#[derive(Clone, Copy, Debug, PartialEq, Eq, Structural)]
pub struct DeclId(pub usize);

/// A local variable declaration.
#[derive(Clone, Copy, Debug, PartialEq, Eq, Structural)]
pub struct Decl {
    /// Whether the `Decl` is accessed as an upvalue.
    pub is_upvalue: bool,
    /// The call depth the `Decl` is declared at.
    pub call_depth: usize,
}

/// A lookup table of [`Decl`]s.
pub struct DeclTable {
    /// The [`Decl`]s, by index.
    decls: Vec<Decl>,
}

impl View for DeclTable {
    type V = Seq<Decl>;

    closed spec fn view(&self) -> Seq<Decl> {
        self.decls@
    }
}

impl DeclTable {
    /// Creates a new `DeclTable`.
    pub fn new() -> (table: Self)
        ensures
            table@ == Seq::<Decl>::empty(),
    {
        DeclTable { decls: Vec::new() }
    }

    /// Declares a new [`Decl`] at a call depth and returns its [`DeclId`].
    pub fn declare(&mut self, call_depth: usize) -> (id: DeclId)
        ensures
            final(self)@ == old(self)@.push(Decl { is_upvalue: false, call_depth }),
            id.0 == old(self)@.len(),
    {
        let index = self.decls.len();
        self.decls.push(Decl { is_upvalue: false, call_depth });
        DeclId(index)
    }

    /// Returns a reference to a [`Decl`] from its [`DeclId`].
    pub fn get(&self, id: DeclId) -> (decl: &Decl)
        requires
            id.0 < self@.len(),
        ensures
            *decl == self@[id.0 as int],
    {
        &self.decls[id.0]
    }

    /// Returns a mutable reference to a [`Decl`] from its [`DeclId`].
    pub fn get_mut(&mut self, id: DeclId) -> (decl: &mut Decl)
        requires
            id.0 < old(self)@.len(),
        ensures
            *decl == old(self)@[id.0 as int],
            final(self)@ == old(self)@.update(id.0 as int, *final(decl)),
    {
        &mut self.decls[id.0]
    }
}

/// A declaration can be read back from the [`DeclId`] it was given, and
/// declaring leaves every earlier declaration as it was.
pub proof fn lemma_declare_then_get(before: Seq<Decl>, after: Seq<Decl>, id: DeclId, call_depth: usize)
    requires
        after == before.push(Decl { is_upvalue: false, call_depth }),
        id.0 == before.len(),
    ensures
        id.0 < after.len(),
        after[id.0 as int] == (Decl { is_upvalue: false, call_depth }),
        forall|i: int| 0 <= i < before.len() ==> after[i] == before[i],
{
}

} // verus!
