use vstd::prelude::*;

verus! {

/// A unique identifier for a local variable: its index in the [`LocalTable`].
#[derive(Clone, Copy, Debug, PartialEq, Eq, Structural)]
pub struct Local(pub usize);

/// A [`Local`]'s data.
#[derive(Clone, Copy, Debug, PartialEq, Eq, Structural)]
pub struct Data {
    /// The function depth where the [`Local`] is declared.
    pub function_depth: usize,
    /// Whether the [`Local`] is an upvar.
    pub is_upvar: bool,
}

/// A table of [`Local`]s.
pub struct LocalTable {
    /// The [`Data`] of each [`Local`], by index.
    data: Vec<Data>,
}

impl View for LocalTable {
    type V = Seq<Data>;

    closed spec fn view(&self) -> Seq<Data> {
        self.data@
    }
}

impl LocalTable {
    /// Creates a new `LocalTable`.
    pub fn new() -> (table: Self)
        ensures
            table@ == Seq::<Data>::empty(),
    {
        LocalTable { data: Vec::new() }
    }

    /// A table holds at most `usize::MAX` locals.
    pub proof fn lemma_len_bound(&self)
        ensures
            self@.len() <= usize::MAX,
    {
        assert(self.data.len() == self.data@.len());
    }

    /// Returns the number of declared [`Local`]s.
    pub fn len(&self) -> (len: usize)
        ensures
            len == self@.len(),
    {
        self.data.len()
    }

    /// Returns a reference to a [`Local`]'s data.
    pub fn data(&self, local: Local) -> (data: &Data)
        requires
            local.0 < self@.len(),
        ensures
            *data == self@[local.0 as int],
    {
        &self.data[local.0]
    }

    /// Returns a mutable reference to a [`Local`]'s data.
    pub fn data_mut(&mut self, local: Local) -> (data: &mut Data)
        requires
            local.0 < old(self)@.len(),
        ensures
            *data == old(self)@[local.0 as int],
            final(self)@ == old(self)@.update(local.0 as int, *final(data)),
    {
        &mut self.data[local.0]
    }

    /// Declares a new [`Local`] at a function depth.
    pub fn declare_local(&mut self, function_depth: usize) -> (local: Local)
        ensures
            final(self)@ == old(self)@.push(Data { function_depth, is_upvar: false }),
            local.0 == old(self)@.len(),
    {
        self.data.push(Data { function_depth, is_upvar: false });
        Local(self.data.len() - 1)
    }
}

} // verus!
