use vstd::prelude::*;

verus! {

/// An interned name: its index in a [`Symbols`] table.
#[derive(Clone, Copy, Debug, PartialEq, Eq, Hash, Structural)]
pub struct Symbol(pub usize);

/// A table of interned names. Each distinct name is given one [`Symbol`].
pub struct Symbols {
    /// The interned names, by [`Symbol`] index.
    names: Vec<String>,
}

impl View for Symbols {
    type V = Seq<Seq<char>>;

    closed spec fn view(&self) -> Seq<Seq<char>> {
        self.names@.map_values(|name: String| name@)
    }
}

/// No name occurs twice in an interning table.
pub open spec fn names_distinct(names: Seq<Seq<char>>) -> bool {
    forall|i: int, j: int| 0 <= i < j < names.len() ==> names[i] != names[j]
}

impl Symbols {
    /// The table's invariant: every name is interned at most once.
    pub open spec fn wf(&self) -> bool {
        names_distinct(self@)
    }

    /// Creates an empty table.
    pub fn new() -> (symbols: Self)
        ensures
            symbols.wf(),
            symbols@ == Seq::<Seq<char>>::empty(),
    {
        let symbols = Symbols { names: Vec::new() };
        proof {
            assert(symbols@ =~= Seq::<Seq<char>>::empty());
        }
        symbols
    }

    /// Returns the [`Symbol`] of a name, interning the name if it is new.
    pub fn intern(&mut self, name: &str) -> (symbol: Symbol)
        requires
            old(self).wf(),
        ensures
            final(self).wf(),
            symbol.0 < final(self)@.len(),
            final(self)@[symbol.0 as int] == name@,
            old(self)@.contains(name@) ==> final(self)@ == old(self)@,
            !old(self)@.contains(name@) ==> final(self)@ == old(self)@.push(name@),
    {
        let target = name.to_owned();
        let mut i: usize = 0;
        while i < self.names.len()
            invariant
                i <= self.names.len(),
                target@ == name@,
                self.wf(),
                self@ == old(self)@,
                forall|j: int| 0 <= j < i ==> self@[j] != name@,
            decreases self.names.len() - i,
        {
            assert(self@[i as int] == self.names@[i as int]@);
            if self.names[i] == target {
                return Symbol(i);
            }
            i = i + 1;
        }
        proof {
            if self@.contains(name@) {
                let k = choose|k: int| 0 <= k < self@.len() && self@[k] == name@;
                assert(self@[k] != name@);
            }
        }
        let index = self.names.len();
        self.names.push(target);
        proof {
            assert(self@ =~= old(self)@.push(name@));
        }
        Symbol(index)
    }

    /// A table holds at most `usize::MAX` names.
    pub proof fn lemma_len_bound(&self)
        ensures
            self@.len() <= usize::MAX,
    {
        assert(self.names.len() == self.names@.len());
    }

    /// Returns the number of interned names.
    pub fn len(&self) -> (len: usize)
        ensures
            len == self@.len(),
    {
        self.names.len()
    }

    /// Returns the name of a [`Symbol`].
    pub fn name(&self, symbol: Symbol) -> (name: &str)
        requires
            symbol.0 < self@.len(),
        ensures
            name@ == self@[symbol.0 as int],
    {
        self.names[symbol.0].as_str()
    }
}

/// The [`Symbol`] of an interned name.
pub open spec fn symbol_of(names: Seq<Seq<char>>, name: Seq<char>) -> Symbol {
    Symbol((choose|i: int| 0 <= i < names.len() && names[i] == name) as usize)
}

/// In a table without repeated names, a name's symbol is its position.
pub proof fn lemma_symbol_of(names: Seq<Seq<char>>, i: int)
    requires
        names_distinct(names),
        0 <= i < names.len(),
        names.len() <= usize::MAX,
    ensures
        symbol_of(names, names[i]) == Symbol(i as usize),
{
    let j = choose|j: int| 0 <= j < names.len() && names[j] == names[i];
    assert(names[j] == names[i]);
}

/// Interning is a bijection between names and symbols: interning the same
/// name twice gives the same symbol, and different names give different
/// symbols.
pub proof fn lemma_symbols_injective(names: Seq<Seq<char>>, a: Symbol, b: Symbol)
    requires
        names_distinct(names),
        a.0 < names.len(),
        b.0 < names.len(),
    ensures
        (a == b) <==> (names[a.0 as int] == names[b.0 as int]),
{
}

} // verus!
