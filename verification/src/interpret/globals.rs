use vstd::prelude::*;

use crate::symbols::Symbol;

use super::value::Value;

verus! {

/// The map that a sequence of entries stands for: a later entry for a
/// symbol replaces an earlier one.
pub open spec fn entries_map(entries: Seq<(Symbol, Value)>) -> Map<Symbol, Value>
    decreases entries.len(),
{
    if entries.len() == 0 {
        Map::empty()
    } else {
        entries_map(entries.drop_last()).insert(entries.last().0, entries.last().1)
    }
}

/// No symbol has two entries.
pub open spec fn keys_distinct(entries: Seq<(Symbol, Value)>) -> bool {
    forall|i: int, j: int| 0 <= i < j < entries.len() ==> entries[i].0 != entries[j].0
}

/// Without two entries for a symbol, the map holds exactly the entries.
pub proof fn lemma_entries_map(entries: Seq<(Symbol, Value)>)
    requires
        keys_distinct(entries),
    ensures
        forall|i: int|
            0 <= i < entries.len() ==> #[trigger] entries_map(entries).contains_key(entries[i].0)
                && entries_map(entries)[entries[i].0] == entries[i].1,
        forall|symbol: Symbol|
            #[trigger] entries_map(entries).contains_key(symbol) ==> exists|i: int|
                0 <= i < entries.len() && entries[i].0 == symbol,
    decreases entries.len(),
{
    if entries.len() > 0 {
        let prefix = entries.drop_last();
        let last = entries.len() - 1;
        assert forall|i: int, j: int| 0 <= i < j < prefix.len() implies prefix[i].0 != prefix[j].0 by {
            assert(prefix[i] == entries[i] && prefix[j] == entries[j]);
        }
        lemma_entries_map(prefix);
        assert forall|i: int| 0 <= i < entries.len() implies #[trigger] entries_map(entries).contains_key(
            entries[i].0,
        ) && entries_map(entries)[entries[i].0] == entries[i].1 by {
            if i < entries.len() - 1 {
                assert(prefix[i] == entries[i]);
                assert(entries[i].0 != entries[last].0);
                assert(entries_map(prefix).contains_key(prefix[i].0));
            }
        }
        assert forall|symbol: Symbol| #[trigger] entries_map(entries).contains_key(symbol) implies exists|i: int|
            0 <= i < entries.len() && entries[i].0 == symbol by {
            if symbol != entries.last().0 {
                assert(entries_map(prefix).contains_key(symbol));
                let i = choose|i: int| 0 <= i < prefix.len() && prefix[i].0 == symbol;
                assert(prefix[i] == entries[i]);
                assert(entries[i].0 == symbol);
            } else {
                assert(entries[entries.len() - 1].0 == symbol);
            }
        }
    }
}

/// Replacing the value of an entry replaces the value in the map.
pub proof fn lemma_entries_map_update(entries: Seq<(Symbol, Value)>, i: int, value: Value)
    requires
        keys_distinct(entries),
        0 <= i < entries.len(),
    ensures
        entries_map(entries.update(i, (entries[i].0, value))) == entries_map(entries).insert(
            entries[i].0,
            value,
        ),
{
    let updated = entries.update(i, (entries[i].0, value));
    assert(keys_distinct(updated));
    lemma_entries_map(entries);
    lemma_entries_map(updated);
    let m = entries_map(entries).insert(entries[i].0, value);
    assert forall|symbol: Symbol| #[trigger] entries_map(updated).contains_key(symbol) <==> m.contains_key(symbol) by {
        if entries_map(updated).contains_key(symbol) {
            let j = choose|j: int| 0 <= j < updated.len() && updated[j].0 == symbol;
            assert(entries_map(entries).contains_key(entries[j].0));
        }
        if m.contains_key(symbol) && symbol != entries[i].0 {
            let j = choose|j: int| 0 <= j < entries.len() && entries[j].0 == symbol;
            assert(entries_map(updated).contains_key(updated[j].0));
        }
        if symbol == entries[i].0 {
            assert(entries_map(updated).contains_key(updated[i].0));
        }
    }
    assert forall|symbol: Symbol| #[trigger] entries_map(updated).contains_key(symbol) implies entries_map(
        updated,
    )[symbol] == m[symbol] by {
        let j = choose|j: int| 0 <= j < updated.len() && updated[j].0 == symbol;
        assert(entries_map(updated).contains_key(updated[j].0));
        assert(entries_map(entries).contains_key(entries[j].0));
    }
    assert(entries_map(updated) =~= m);
}

/// A map of global variables.
pub struct Globals {
    /// The [`Symbol`]s with their [`Value`]s, one entry per symbol.
    values: Vec<(Symbol, Value)>,
}

impl View for Globals {
    type V = Map<Symbol, Value>;

    closed spec fn view(&self) -> Map<Symbol, Value> {
        entries_map(self.values@)
    }
}

impl Globals {
    /// The map's invariant: one entry per symbol.
    pub closed spec fn wf(&self) -> bool {
        keys_distinct(self.values@)
    }

    /// Creates new `Globals` with no variable.
    pub fn new() -> (globals: Self)
        ensures
            globals.wf(),
            globals@ == Map::<Symbol, Value>::empty(),
    {
        Globals { values: Vec::new() }
    }

    /// Returns the position of a symbol's entry.
    fn position(&self, symbol: Symbol) -> (index: Option<usize>)
        ensures
            match index {
                Some(i) => i < self.values@.len() && self.values@[i as int].0 == symbol,
                None => forall|i: int| 0 <= i < self.values@.len() ==> self.values@[i].0 != symbol,
            },
    {
        let mut i: usize = 0;
        while i < self.values.len()
            invariant
                i <= self.values.len(),
                forall|j: int| 0 <= j < i ==> self.values@[j].0 != symbol,
            decreases self.values.len() - i,
        {
            if self.values[i].0 == symbol {
                return Some(i);
            }
            i = i + 1;
        }
        None
    }

    /// Returns the defined global variable [`Symbol`]s, each once.
    pub fn symbols(&self) -> (symbols: Vec<Symbol>)
        requires
            self.wf(),
        ensures
            forall|i: int, j: int| 0 <= i < j < symbols@.len() ==> symbols@[i] != symbols@[j],
            forall|symbol: Symbol| #[trigger] symbols@.contains(symbol) <==> self@.contains_key(symbol),
    {
        proof {
            lemma_entries_map(self.values@);
        }
        let mut symbols: Vec<Symbol> = Vec::new();
        let mut i: usize = 0;
        while i < self.values.len()
            invariant
                i <= self.values.len(),
                keys_distinct(self.values@),
                symbols@.len() == i,
                forall|j: int| 0 <= j < i ==> symbols@[j] == self.values@[j].0,
            decreases self.values.len() - i,
        {
            symbols.push(self.values[i].0);
            i = i + 1;
        }
        proof {
            assert forall|symbol: Symbol| #[trigger] symbols@.contains(symbol) <==> self@.contains_key(symbol) by {
                if symbols@.contains(symbol) {
                    let j = choose|j: int| 0 <= j < symbols@.len() && symbols@[j] == symbol;
                    assert(entries_map(self.values@).contains_key(self.values@[j].0));
                }
                if self@.contains_key(symbol) {
                    let j = choose|j: int| 0 <= j < self.values@.len() && self.values@[j].0 == symbol;
                    assert(symbols@[j] == symbol);
                }
            }
        }
        symbols
    }

    /// Returns whether a global variable is defined.
    pub fn is_defined(&self, symbol: Symbol) -> (defined: bool)
        requires
            self.wf(),
        ensures
            defined == self@.contains_key(symbol),
    {
        proof {
            lemma_entries_map(self.values@);
        }
        let index = self.position(symbol);
        proof {
            if index is None && self@.contains_key(symbol) {
                let j = choose|j: int| 0 <= j < self.values@.len() && self.values@[j].0 == symbol;
            }
            if let Some(i) = index {
                assert(entries_map(self.values@).contains_key(self.values@[i as int].0));
            }
        }
        index.is_some()
    }

    /// Assigns a [`Value`] to a [`Symbol`].
    pub fn assign(&mut self, symbol: Symbol, value: Value)
        requires
            old(self).wf(),
        ensures
            final(self).wf(),
            final(self)@ == old(self)@.insert(symbol, value),
    {
        proof {
            lemma_entries_map(self.values@);
        }
        match self.position(symbol) {
            Some(i) => {
                proof {
                    lemma_entries_map_update(self.values@, i as int, value);
                }
                self.values.set(i, (symbol, value));
            },
            None => {
                let ghost before = self.values@;
                self.values.push((symbol, value));
                proof {
                    assert(self.values@.drop_last() =~= before);
                }
            },
        }
    }

    /// Returns a reference to a [`Value`] from its [`Symbol`]. The global
    /// variable must be defined.
    pub fn read(&self, symbol: Symbol) -> (value: &Value)
        requires
            self.wf(),
            self@.contains_key(symbol),
        ensures
            *value == self@[symbol],
    {
        proof {
            lemma_entries_map(self.values@);
        }
        let index = self.position(symbol);
        match index {
            Some(i) => {
                proof {
                    assert(entries_map(self.values@).contains_key(self.values@[i as int].0));
                }
                &self.values[i].1
            },
            None => {
                proof {
                    let j = choose|j: int| 0 <= j < self.values@.len() && self.values@[j].0 == symbol;
                }
                &self.values[0].1
            },
        }
    }
}

} // verus!
