use vstd::prelude::*;

use crate::locals::{Data, Local, LocalTable};
use crate::symbols::Symbol;

verus! {

/// A variable's storage kind.
#[derive(Clone, Copy, Debug, PartialEq, Eq, Structural)]
pub enum Variable {
    /// A global variable.
    Global,
    /// A local variable or upvar.
    Local(Local),
}

/// The [`Local`] bound to a symbol in one scope: the most recent binding.
pub open spec fn scope_get(scope: Seq<(Symbol, Local)>, symbol: Symbol) -> Option<Local>
    decreases scope.len(),
{
    if scope.len() == 0 {
        None
    } else if scope.last().0 == symbol {
        Some(scope.last().1)
    } else {
        scope_get(scope.drop_last(), symbol)
    }
}

/// A binding found in a scope is one of the scope's entries.
pub proof fn lemma_scope_get_in(scope: Seq<(Symbol, Local)>, symbol: Symbol)
    ensures
        scope_get(scope, symbol) matches Some(local) ==> exists|k: int|
            0 <= k < scope.len() && scope[k] == (symbol, local),
    decreases scope.len(),
{
    if scope.len() > 0 && scope.last().0 != symbol {
        lemma_scope_get_in(scope.drop_last(), symbol);
        if let Some(local) = scope_get(scope, symbol) {
            let k = choose|k: int| 0 <= k < scope.drop_last().len() && scope.drop_last()[k] == (symbol, local);
            assert(scope[k] == (symbol, local));
        }
    }
}

/// The innermost scope that binds a symbol, and the [`Local`] it binds.
pub open spec fn lookup(scopes: Seq<Seq<(Symbol, Local)>>, symbol: Symbol) -> Option<(int, Local)>
    decreases scopes.len(),
{
    if scopes.len() == 0 {
        None
    } else {
        match scope_get(scopes.last(), symbol) {
            Some(local) => Some(((scopes.len() - 1) as int, local)),
            None => lookup(scopes.drop_last(), symbol),
        }
    }
}

/// The abstract state of a [`ScopeStack`].
pub struct ScopeStackView {
    /// The table of declared local variables.
    pub locals: Seq<Data>,
    /// The current function depth.
    pub function_depth: usize,
    /// The declared global variables.
    pub globals: Seq<Symbol>,
    /// The local scopes, outermost first; each binds symbols to locals.
    pub scopes: Seq<Seq<(Symbol, Local)>>,
    /// The function depth at which each local scope was opened.
    pub scope_depths: Seq<usize>,
}

impl ScopeStackView {
    /// The structure that the stack keeps: one depth per scope, scope depths
    /// never decrease and never exceed the current function depth, and every
    /// bound local exists in the table and was declared at its scope's depth.
    pub open spec fn wf(self) -> bool {
        &&& self.scope_depths.len() == self.scopes.len()
        &&& forall|i: int, j: int|
            0 <= i <= j < self.scope_depths.len() ==> self.scope_depths[i] <= self.scope_depths[j]
        &&& forall|i: int| 0 <= i < self.scope_depths.len() ==> self.scope_depths[i] <= self.function_depth
        &&& forall|i: int, k: int|
            0 <= i < self.scopes.len() && 0 <= k < self.scopes[i].len() ==> {
                let local = (#[trigger] self.scopes[i][k]).1;
                &&& local.0 < self.locals.len()
                &&& self.locals[local.0 as int].function_depth == self.scope_depths[i]
            }
    }

    /// The structure that every stack keeps, whatever was pushed and popped:
    /// one depth per scope, and every bound local exists in the table.
    pub open spec fn consistent(self) -> bool {
        &&& self.scope_depths.len() == self.scopes.len()
        &&& forall|i: int, k: int|
            0 <= i < self.scopes.len() && 0 <= k < self.scopes[i].len() ==> (
            #[trigger] self.scopes[i][k]).1.0 < self.locals.len()
    }

    /// The view after opening a block scope at the current function depth.
    pub open spec fn pushed_block(self) -> ScopeStackView {
        ScopeStackView {
            scopes: self.scopes.push(Seq::empty()),
            scope_depths: self.scope_depths.push(self.function_depth),
            ..self
        }
    }

    /// The view after closing the innermost scope.
    pub open spec fn popped_block(self) -> ScopeStackView {
        ScopeStackView {
            scopes: self.scopes.drop_last(),
            scope_depths: self.scope_depths.drop_last(),
            ..self
        }
    }

    /// Whether the innermost scope is the one opened by the innermost
    /// function: it exists and the scope below it, if any, belongs to an
    /// outer function.
    pub open spec fn innermost_is_function_scope(self) -> bool {
        &&& self.function_depth > 0
        &&& self.scopes.len() > 0
        &&& self.scope_depths.last() == self.function_depth
        &&& self.scopes.len() >= 2 ==> self.scope_depths[self.scopes.len() - 2] < self.function_depth
    }

    /// Whether the innermost scope, if any, was opened by the innermost
    /// function, so that locals declared now belong to that scope's depth.
    pub open spec fn current_scope_at_depth(self) -> bool {
        self.scopes.len() > 0 ==> self.scope_depths.last() == self.function_depth
    }

    /// The result of resolving a symbol.
    pub open spec fn resolve(self, symbol: Symbol) -> Option<Variable> {
        match lookup(self.scopes, symbol) {
            Some((_, local)) => Some(Variable::Local(local)),
            None => if self.globals.contains(symbol) {
                Some(Variable::Global)
            } else {
                None
            },
        }
    }

    /// The table after resolving a symbol: a local accessed from a function
    /// deeper than the one that declared it is marked as an upvar.
    pub open spec fn locals_after_resolve(self, symbol: Symbol) -> Seq<Data> {
        match lookup(self.scopes, symbol) {
            Some((_, local)) => {
                let data = self.locals[local.0 as int];
                if local.0 < self.locals.len() && data.function_depth < self.function_depth {
                    self.locals.update(local.0 as int, Data { is_upvar: true, ..data })
                } else {
                    self.locals
                }
            },
            None => self.locals,
        }
    }
}

impl ScopeStackView {
    /// The view after declaring a symbol in the current scope, and the result
    /// of the declaration: `None` if the current scope already declares it.
    pub open spec fn declared(self, symbol: Symbol) -> (ScopeStackView, Option<Variable>) {
        if self.scopes.len() > 0 {
            if scope_get(self.scopes.last(), symbol) is Some {
                (self, None)
            } else {
                let local = Local(self.locals.len() as usize);
                (
                    ScopeStackView {
                        locals: self.locals.push(
                            Data { function_depth: self.function_depth, is_upvar: false },
                        ),
                        scopes: self.scopes.update(
                            self.scopes.len() - 1,
                            self.scopes.last().push((symbol, local)),
                        ),
                        ..self
                    },
                    Some(Variable::Local(local)),
                )
            }
        } else if self.globals.contains(symbol) {
            (self, None)
        } else {
            (ScopeStackView { globals: self.globals.push(symbol), ..self }, Some(Variable::Global))
        }
    }
}

/// A symbol declared in a local scope resolves to the local it was given:
/// the newest declaration shadows every outer one.
pub proof fn lemma_declare_then_resolve(v: ScopeStackView, symbol: Symbol)
    requires
        v.scopes.len() > 0,
        v.declared(symbol).1 is Some,
    ensures
        v.declared(symbol).0.resolve(symbol) == v.declared(symbol).1,
{
    let w = v.declared(symbol).0;
    assert(w.scopes.last() == v.scopes.last().push((symbol, Local(v.locals.len() as usize))));
}

/// Declaring a symbol twice in the same scope fails the second time and
/// leaves the stack unchanged.
pub proof fn lemma_redeclare_fails(v: ScopeStackView, symbol: Symbol)
    requires
        v.declared(symbol).1 is Some,
    ensures
        v.declared(symbol).0.declared(symbol) == (v.declared(symbol).0, None::<Variable>),
{
    let w = v.declared(symbol).0;
    if v.scopes.len() > 0 {
        assert(w.scopes.last() == v.scopes.last().push((symbol, Local(v.locals.len() as usize))));
    } else {
        assert(w.globals.contains(symbol)) by {
            assert(w.globals[w.globals.len() - 1] == symbol);
        }
    }
}

/// Opening a block scope and closing it again restores the scopes, and a
/// declaration made inside the block is no longer visible afterwards: every
/// symbol resolves as it did before the block.
pub proof fn lemma_block_hides_declaration(v: ScopeStackView, symbol: Symbol, other: Symbol)
    ensures
        v.pushed_block().popped_block() == v,
        v.pushed_block().declared(symbol).0.popped_block().scopes == v.scopes,
        v.pushed_block().declared(symbol).0.popped_block().resolve(other) == v.resolve(other),
{
    assert(v.pushed_block().scopes.drop_last() =~= v.scopes);
    assert(v.pushed_block().scope_depths.drop_last() =~= v.scope_depths);
    let w = v.pushed_block().declared(symbol).0;
    assert(w.scopes.drop_last() =~= v.scopes);
    assert(w.scope_depths.drop_last() =~= v.scope_depths);
}

/// A local that a symbol resolves to was declared at a function depth no
/// deeper than the current one.
pub proof fn lemma_resolved_depth(v: ScopeStackView, symbol: Symbol)
    requires
        v.wf(),
        lookup(v.scopes, symbol) is Some,
    ensures
        ({
            let local = (lookup(v.scopes, symbol)->0).1;
            &&& local.0 < v.locals.len()
            &&& v.locals[local.0 as int].function_depth <= v.function_depth
        }),
    decreases v.scopes.len(),
{
    let n = v.scopes.len();
    lemma_scope_get_in(v.scopes.last(), symbol);
    if scope_get(v.scopes.last(), symbol) is Some {
        let local = scope_get(v.scopes.last(), symbol)->0;
        let k = choose|k: int| 0 <= k < v.scopes.last().len() && v.scopes.last()[k] == (symbol, local);
        assert(v.scopes[n - 1][k] == (symbol, local));
    } else {
        let u = ScopeStackView { scopes: v.scopes.drop_last(), scope_depths: v.scope_depths.drop_last(), ..v };
        assert forall|i: int, k: int| 0 <= i < u.scopes.len() && 0 <= k < u.scopes[i].len() implies {
            let local = (#[trigger] u.scopes[i][k]).1;
            &&& local.0 < u.locals.len()
            &&& u.locals[local.0 as int].function_depth == u.scope_depths[i]
        } by {
            assert(u.scopes[i][k] == v.scopes[i][k]);
        }
        lemma_resolved_depth(u, symbol);
    }
}

/// `later` is the table `locals` grew into: it keeps every local at its
/// depth, and every upvar an upvar.
pub open spec fn table_extends(locals: Seq<Data>, later: Seq<Data>) -> bool {
    &&& locals.len() <= later.len()
    &&& forall|i: int|
        #![trigger later[i]]
        #![trigger locals[i]]
        0 <= i < locals.len() ==> later[i].function_depth == locals[i].function_depth && (
        locals[i].is_upvar ==> later[i].is_upvar)
}

/// Growing a table is transitive.
pub proof fn lemma_table_extends_trans(a: Seq<Data>, b: Seq<Data>, c: Seq<Data>)
    requires
        table_extends(a, b),
        table_extends(b, c),
    ensures
        table_extends(a, c),
{
    assert forall|i: int| 0 <= i < a.len() implies #[trigger] c[i].function_depth
        == a[i].function_depth && (a[i].is_upvar ==> c[i].is_upvar) by {
        assert(b[i].function_depth == a[i].function_depth);
    }
}

/// A table grows into itself.
pub proof fn lemma_table_extends_refl(a: Seq<Data>)
    ensures
        table_extends(a, a),
{
}

/// The scope that a symbol is found in holds the binding found.
pub proof fn lemma_lookup_in(scopes: Seq<Seq<(Symbol, Local)>>, symbol: Symbol)
    ensures
        lookup(scopes, symbol) matches Some((i, local)) ==> 0 <= i < scopes.len() && exists|k: int|
            0 <= k < scopes[i].len() && #[trigger] scopes[i][k] == (symbol, local),
    decreases scopes.len(),
{
    if scopes.len() > 0 {
        lemma_scope_get_in(scopes.last(), symbol);
        if scope_get(scopes.last(), symbol) is None {
            lemma_lookup_in(scopes.drop_last(), symbol);
            if let Some((i, local)) = lookup(scopes, symbol) {
                let k = choose|k: int|
                    0 <= k < scopes.drop_last()[i].len() && #[trigger] scopes.drop_last()[i][k]
                        == (symbol, local);
                assert(scopes[i][k] == (symbol, local));
            }
        }
    }
}

/// Resolving a symbol keeps the stack consistent and only marks upvars.
pub proof fn lemma_resolve_wf(v: ScopeStackView, symbol: Symbol)
    requires
        v.wf(),
    ensures
        (ScopeStackView { locals: v.locals_after_resolve(symbol), ..v }).wf(),
        table_extends(v.locals, v.locals_after_resolve(symbol)),
{
    lemma_lookup_in(v.scopes, symbol);
    let w = ScopeStackView { locals: v.locals_after_resolve(symbol), ..v };
    if let Some((i, local)) = lookup(v.scopes, symbol) {
        let k = choose|k: int| 0 <= k < v.scopes[i].len() && #[trigger] v.scopes[i][k] == (symbol, local);
        assert(v.scopes[i][k].1 == local);
        assert(local.0 < v.locals.len());
        assert forall|a: int, b: int| 0 <= a < w.scopes.len() && 0 <= b < w.scopes[a].len() implies {
            let l = (#[trigger] w.scopes[a][b]).1;
            &&& l.0 < w.locals.len()
            &&& w.locals[l.0 as int].function_depth == w.scope_depths[a]
        } by {
            assert(w.scopes[a][b] == v.scopes[a][b]);
        }
    }
}

/// Declaring a symbol keeps the stack consistent and its shape, and either
/// adds a binding to a new local at the top of the innermost scope, adds a
/// global, or changes nothing.
pub proof fn lemma_declared_wf(v: ScopeStackView, symbol: Symbol)
    requires
        v.wf(),
        v.current_scope_at_depth(),
        v.scopes.len() > 0 ==> v.locals.len() < usize::MAX,
    ensures
        ({
            let (w, variable) = v.declared(symbol);
            &&& w.wf()
            &&& w.current_scope_at_depth()
            &&& w.function_depth == v.function_depth
            &&& w.scope_depths == v.scope_depths
            &&& w.scopes.len() == v.scopes.len()
            &&& table_extends(v.locals, w.locals)
            &&& match variable {
                None => w == v,
                Some(Variable::Global) => v.scopes.len() == 0 && w.scopes == v.scopes,
                Some(Variable::Local(local)) => {
                    &&& v.scopes.len() > 0
                    &&& local.0 == v.locals.len()
                    &&& w.locals == v.locals.push(
                        Data { function_depth: v.function_depth, is_upvar: false },
                    )
                    &&& w.scopes == v.scopes.update(
                        v.scopes.len() - 1,
                        v.scopes.last().push((symbol, local)),
                    )
                },
            }
        }),
{
    let (w, variable) = v.declared(symbol);
    if v.scopes.len() > 0 && variable is Some {
        let n = v.scopes.len();
        assert forall|i: int, k: int| 0 <= i < w.scopes.len() && 0 <= k < w.scopes[i].len() implies {
            let l = (#[trigger] w.scopes[i][k]).1;
            &&& l.0 < w.locals.len()
            &&& w.locals[l.0 as int].function_depth == w.scope_depths[i]
        } by {
            if i == n - 1 && k == v.scopes[i].len() {
            } else {
                assert(w.scopes[i][k] == v.scopes[i][k]);
            }
        }
    }
}

/// A stack of variable scopes.
pub struct ScopeStack {
    /// The [`LocalTable`].
    locals: LocalTable,
    /// The current function depth.
    function_depth: usize,
    /// The set of declared global variable [`Symbol`]s.
    global_symbols: Vec<Symbol>,
    /// The stack of local scopes binding [`Symbol`]s to [`Local`]s.
    local_scopes: Vec<Vec<(Symbol, Local)>>,
    /// The function depth at which each local scope was opened.
    scope_depths: Ghost<Seq<usize>>,
}

impl View for ScopeStack {
    type V = ScopeStackView;

    closed spec fn view(&self) -> ScopeStackView {
        ScopeStackView {
            locals: self.locals@,
            function_depth: self.function_depth,
            globals: self.global_symbols@,
            scopes: self.local_scopes@.map_values(|scope: Vec<(Symbol, Local)>| scope@),
            scope_depths: self.scope_depths@,
        }
    }
}

impl ScopeStack {
    /// Creates a new `ScopeStack` from a [`LocalTable`].
    pub fn new(locals: LocalTable) -> (stack: Self)
        ensures
            stack@.wf(),
            stack@ == (ScopeStackView {
                locals: locals@,
                function_depth: 0,
                globals: Seq::empty(),
                scopes: Seq::empty(),
                scope_depths: Seq::empty(),
            }),
    {
        let stack = ScopeStack {
            locals,
            function_depth: 0,
            global_symbols: Vec::new(),
            local_scopes: Vec::new(),
            scope_depths: Ghost(Seq::empty()),
        };
        proof {
            assert(stack@.scopes =~= Seq::<Seq<(Symbol, Local)>>::empty());
        }
        stack
    }

    /// Consumes the `ScopeStack` and returns its [`LocalTable`].
    pub fn into_locals(self) -> (locals: LocalTable)
        ensures
            locals@ == self@.locals,
    {
        self.locals
    }

    /// Returns `true` if the current scope is the global scope.
    pub fn is_global_scope(&self) -> (is_global: bool)
        ensures
            is_global == (self@.scopes.len() == 0),
    {
        self.local_scopes.len() == 0
    }

    /// Returns a [`Variable`] from its [`Symbol`]: the local bound in the
    /// innermost scope that binds it, else the global. This function returns
    /// `None` if the [`Symbol`] is not declared in any accessible scope. A
    /// local accessed from a function deeper than the one that declared it is
    /// marked as an upvar.
    #[verifier::loop_isolation(false)]
    pub fn variable(&mut self, symbol: Symbol) -> (variable: Option<Variable>)
        requires
            old(self)@.consistent(),
        ensures
            final(self)@.consistent(),
            old(self)@.wf() ==> final(self)@.wf(),
            variable == old(self)@.resolve(symbol),
            final(self)@ == (ScopeStackView {
                locals: old(self)@.locals_after_resolve(symbol),
                ..old(self)@
            }),
    {
        let ghost scopes = self@.scopes;
        let mut i = self.local_scopes.len();
        assert(scopes.take(i as int) =~= scopes);
        while i > 0
            invariant
                i <= self.local_scopes.len(),
                self@ == old(self)@,
                scopes == self@.scopes,
                lookup(scopes, symbol) == lookup(scopes.take(i as int), symbol),
            decreases i,
        {
            i = i - 1;
            let ghost prefix = scopes.take(i as int + 1);
            assert(prefix.drop_last() =~= scopes.take(i as int));
            assert(prefix.last() == self.local_scopes@[i as int]@);
            let found = Self::scope_find(&self.local_scopes[i], symbol);
            if let Some(local) = found {
                proof {
                    self.lemma_local_in_table(i as int, symbol);
                }
                proof {
                    assert(scopes.take(i as int + 1).last() == scopes[i as int]);
                    assert(lookup(scopes, symbol) == Some((i as int, local)));
                }
                let function_depth = self.function_depth;
                let local_data = self.locals.data_mut(local);
                if local_data.function_depth < function_depth {
                    local_data.is_upvar = true;
                }
                proof {
                    let data = old(self)@.locals[local.0 as int];
                    if data.function_depth < function_depth {
                        assert(self@.locals =~= old(self)@.locals.update(local.0 as int, Data { is_upvar: true, ..data }));
                    } else {
                        assert(self@.locals =~= old(self)@.locals);
                    }
                    assert(self@.scopes =~= old(self)@.scopes);
                    if old(self)@.wf() {
                        lemma_resolve_wf(old(self)@, symbol);
                    }
                }
                return Some(Variable::Local(local));
            }
        }
        assert(scopes.take(0) =~= Seq::<Seq<(Symbol, Local)>>::empty());
        let mut j: usize = 0;
        while j < self.global_symbols.len()
            invariant
                j <= self.global_symbols.len(),
                forall|k: int| 0 <= k < j ==> self.global_symbols@[k] != symbol,
            decreases self.global_symbols.len() - j,
        {
            if self.global_symbols[j] == symbol {
                return Some(Variable::Global);
            }
            j = j + 1;
        }
        proof {
            if self@.globals.contains(symbol) {
                let k = choose|k: int| 0 <= k < self@.globals.len() && self@.globals[k] == symbol;
                assert(self.global_symbols@[k] != symbol);
            }
        }
        None
    }

    /// A local found in a scope exists in the table.
    proof fn lemma_local_in_table(&self, i: int, symbol: Symbol)
        requires
            self@.consistent(),
            0 <= i < self@.scopes.len(),
            scope_get(self@.scopes[i], symbol) is Some,
        ensures
            (scope_get(self@.scopes[i], symbol)->0).0 < self@.locals.len(),
    {
        lemma_scope_get_in(self@.scopes[i], symbol);
        let k = choose|k: int| 0 <= k < self@.scopes[i].len() && self@.scopes[i][k] == (symbol, scope_get(self@.scopes[i], symbol)->0);
        assert((self@.scopes[i][k].1).0 < self@.locals.len());
    }

    /// Finds the most recent binding of a symbol in one scope.
    #[verifier::loop_isolation(false)]
    fn scope_find(scope: &Vec<(Symbol, Local)>, symbol: Symbol) -> (local: Option<Local>)
        ensures
            local == scope_get(scope@, symbol),
    {
        let mut k = scope.len();
        assert(scope@.take(k as int) =~= scope@);
        while k > 0
            invariant
                k <= scope.len(),
                scope_get(scope@, symbol) == scope_get(scope@.take(k as int), symbol),
            decreases k,
        {
            k = k - 1;
            let ghost prefix = scope@.take(k as int + 1);
            assert(prefix.drop_last() =~= scope@.take(k as int));
            let (bound, local) = scope[k];
            if bound == symbol {
                return Some(local);
            }
        }
        assert(scope@.take(0) =~= Seq::<(Symbol, Local)>::empty());
        None
    }

    /// Pushes a new function scope to the `ScopeStack`.
    pub fn push_function_scope(&mut self)
        requires
            old(self)@.consistent(),
            old(self)@.function_depth < usize::MAX,
        ensures
            final(self)@.consistent(),
            old(self)@.wf() ==> final(self)@.wf(),
            final(self)@ == (ScopeStackView {
                function_depth: (old(self)@.function_depth + 1) as usize,
                ..old(self)@
            }).pushed_block(),
    {
        self.function_depth = self.function_depth + 1;
        self.push_block_scope();
    }

    /// Pops the current function scope from the `ScopeStack`.
    pub fn pop_function_scope(&mut self)
        requires
            old(self)@.consistent(),
            old(self)@.function_depth > 0,
            old(self)@.scopes.len() > 0,
        ensures
            final(self)@.consistent(),
            old(self)@.wf() && old(self)@.innermost_is_function_scope() ==> final(self)@.wf(),
            final(self)@ == (ScopeStackView {
                function_depth: (old(self)@.function_depth - 1) as usize,
                ..old(self)@.popped_block()
            }),
    {
        self.pop_block_scope();
        self.function_depth = self.function_depth - 1;
    }

    /// Pushes a new function parameter scope to the `ScopeStack`.
    pub fn push_param_scope(&mut self)
        requires
            old(self)@.consistent(),
            old(self)@.function_depth > 0,
        ensures
            final(self)@.consistent(),
            old(self)@.wf() ==> final(self)@.wf(),
            final(self)@ == old(self)@.pushed_block(),
    {
        self.push_block_scope();
    }

    /// Pops the current function parameter scope from the `ScopeStack`.
    pub fn pop_param_scope(&mut self)
        requires
            old(self)@.consistent(),
            old(self)@.function_depth > 0,
            old(self)@.scopes.len() > 0,
        ensures
            final(self)@.consistent(),
            old(self)@.wf() ==> final(self)@.wf(),
            final(self)@ == old(self)@.popped_block(),
    {
        self.pop_block_scope();
    }

    /// Pushes a new block scope to the `ScopeStack`.
    pub fn push_block_scope(&mut self)
        requires
            old(self)@.consistent(),
        ensures
            final(self)@.consistent(),
            old(self)@.wf() ==> final(self)@.wf(),
            final(self)@ == old(self)@.pushed_block(),
    {
        self.local_scopes.push(Vec::new());
        proof {
            self.scope_depths@ = self.scope_depths@.push(self.function_depth);
            assert(self@.scopes =~= old(self)@.scopes.push(Seq::empty()));
            assert forall|i: int, k: int|
                0 <= i < self@.scopes.len() && 0 <= k < self@.scopes[i].len() implies (
                #[trigger] self@.scopes[i][k]).1.0 < self@.locals.len() by {
                assert(self@.scopes[i][k] == old(self)@.scopes[i][k]);
            }
        }
    }

    /// Pops the current block scope from the `ScopeStack`.
    pub fn pop_block_scope(&mut self)
        requires
            old(self)@.consistent(),
            old(self)@.scopes.len() > 0,
        ensures
            final(self)@.consistent(),
            old(self)@.wf() ==> final(self)@.wf(),
            final(self)@ == old(self)@.popped_block(),
    {
        let new_len = self.local_scopes.len() - 1;
        self.local_scopes.truncate(new_len);
        proof {
            self.scope_depths@ = self.scope_depths@.drop_last();
            assert(self@.scopes =~= old(self)@.scopes.drop_last());
            assert forall|i: int, k: int|
                0 <= i < self@.scopes.len() && 0 <= k < self@.scopes[i].len() implies (
                #[trigger] self@.scopes[i][k]).1.0 < self@.locals.len() by {
                assert(self@.scopes[i][k] == old(self)@.scopes[i][k]);
            }
        }
    }

    /// Declares a new [`Variable`] in the current scope from its [`Symbol`].
    /// This function returns `None` if the [`Symbol`] is already declared in
    /// the current scope.
    #[verifier::loop_isolation(false)]
    pub fn declare_variable(&mut self, symbol: Symbol) -> (variable: Option<Variable>)
        requires
            old(self)@.consistent(),
        ensures
            final(self)@.consistent(),
            old(self)@.wf() && old(self)@.current_scope_at_depth() ==> final(self)@.wf(),
            (final(self)@, variable) == old(self)@.declared(symbol),
    {
        let n = self.local_scopes.len();
        if n > 0 {
            if Self::scope_find(&self.local_scopes[n - 1], symbol).is_some() {
                return None;
            }
            let local = self.locals.declare_local(self.function_depth);
            let mut scope = self.local_scopes.pop().unwrap();
            scope.push((symbol, local));
            self.local_scopes.push(scope);
            proof {
                assert(self@.scopes =~= old(self)@.scopes.update(
                    n - 1,
                    old(self)@.scopes.last().push((symbol, local)),
                ));
                assert forall|i: int, k: int|
                    0 <= i < self@.scopes.len() && 0 <= k < self@.scopes[i].len() implies (
                    #[trigger] self@.scopes[i][k]).1.0 < self@.locals.len() by {
                    if i == n - 1 && k == old(self)@.scopes[i].len() {
                    } else {
                        assert(self@.scopes[i][k] == old(self)@.scopes[i][k]);
                    }
                }
                if old(self)@.wf() && old(self)@.current_scope_at_depth() {
                    assert forall|i: int, k: int|
                        0 <= i < self@.scopes.len() && 0 <= k < self@.scopes[i].len() implies {
                            let l = (#[trigger] self@.scopes[i][k]).1;
                            &&& l.0 < self@.locals.len()
                            &&& self@.locals[l.0 as int].function_depth == self@.scope_depths[i]
                        } by {
                        if i == n - 1 && k == old(self)@.scopes[i].len() {
                        } else {
                            assert(self@.scopes[i][k] == old(self)@.scopes[i][k]);
                        }
                    }
                }
            }
            Some(Variable::Local(local))
        } else {
            let mut j: usize = 0;
            while j < self.global_symbols.len()
                invariant
                    j <= self.global_symbols.len(),
                    forall|k: int| 0 <= k < j ==> self.global_symbols@[k] != symbol,
                decreases self.global_symbols.len() - j,
            {
                if self.global_symbols[j] == symbol {
                    return None;
                }
                j = j + 1;
            }
            proof {
                if self@.globals.contains(symbol) {
                    let k = choose|k: int| 0 <= k < self@.globals.len() && self@.globals[k] == symbol;
                    assert(self.global_symbols@[k] != symbol);
                }
            }
            self.global_symbols.push(symbol);
            Some(Variable::Global)
        }
    }

    /// Returns the current function depth.
    pub fn function_depth(&self) -> (depth: usize)
        ensures
            depth == self@.function_depth,
    {
        self.function_depth
    }
}

} // verus!
