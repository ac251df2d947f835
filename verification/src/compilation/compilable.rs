//! Every program that lowers without an error can be compiled: lowering
//! and code generation agree on where each local in scope is kept, so code
//! generation never meets a local that is not where it looks for it.

use vstd::prelude::*;

use crate::ast::{BinOp, Expr, Literal, LogicOp};
use crate::cfg::{Label, Terminator};
use crate::compilation::codegen::semantics::{
    finish_block_expr, finish_block_stmt, function_entry, gen_args, gen_expr, gen_params,
    gen_program, gen_stmt, gen_stmts, initial_state, insert_block, lemma_scope_closes, pushed_scopes,
    pushed_temp, set_terminator, with_label, GenState,
};
use crate::compilation::codegen::shape::{
    lemma_expr_shape, lemma_params_shape, lemma_stmts_shape, };
use crate::compilation::ir::{ExprView, StmtView};
use crate::compilation::lowering::errors::ExprArea;
use crate::compilation::lowering::monotone::{
    lemma_expr_progress, lemma_params_extends, lemma_stmt_progress, lemma_args_progress, progressed,
};
use crate::compilation::lowering::nodes::NodeView;
use crate::compilation::lowering::semantics::{
    declare_assigned, declare_globals, declare_params, initial_scopes, logic_view, lower_args,
    lower_block, lower_expr, lower_function, lower_ident, lower_node, lower_seq, lower_stmt, nesting, popped_function, pushed_function, seq_nesting, with_scopes, LowerState,
};
use crate::compilation::lowering::{lemma_seq_nesting_elem, ready};
use crate::compile::stack::Elem;
use crate::locals::{Data, Local};
use crate::lower::scopes::{
    lemma_declared_wf, lemma_lookup_in, lemma_resolve_wf, lemma_table_extends_trans, lookup,
    table_extends, ScopeStackView, Variable,
};
use crate::symbols::Symbol;

verus! {

/// Code generation keeps a local bound in a scope opened at `scope_depth`
/// where it will look for it: an upvar on the upvar stack, a local of the
/// function being compiled in its stack frame.
pub open spec fn kept(
    g: GenState,
    table: Seq<Data>,
    scope_depth: usize,
    function_depth: usize,
    local: Local,
) -> bool {
    &&& local.0 < table.len()
    &&& if table[local.0 as int].is_upvar {
        g.upvars.elems.contains(local)
    } else {
        scope_depth == function_depth ==> g.function.frame.elems.contains(Elem::Local(local))
    }
}

/// Lowering (at `v`) and code generation (at `g`) agree, given the final
/// table of locals: the scopes are consistent, code generation has not
/// failed, both are in the same function, and every local in scope is kept.
pub open spec fn agree(v: ScopeStackView, g: GenState, table: Seq<Data>) -> bool {
    &&& v.wf()
    &&& v.current_scope_at_depth()
    &&& g.ok
    &&& g.function_depth == v.function_depth
    &&& forall|i: int, k: int|
        0 <= i < v.scopes.len() && 0 <= k < v.scopes[i].len() ==> kept(
            g,
            table,
            v.scope_depths[i],
            v.function_depth,
            #[trigger] v.scopes[i][k].1,
        )
}

/// `after` holds what `before` held, in the same function.
pub open spec fn grows(before: GenState, after: GenState) -> bool {
    &&& after.ok
    &&& after.function_depth == before.function_depth
    &&& before.function.frame.elems.len() <= after.function.frame.elems.len()
    &&& after.function.frame.elems.take(before.function.frame.elems.len() as int)
        == before.function.frame.elems
    &&& before.upvars.elems.len() <= after.upvars.elems.len()
    &&& after.upvars.elems.take(before.upvars.elems.len() as int) == before.upvars.elems
}

/// An element of a prefix is an element of the whole.
pub proof fn lemma_contains_prefix<T>(s: Seq<T>, t: Seq<T>, x: T)
    requires
        s.len() <= t.len(),
        t.take(s.len() as int) == s,
        s.contains(x),
    ensures
        t.contains(x),
{
    let k = choose|k: int| 0 <= k < s.len() && s[k] == x;
    assert(t.take(s.len() as int)[k] == x);
}

/// Agreement survives code generation that only pushes.
pub proof fn lemma_agree_grows(v: ScopeStackView, g: GenState, g1: GenState, table: Seq<Data>)
    requires
        agree(v, g, table),
        grows(g, g1),
    ensures
        agree(v, g1, table),
{
    assert forall|i: int, k: int| 0 <= i < v.scopes.len() && 0 <= k < v.scopes[i].len() implies kept(
        g1,
        table,
        v.scope_depths[i],
        v.function_depth,
        #[trigger] v.scopes[i][k].1,
    ) by {
        let local = v.scopes[i][k].1;
        assert(kept(g, table, v.scope_depths[i], v.function_depth, local));
        if table[local.0 as int].is_upvar {
            lemma_contains_prefix(g.upvars.elems, g1.upvars.elems, local);
        } else if v.scope_depths[i] == v.function_depth {
            lemma_contains_prefix(g.function.frame.elems, g1.function.frame.elems, Elem::Local(local));
        }
    }
}

/// Agreement carries over to equal scopes and equal stacks.
pub proof fn lemma_agree_same(
    v: ScopeStackView,
    g: GenState,
    v1: ScopeStackView,
    g1: GenState,
    table: Seq<Data>,
)
    requires
        agree(v, g, table),
        v1.wf(),
        v1.current_scope_at_depth(),
        v1.scopes == v.scopes,
        v1.scope_depths == v.scope_depths,
        v1.function_depth == v.function_depth,
        g1.ok,
        g1.function_depth == g.function_depth,
        g1.function.frame == g.function.frame,
        g1.upvars == g.upvars,
    ensures
        agree(v1, g1, table),
{
    assert forall|i: int, k: int| 0 <= i < v1.scopes.len() && 0 <= k < v1.scopes[i].len() implies kept(
        g1,
        table,
        v1.scope_depths[i],
        v1.function_depth,
        #[trigger] v1.scopes[i][k].1,
    ) by {
        assert(kept(g, table, v.scope_depths[i], v.function_depth, v.scopes[i][k].1));
    }
}

/// A state grows into itself after the frame grows.
pub proof fn lemma_grows_refl(g: GenState)
    requires
        g.ok,
    ensures
        grows(g, g),
{
    assert(g.function.frame.elems.take(g.function.frame.elems.len() as int) =~= g.function.frame.elems);
    assert(g.upvars.elems.take(g.upvars.elems.len() as int) =~= g.upvars.elems);
}

/// The locals of a consistent table that a final table grew from are in the
/// final table at the depth of their scope.
pub proof fn lemma_entry_in_table(v: ScopeStackView, table: Seq<Data>, i: int, k: int)
    requires
        v.wf(),
        table_extends(v.locals, table),
        0 <= i < v.scopes.len(),
        0 <= k < v.scopes[i].len(),
    ensures
        v.scopes[i][k].1.0 < table.len(),
        table[v.scopes[i][k].1.0 as int].function_depth == v.scope_depths[i],
{
    let local = v.scopes[i][k].1;
    assert(local.0 < v.locals.len());
    assert(table[local.0 as int].function_depth == v.locals[local.0 as int].function_depth);
}

/// Declaring parameters adds one binding per parameter to the innermost
/// scope, in order, and keeps the stack consistent.
pub proof fn lemma_declare_params_shape(v: ScopeStackView, params: Seq<Expr>)
    requires
        v.wf(),
        v.current_scope_at_depth(),
        v.scopes.len() > 0,
        declare_params(v, params) matches Ok((w, _)) ==> w.locals.len() <= usize::MAX,
    ensures
        declare_params(v, params) matches Ok((w, locals)) ==> {
            &&& w.wf()
            &&& w.current_scope_at_depth()
            &&& w.function_depth == v.function_depth
            &&& w.scope_depths == v.scope_depths
            &&& w.scopes.len() == v.scopes.len()
            &&& w.scopes.drop_last() == v.scopes.drop_last()
            &&& locals.len() == params.len()
            &&& w.scopes.last().len() == v.scopes.last().len() + locals.len()
            &&& w.scopes.last().take(v.scopes.last().len() as int) == v.scopes.last()
            &&& forall|j: int|
                0 <= j < locals.len() ==> #[trigger] w.scopes.last()[v.scopes.last().len() + j].1
                    == locals[j]
        },
    decreases params.len(),
{
    if params.len() == 0 {
        assert(v.scopes.last().take(v.scopes.last().len() as int) =~= v.scopes.last());
    } else {
        let prefix = declare_params(v, params.drop_last());
        if let Ok((w0, locals0)) = prefix {
            if let Expr::Ident(symbol) = params.last() {
                let (w, variable) = w0.declared(symbol);
                if let Some(Variable::Local(local)) = variable {
                    assert(w.locals.len() == w0.locals.len() + 1);
                    lemma_declare_params_shape(v, params.drop_last());
                    lemma_declared_wf(w0, symbol);
                    let n = v.scopes.last().len();
                    let last0 = w0.scopes.last();
                    assert(w.scopes.last() == last0.push((symbol, local)));
                    assert(w.scopes.drop_last() =~= w0.scopes.drop_last());
                    assert(w.scopes.last().take(n as int) =~= last0.take(n as int));
                    let locals = locals0.push(local);
                    assert forall|j: int| 0 <= j < locals.len() implies #[trigger] w.scopes.last()[n + j].1
                        == locals[j] by {
                        if j < locals0.len() {
                            assert(w.scopes.last()[n + j] == last0[n + j]);
                        }
                    }
                }
            }
        }
    }
}

/// Declaring parameters in code generation keeps each parameter where it
/// will be looked for, and only pushes.
pub proof fn lemma_params_kept(table: Seq<Data>, g: GenState, locals: Seq<Local>, depth: usize)
    requires
        g.ok,
        forall|j: int| 0 <= j < locals.len() ==> (#[trigger] locals[j]).0 < table.len(),
    ensures
        grows(g, gen_params(table, g, locals)),
        forall|j: int|
            0 <= j < locals.len() ==> kept(gen_params(table, g, locals), table, depth, depth, #[trigger] locals[j]),
    decreases locals.len(),
{
    if locals.len() == 0 {
        lemma_grows_refl(g);
    } else {
        let g0 = gen_params(table, g, locals.drop_last());
        lemma_params_kept(table, g, locals.drop_last(), depth);
        let g1 = gen_params(table, g, locals);
        let local = locals.last();
        assert(local == locals[locals.len() - 1]);
        let f0 = g0.function.frame.elems;
        let u0 = g0.upvars.elems;
        assert(g1.function.frame.elems.take(f0.len() as int) =~= f0);
        assert(g1.upvars.elems.take(u0.len() as int) =~= u0);
        assert(g1.function.frame.elems.take(g.function.frame.elems.len() as int)
            =~= f0.take(g.function.frame.elems.len() as int));
        assert(g1.upvars.elems.take(g.upvars.elems.len() as int) =~= u0.take(
            g.upvars.elems.len() as int,
        ));
        assert forall|j: int| 0 <= j < locals.len() implies kept(g1, table, depth, depth, #[trigger] locals[j]) by {
            if j < locals.len() - 1 {
                assert(locals[j] == locals.drop_last()[j]);
                let l = locals[j];
                assert(kept(g0, table, depth, depth, l));
                if table[l.0 as int].is_upvar {
                    lemma_contains_prefix(u0, g1.upvars.elems, l);
                } else {
                    lemma_contains_prefix(f0, g1.function.frame.elems, Elem::Local(l));
                }
            } else {
                if table[local.0 as int].is_upvar {
                    assert(g1.upvars.elems.last() == local);
                } else {
                    assert(g1.function.frame.elems.last() == Elem::Local(local));
                }
            }
        }
    }
}

/// The initial scopes are consistent and hold no local scope.
pub proof fn lemma_initial_scopes(locals: Seq<Data>, symbols: Seq<Symbol>)
    ensures
        initial_scopes(locals, symbols).wf(),
        initial_scopes(locals, symbols).scopes.len() == 0,
        initial_scopes(locals, symbols).scope_depths.len() == 0,
        initial_scopes(locals, symbols).function_depth == 0,
    decreases symbols.len(),
{
    lemma_globals_scopes(
        ScopeStackView {
            locals,
            function_depth: 0,
            globals: Seq::empty(),
            scopes: Seq::empty(),
            scope_depths: Seq::empty(),
        },
        symbols,
    );
}

/// Declaring globals keeps a stack without local scopes consistent.
pub proof fn lemma_globals_scopes(v: ScopeStackView, symbols: Seq<Symbol>)
    requires
        v.wf(),
        v.scopes.len() == 0,
        v.scope_depths.len() == 0,
    ensures
        declare_globals(v, symbols).wf(),
        declare_globals(v, symbols).scopes.len() == 0,
        declare_globals(v, symbols).scope_depths.len() == 0,
        declare_globals(v, symbols).function_depth == v.function_depth,
    decreases symbols.len(),
{
    if symbols.len() > 0 {
        lemma_globals_scopes(v, symbols.drop_last());
    }
}

/// The common requirements of the simulation lemmas: `st` lowers `nest`
/// levels of functions at most, agrees with `g`, and lowering from `st` to
/// `out` reports no error and ends in a table that the final table grew
/// from.
pub open spec fn sim_ready(
    st: LowerState,
    nest: nat,
    g: GenState,
    table: Seq<Data>,
    out: LowerState,
) -> bool {
    &&& ready(st.scopes, nest)
    &&& agree(st.scopes, g, table)
    &&& table.len() <= usize::MAX
    &&& out.error is None
    &&& table_extends(out.scopes.locals, table)
}

/// The final table grew from the table of a state that the end state
/// progressed from, and that state reported no error.
pub proof fn lemma_sim_step(mid: LowerState, out: LowerState, table: Seq<Data>)
    requires
        progressed(mid, out),
        out.error is None,
        table_extends(out.scopes.locals, table),
    ensures
        mid.error is None,
        table_extends(mid.scopes.locals, table),
{
    lemma_table_extends_trans(mid.scopes.locals, out.scopes.locals, table);
}

/// A lowered identifier compiles, and lowering and code generation still
/// agree.
pub proof fn lemma_sim_ident(st: LowerState, g: GenState, symbol: Symbol, table: Seq<Data>)
    requires
        sim_ready(st, 0, g, table, lower_ident(st, symbol).0),
    ensures
        ({
            let (st1, x) = lower_ident(st, symbol);
            let g1 = gen_expr(table, g, x);
            &&& agree(st1.scopes, g1, table)
            &&& st1.scopes.scopes == st.scopes.scopes
            &&& st1.scopes.scope_depths == st.scopes.scope_depths
            &&& st1.scopes.function_depth == st.scopes.function_depth
        }),
{
    let v = st.scopes;
    let (st1, x) = lower_ident(st, symbol);
    lemma_resolve_wf(v, symbol);
    lemma_lookup_in(v.scopes, symbol);
    match lookup(v.scopes, symbol) {
        Some((i, local)) => {
            let k = choose|k: int| 0 <= k < v.scopes[i].len() && #[trigger] v.scopes[i][k] == (symbol, local);
            assert(v.scopes[i][k].1 == local);
            assert(kept(g, table, v.scope_depths[i], v.function_depth, local));
            lemma_table_extends_trans(v.locals, v.locals_after_resolve(symbol), table);
            lemma_entry_in_table(v, table, i, k);
            let data = v.locals[local.0 as int];
            if !table[local.0 as int].is_upvar {
                if data.function_depth < v.function_depth {
                    assert(v.locals_after_resolve(symbol)[local.0 as int].is_upvar);
                }
            }
            let g1 = gen_expr(table, g, x);
            lemma_expr_shape(table, g, x);
            lemma_agree_same(v, g, st1.scopes, g1, table);
        },
        None => {
            if v.globals.contains(symbol) {
                lemma_expr_shape(table, g, x);
                lemma_agree_same(v, g, st1.scopes, gen_expr(table, g, x), table);
            }
        },
    }
}

/// Lowered call arguments compile, and lowering and code generation still
/// agree.
pub proof fn lemma_sim_args(st: LowerState, g: GenState, args: Seq<Expr>, table: Seq<Data>)
    requires
        sim_ready(st, seq_nesting(args), g, table, lower_args(st, args).0),
    ensures
        ({
            let (st1, xs) = lower_args(st, args);
            let g1 = gen_args(table, g, xs);
            &&& agree(st1.scopes, g1, table)
            &&& st1.scopes.scopes == st.scopes.scopes
            &&& st1.scopes.scope_depths == st.scopes.scope_depths
            &&& st1.scopes.function_depth == st.scopes.function_depth
            &&& xs.len() == args.len()
        }),
    decreases args, 3int,
{
    if args.len() > 0 {
        let (st0, xs0) = lower_args(st, args.drop_last());
        let (st1, x) = lower_expr(st0, args.last(), ExprArea::Arg);
        lemma_expr_progress(st0, args.last(), ExprArea::Arg);
        lemma_sim_step(st0, st1, table);
        assert forall|i: int| 0 <= i < args.drop_last().len() implies nesting(#[trigger] args.drop_last()[i])
            <= seq_nesting(args) by {
            lemma_seq_nesting_elem(args, i);
        }
        lemma_seq_nesting_le(args.drop_last(), seq_nesting(args));
        lemma_sim_args(st, g, args.drop_last(), table);
        let g0 = gen_args(table, g, xs0);
        lemma_seq_nesting_elem(args, args.len() - 1);
        lemma_sim_expr(st0, g0, args.last(), ExprArea::Arg, table);
        let g1 = gen_expr(table, g0, x);
        lemma_expr_shape(table, g0, x);
        let g2 = pushed_temp(g1);
        assert(g2.function.frame.elems.take(g1.function.frame.elems.len() as int)
            =~= g1.function.frame.elems);
        assert(g2.upvars.elems.take(g1.upvars.elems.len() as int) =~= g1.upvars.elems);
        lemma_agree_grows(st1.scopes, g1, g2, table);
        assert(xs0.push(x).drop_last() =~= xs0);
    } else {
        lemma_agree_same(st.scopes, g, st.scopes, gen_args(table, g, Seq::empty()), table);
    }
}

/// A sequence whose elements nest at most `bound` deep nests at most that
/// deep.
pub proof fn lemma_seq_nesting_le(s: Seq<Expr>, bound: nat)
    requires
        forall|i: int| 0 <= i < s.len() ==> nesting(#[trigger] s[i]) <= bound,
    ensures
        seq_nesting(s) <= bound,
    decreases s.len(),
{
    if s.len() > 0 {
        assert forall|i: int| 0 <= i < s.drop_last().len() implies nesting(#[trigger] s.drop_last()[i])
            <= bound by {
            assert(s.drop_last()[i] == s[i]);
        }
        lemma_seq_nesting_le(s.drop_last(), bound);
        assert(nesting(s[s.len() - 1]) <= bound);
    }
}

/// A lowered sequence of statements compiles, lowering and code generation
/// still agree, and only the innermost scope gained bindings.
pub proof fn lemma_sim_seq(st: LowerState, g: GenState, stmts: Seq<Expr>, table: Seq<Data>)
    requires
        sim_ready(st, seq_nesting(stmts), g, table, lower_seq(st, stmts).0),
        st.scopes.scopes.len() == 0 || g.function.frame.scope_offsets.len() > 0,
    ensures
        ({
            let (st1, ss) = lower_seq(st, stmts);
            let g1 = gen_stmts(table, g, ss);
            &&& agree(st1.scopes, g1, table)
            &&& st1.scopes.scopes.len() == st.scopes.scopes.len()
            &&& st1.scopes.scopes.len() > 0 ==> st1.scopes.scopes.drop_last()
                == st.scopes.scopes.drop_last()
            &&& st1.scopes.scope_depths == st.scopes.scope_depths
            &&& st1.scopes.function_depth == st.scopes.function_depth
            &&& ss.len() == stmts.len()
        }),
    decreases stmts, 3int,
{
    if stmts.len() > 0 {
        let (st0, ss0) = lower_seq(st, stmts.drop_last());
        let (st1, s) = lower_stmt(st0, stmts.last());
        lemma_stmt_progress(st0, stmts.last());
        lemma_sim_step(st0, st1, table);
        assert forall|i: int| 0 <= i < stmts.drop_last().len() implies nesting(#[trigger] stmts.drop_last()[i])
            <= seq_nesting(stmts) by {
            lemma_seq_nesting_elem(stmts, i);
        }
        lemma_seq_nesting_le(stmts.drop_last(), seq_nesting(stmts));
        lemma_sim_seq(st, g, stmts.drop_last(), table);
        let g0 = gen_stmts(table, g, ss0);
        lemma_stmts_shape(table, g, ss0);
        lemma_seq_nesting_elem(stmts, stmts.len() - 1);
        lemma_sim_stmt(st0, g0, stmts.last(), table);
        assert(ss0.push(s).drop_last() =~= ss0);
        if st1.scopes.scopes.len() > 0 {
            assert(st1.scopes.scopes.drop_last() == st0.scopes.scopes.drop_last());
        }
    } else {
        lemma_agree_same(st.scopes, g, st.scopes, gen_stmts(table, g, Seq::empty()), table);
    }
}

/// A lowered statement compiles, lowering and code generation still agree,
/// and only the innermost scope gained bindings.
pub proof fn lemma_sim_stmt(st: LowerState, g: GenState, e: Expr, table: Seq<Data>)
    requires
        sim_ready(st, nesting(e), g, table, lower_stmt(st, e).0),
        st.scopes.scopes.len() == 0 || g.function.frame.scope_offsets.len() > 0,
    ensures
        ({
            let (st1, s) = lower_stmt(st, e);
            let g1 = gen_stmt(table, g, s);
            &&& agree(st1.scopes, g1, table)
            &&& st1.scopes.scopes.len() == st.scopes.scopes.len()
            &&& st1.scopes.scopes.len() > 0 ==> st1.scopes.scopes.drop_last()
                == st.scopes.scopes.drop_last()
            &&& st1.scopes.scope_depths == st.scopes.scope_depths
            &&& st1.scopes.function_depth == st.scopes.function_depth
        }),
    decreases e, 1int,
{
    let (st1, node) = lower_node(st, e);
    lemma_sim_node(st, g, e, table);
    match node {
        NodeView::Stmt(_) => {},
        NodeView::Expr(x) => {
            let g1 = gen_expr(table, g, x);
            let s = lower_stmt(st, e).1;
            lemma_agree_same(st1.scopes, g1, st1.scopes, gen_stmt(table, g, s), table);
        },
    }
}

/// A lowered expression compiles, and lowering and code generation still
/// agree with the same scopes.
pub proof fn lemma_sim_expr(st: LowerState, g: GenState, e: Expr, area: ExprArea, table: Seq<Data>)
    requires
        sim_ready(st, nesting(e), g, table, lower_expr(st, e, area).0),
    ensures
        ({
            let (st1, x) = lower_expr(st, e, area);
            let g1 = gen_expr(table, g, x);
            &&& agree(st1.scopes, g1, table)
            &&& st1.scopes.scopes == st.scopes.scopes
            &&& st1.scopes.scope_depths == st.scopes.scope_depths
            &&& st1.scopes.function_depth == st.scopes.function_depth
        }),
    decreases e, 1int,
{
    let (st1, node) = lower_node(st, e);
    match node {
        NodeView::Stmt(_) => {},
        NodeView::Expr(_) => {
            if e is Assign {
                lemma_node_assign_is_stmt(st, e);
            }
            lemma_sim_node(st, g, e, table);
        },
    }
}

/// An assignment lowers to a statement.
pub proof fn lemma_node_assign_is_stmt(st: LowerState, e: Expr)
    requires
        e is Assign,
    ensures
        lower_node(st, e).1 is Stmt,
{
}

/// A lowered block compiles, and lowering and code generation still agree
/// with the same scopes.
pub proof fn lemma_sim_block(st: LowerState, g: GenState, stmts: Seq<Expr>, table: Seq<Data>)
    requires
        sim_ready(st, seq_nesting(stmts), g, table, lower_block(st, stmts).0),
    ensures
        ({
            let (st1, node) = lower_block(st, stmts);
            &&& st1.scopes.scopes == st.scopes.scopes
            &&& st1.scopes.scope_depths == st.scopes.scope_depths
            &&& st1.scopes.function_depth == st.scopes.function_depth
            &&& match node {
                NodeView::Expr(x) => agree(st1.scopes, gen_expr(table, g, x), table),
                NodeView::Stmt(s) => agree(st1.scopes, gen_stmt(table, g, s), table),
            }
        }),
    decreases stmts, 4int,
{
    let v = st.scopes;
    let st0 = with_scopes(st, v.pushed_block());
    let g0 = pushed_scopes(g);
    let (st1, lowered) = lower_seq(st0, stmts);
    let (st2, node) = lower_block(st, stmts);
    assert(st2.scopes == st1.scopes.popped_block());
    // Opening a scope on both sides keeps them in agreement.
    assert forall|i: int, k: int|
        0 <= i < st0.scopes.scopes.len() && 0 <= k < st0.scopes.scopes[i].len() implies kept(
        g0,
        table,
        st0.scopes.scope_depths[i],
        st0.scopes.function_depth,
        #[trigger] st0.scopes.scopes[i][k].1,
    ) by {
        assert(i < v.scopes.len());
        assert(st0.scopes.scopes[i] == v.scopes[i]);
        assert(kept(g, table, v.scope_depths[i], v.function_depth, v.scopes[i][k].1));
    }
    lemma_sim_seq(st0, g0, stmts, table);
    let g1 = gen_stmts(table, g0, lowered);
    lemma_stmts_shape(table, g0, lowered);
    assert(st1.scopes.scopes.drop_last() == v.scopes);
    assert(st1.scopes.scope_depths.drop_last() =~= v.scope_depths);
    if lowered.len() > 0 {
        match lowered.last() {
            StmtView::Expr(x) => {
                let g_prefix = gen_stmts(table, g0, lowered.drop_last());
                assert(g1 == gen_stmt(table, g_prefix, lowered.last()));
                lemma_stmts_shape(table, g0, lowered.drop_last());
                lemma_expr_shape(table, g_prefix, x);
                let g2 = gen_expr(table, g_prefix, x);
                lemma_scope_closes(g.function.frame, g2.function.frame);
                lemma_scope_closes(g.upvars, g2.upvars);
                lemma_agree_same(v, g, st2.scopes, finish_block_expr(g2), table);
            },
            _ => {
                lemma_scope_closes(g.function.frame, g1.function.frame);
                lemma_scope_closes(g.upvars, g1.upvars);
                lemma_agree_same(v, g, st2.scopes, finish_block_stmt(g1), table);
            },
        }
    } else {
        lemma_scope_closes(g.function.frame, g1.function.frame);
        lemma_scope_closes(g.upvars, g1.upvars);
        lemma_agree_same(v, g, st2.scopes, finish_block_stmt(g1), table);
    }
}

/// A lowered function compiles, and lowering and code generation still
/// agree with the same scopes.
pub proof fn lemma_sim_function(
    st: LowerState,
    g: GenState,
    params: Seq<Expr>,
    body: Expr,
    table: Seq<Data>,
)
    requires
        sim_ready(st, 1 + nesting(body), g, table, lower_function(st, params, body).0),
    ensures
        ({
            let (st1, x) = lower_function(st, params, body);
            let g1 = gen_expr(table, g, x);
            &&& agree(st1.scopes, g1, table)
            &&& st1.scopes.scopes == st.scopes.scopes
            &&& st1.scopes.scope_depths == st.scopes.scope_depths
            &&& st1.scopes.function_depth == st.scopes.function_depth
        }),
    decreases body, 2int,
{
    let v = st.scopes;
    let v0 = pushed_function(v);
    let (st2, x) = lower_function(st, params, body);
    lemma_params_extends(v0, params);
    match declare_params(v0, params) {
        Err(_) => {},
        Ok((w, locals)) => {
            let st0 = with_scopes(st, w);
            let (st1, lowered_body) = lower_expr(st0, body, ExprArea::FunctionBody);
            lemma_expr_progress(st0, body, ExprArea::FunctionBody);
            lemma_sim_step(st0, st1, table);
            assert(v0.scope_depths == v.scope_depths.push(v0.function_depth));
            if v.scopes.len() > 0 {
                assert(v0.scope_depths[v0.scopes.len() - 2] == v.scope_depths.last());
            }
            lemma_declare_params_shape(v0, params);
            let d = v0.function_depth;
            let n = v.scopes.len();
            assert(w.scopes.drop_last() == v.scopes);
            assert(v0.scopes.last().len() == 0);
            // The parameters are kept where the function's code looks for them.
            let entry = function_entry(g);
            assert forall|j: int| 0 <= j < locals.len() implies (#[trigger] locals[j]).0 < table.len() by {
                assert(w.scopes.last()[0 + j].1 == locals[j]);
                assert(w.scopes[n as int][j].1 == locals[j]);
                lemma_entry_in_table(w, table, n as int, j);
            }
            lemma_params_kept(table, entry, locals, d);
            let gp = gen_params(table, entry, locals);
            assert forall|i: int, k: int| 0 <= i < w.scopes.len() && 0 <= k < w.scopes[i].len() implies kept(
                gp,
                table,
                w.scope_depths[i],
                w.function_depth,
                #[trigger] w.scopes[i][k].1,
            ) by {
                if i < n {
                    assert(w.scopes[i] == v.scopes[i]);
                    let l = v.scopes[i][k].1;
                    assert(kept(g, table, v.scope_depths[i], v.function_depth, l));
                    lemma_entry_in_table(v, table, i, k);
                    if table[l.0 as int].is_upvar {
                        assert(entry.upvars.elems == g.upvars.elems);
                        lemma_contains_prefix(g.upvars.elems, gp.upvars.elems, l);
                    } else {
                        assert(w.scope_depths[i] <= v.function_depth);
                    }
                } else {
                    assert(w.scopes[i][k] == w.scopes.last()[0 + k]);
                    assert(kept(gp, table, d, d, locals[k]));
                }
            }
            lemma_sim_expr(st0, gp, body, ExprArea::FunctionBody, table);
            let gb = gen_expr(table, gp, lowered_body);
            lemma_expr_shape(table, gp, lowered_body);
            lemma_params_shape(table, entry, locals);
            lemma_scope_closes(g.upvars, gb.upvars);
            assert(st2.scopes == popped_function(st1.scopes));
            assert(st2.scopes.scopes =~= v.scopes);
            assert(st2.scopes.scope_depths =~= v.scope_depths);
            lemma_agree_same(v, g, st2.scopes, gen_expr(table, g, x), table);
        },
    }
}

/// A lowered assignment's declaration compiles: the new local is kept where
/// it will be looked for.
pub proof fn lemma_sim_assigned(
    st: LowerState,
    g: GenState,
    symbol: Symbol,
    value: ExprView,
    table: Seq<Data>,
)
    requires
        agree(st.scopes, gen_expr(table, g, value), table),
        agree(st.scopes, g, table),
        gen_expr(table, g, value).function.frame == g.function.frame,
        gen_expr(table, g, value).upvars == g.upvars,
        gen_expr(table, g, value).function_depth == g.function_depth,
        table.len() <= usize::MAX,
        declare_assigned(st, symbol, value).0.error is None,
        table_extends(declare_assigned(st, symbol, value).0.scopes.locals, table),
        st.scopes.scopes.len() == 0 || g.function.frame.scope_offsets.len() > 0,
    ensures
        ({
            let (st1, s) = declare_assigned(st, symbol, value);
            let g1 = gen_stmt(table, g, s);
            &&& agree(st1.scopes, g1, table)
            &&& st1.scopes.scopes.len() == st.scopes.scopes.len()
            &&& st1.scopes.scopes.len() > 0 ==> st1.scopes.scopes.drop_last()
                == st.scopes.scopes.drop_last()
            &&& st1.scopes.scope_depths == st.scopes.scope_depths
            &&& st1.scopes.function_depth == st.scopes.function_depth
        }),
{
    let v = st.scopes;
    let gv = gen_expr(table, g, value);
    let (w, variable) = v.declared(symbol);
    match variable {
        None => {},
        Some(Variable::Global) => {
            lemma_declared_wf(v, symbol);
            let s = StmtView::AssignGlobal(symbol, value);
            lemma_agree_same(v, gv, w, gen_stmt(table, g, s), table);
        },
        Some(Variable::Local(local)) => {
            assert(w.locals.len() == v.locals.len() + 1);
            lemma_declared_wf(v, symbol);
            let n = v.scopes.len();
            let g1 = gen_stmt(table, g, StmtView::DefineLocal(local, value));
            assert(table[local.0 as int].function_depth == v.function_depth);
            let f = gv.function.frame.elems;
            let u = gv.upvars.elems;
            assert(g1.function.frame.elems.take(f.len() as int) =~= f);
            assert(g1.upvars.elems.take(u.len() as int) =~= u);
            lemma_agree_grows(v, gv, g1, table);
            assert forall|i: int, k: int| 0 <= i < w.scopes.len() && 0 <= k < w.scopes[i].len() implies kept(
                g1,
                table,
                w.scope_depths[i],
                w.function_depth,
                #[trigger] w.scopes[i][k].1,
            ) by {
                if i == n - 1 && k == v.scopes[i].len() {
                    assert(w.scopes[i][k] == (symbol, local));
                    if table[local.0 as int].is_upvar {
                        assert(g1.upvars.elems.last() == local);
                    } else {
                        assert(g1.function.frame.elems.last() == Elem::Local(local));
                    }
                } else {
                    assert(w.scopes[i][k] == v.scopes[i][k]);
                }
            }
            assert(w.scopes.drop_last() =~= v.scopes.drop_last());
        },
    }
}


/// The state in which a conditional's first branch is compiled, after its
/// condition left `st`.
pub open spec fn cond_entry(st: GenState) -> GenState {
    let then_label = st.function.blocks.len() as usize;
    let else_label = (then_label + 1) as usize;
    with_label(
        set_terminator(
            insert_block(insert_block(insert_block(st))),
            Terminator::Branch(Label(then_label), Label(else_label)),
        ),
        then_label,
    )
}

/// The state in which a conditional's second branch is compiled, after its
/// condition left `st` and its first branch left `then_st`.
pub open spec fn cond_else(st: GenState, then_st: GenState) -> GenState {
    let then_label = st.function.blocks.len() as usize;
    let else_label = (then_label + 1) as usize;
    let join_label = (then_label + 2) as usize;
    with_label(set_terminator(then_st, Terminator::Jump(Label(join_label))), else_label)
}

/// Comparing a compiled value with `true` compiles where the value does.
pub proof fn lemma_checked_ok(table: Seq<Data>, g: GenState, x: ExprView)
    ensures
        gen_expr(table, g, x).ok ==> gen_expr(
            table,
            g,
            ExprView::Binary(
                BinOp::Equal,
                Box::new(x),
                Box::new(ExprView::Literal(Literal::Bool(true))),
            ),
        ).ok,
{
    let g1 = pushed_temp(gen_expr(table, g, x));
    assert(gen_expr(table, g1, ExprView::Literal(Literal::Bool(true))).ok == g1.ok);
}

/// A lowered node compiles, and lowering and code generation still agree:
/// with the same scopes for an expression, and with only the innermost scope
/// grown for a statement.
pub proof fn lemma_sim_node(st: LowerState, g: GenState, e: Expr, table: Seq<Data>)
    requires
        sim_ready(st, nesting(e), g, table, lower_node(st, e).0),
        e is Assign ==> st.scopes.scopes.len() == 0 || g.function.frame.scope_offsets.len() > 0,
    ensures
        ({
            let (st1, node) = lower_node(st, e);
            &&& st1.scopes.scope_depths == st.scopes.scope_depths
            &&& st1.scopes.function_depth == st.scopes.function_depth
            &&& st1.scopes.scopes.len() == st.scopes.scopes.len()
            &&& match node {
                NodeView::Expr(x) => {
                    &&& agree(st1.scopes, gen_expr(table, g, x), table)
                    &&& st1.scopes.scopes == st.scopes.scopes
                },
                NodeView::Stmt(s) => {
                    &&& agree(st1.scopes, gen_stmt(table, g, s), table)
                    &&& st1.scopes.scopes.len() > 0 ==> st1.scopes.scopes.drop_last()
                        == st.scopes.scopes.drop_last()
                },
            }
        }),
    decreases e, 0int,
{
    let v = st.scopes;
    let (st_out, node) = lower_node(st, e);
    match e {
        Expr::Literal(literal) => {
            let x = ExprView::Literal(literal);
            lemma_expr_shape(table, g, x);
            lemma_agree_same(v, g, v, gen_expr(table, g, x), table);
        },
        Expr::Ident(symbol) => lemma_sim_ident(st, g, symbol, table),
        Expr::Paren(inner) => lemma_sim_expr(st, g, *inner, ExprArea::Paren, table),
        Expr::Tuple(_) => {},
        Expr::Block(stmts) => lemma_sim_block(st, g, stmts@, table),
        Expr::Assign(target, source) => match *target {
            Expr::Ident(symbol) => {
                let (st1, value) = lower_expr(st, *source, ExprArea::AssignSource);
                crate::compilation::lowering::monotone::lemma_assigned_progress(st1, symbol, value);
                lemma_sim_step(st1, st_out, table);
                lemma_sim_expr(st, g, *source, ExprArea::AssignSource, table);
                lemma_expr_shape(table, g, value);
                lemma_agree_same(st1.scopes, gen_expr(table, g, value), st1.scopes, g, table);
                lemma_sim_assigned(st1, g, symbol, value, table);
            },
            Expr::Call(callee, args) => match *callee {
                Expr::Ident(symbol) => {
                    let (st1, value) = lower_function(st, args@, *source);
                    crate::compilation::lowering::monotone::lemma_assigned_progress(st1, symbol, value);
                    lemma_sim_step(st1, st_out, table);
                    lemma_sim_function(st, g, args@, *source, table);
                    lemma_expr_shape(table, g, value);
                    lemma_agree_same(st1.scopes, gen_expr(table, g, value), st1.scopes, g, table);
                    lemma_sim_assigned(st1, g, symbol, value, table);
                },
                _ => {},
            },
            _ => {},
        },
        Expr::Function(params, body) => lemma_sim_function(st, g, params@, *body, table),
        Expr::Call(callee, args) => {
            let (st1, x_callee) = lower_expr(st, *callee, ExprArea::Callee);
            let (st2, xs) = lower_args(st1, args@);
            lemma_args_progress(st1, args@);
            lemma_sim_step(st1, st2, table);
            lemma_sim_expr(st, g, *callee, ExprArea::Callee, table);
            let g1 = gen_expr(table, g, x_callee);
            lemma_expr_shape(table, g, x_callee);
            let g2 = pushed_temp(g1);
            assert(g2.function.frame.elems.take(g1.function.frame.elems.len() as int)
                =~= g1.function.frame.elems);
            assert(g2.upvars.elems.take(g1.upvars.elems.len() as int) =~= g1.upvars.elems);
            lemma_agree_grows(st1.scopes, g1, g2, table);
            lemma_sim_args(st1, g2, args@, table);
            let x = ExprView::Call(Box::new(x_callee), xs);
            lemma_expr_shape(table, g, x);
            let g3 = gen_args(table, g2, xs);
            lemma_agree_same(v, g, st2.scopes, gen_expr(table, g, x), table);
        },
        Expr::Unary(op, rhs) => {
            let (st1, x_rhs) = lower_expr(st, *rhs, ExprArea::Operand);
            lemma_sim_expr(st, g, *rhs, ExprArea::Operand, table);
            let x = ExprView::Unary(op, Box::new(x_rhs));
            lemma_expr_shape(table, g, x);
            lemma_agree_same(v, g, st1.scopes, gen_expr(table, g, x), table);
        },
        Expr::Binary(op, lhs, rhs) => {
            let (st1, x_lhs) = lower_expr(st, *lhs, ExprArea::Operand);
            let (st2, x_rhs) = lower_expr(st1, *rhs, ExprArea::Operand);
            lemma_expr_progress(st1, *rhs, ExprArea::Operand);
            lemma_sim_step(st1, st2, table);
            lemma_sim_expr(st, g, *lhs, ExprArea::Operand, table);
            let g1 = gen_expr(table, g, x_lhs);
            lemma_expr_shape(table, g, x_lhs);
            let g2 = pushed_temp(g1);
            assert(g2.function.frame.elems.take(g1.function.frame.elems.len() as int)
                =~= g1.function.frame.elems);
            assert(g2.upvars.elems.take(g1.upvars.elems.len() as int) =~= g1.upvars.elems);
            lemma_agree_grows(st1.scopes, g1, g2, table);
            lemma_sim_expr(st1, g2, *rhs, ExprArea::Operand, table);
            let x = ExprView::Binary(op, Box::new(x_lhs), Box::new(x_rhs));
            lemma_expr_shape(table, g, x);
            lemma_agree_same(v, g, st2.scopes, gen_expr(table, g, x), table);
        },
        Expr::Logic(op, lhs, rhs) => {
            let (st1, x_lhs) = lower_expr(st, *lhs, ExprArea::Operand);
            let (st2, x_rhs) = lower_expr(st1, *rhs, ExprArea::Operand);
            lemma_expr_progress(st1, *rhs, ExprArea::Operand);
            lemma_sim_step(st1, st2, table);
            lemma_sim_expr(st, g, *lhs, ExprArea::Operand, table);
            let g1 = gen_expr(table, g, x_lhs);
            lemma_expr_shape(table, g, x_lhs);
            let g3 = cond_entry(g1);
            lemma_agree_same(st1.scopes, g1, st1.scopes, g3, table);
            let checked = ExprView::Binary(
                BinOp::Equal,
                Box::new(x_rhs),
                Box::new(ExprView::Literal(Literal::Bool(true))),
            );
            match op {
                LogicOp::And => {
                    lemma_sim_expr(st1, g3, *rhs, ExprArea::Operand, table);
                    lemma_expr_shape(table, g3, x_rhs);
                    lemma_checked_ok(table, g3, x_rhs);
                    lemma_expr_shape(table, g3, checked);
                    let g4 = cond_else(g1, gen_expr(table, g3, checked));
                    let x_false = ExprView::Literal(Literal::Bool(false));
                    lemma_expr_shape(table, g4, x_false);
                },
                LogicOp::Or => {
                    let x_true = ExprView::Literal(Literal::Bool(true));
                    lemma_expr_shape(table, g3, x_true);
                    let g4 = cond_else(g1, gen_expr(table, g3, x_true));
                    lemma_agree_same(st1.scopes, g1, st1.scopes, g4, table);
                    lemma_sim_expr(st1, g4, *rhs, ExprArea::Operand, table);
                    lemma_expr_shape(table, g4, x_rhs);
                    lemma_checked_ok(table, g4, x_rhs);
                },
            }
            let x = logic_view(op, x_lhs, x_rhs);
            lemma_expr_shape(table, g, x);
            lemma_agree_same(v, g, st2.scopes, gen_expr(table, g, x), table);
        },
        Expr::Cond(cond, then_expr, else_expr) => {
            let (st1, x_cond) = lower_expr(st, *cond, ExprArea::Condition);
            let (st2, x_then) = lower_expr(st1, *then_expr, ExprArea::Operand);
            let (st3, x_else) = lower_expr(st2, *else_expr, ExprArea::Operand);
            lemma_expr_progress(st2, *else_expr, ExprArea::Operand);
            lemma_sim_step(st2, st3, table);
            lemma_expr_progress(st1, *then_expr, ExprArea::Operand);
            lemma_sim_step(st1, st2, table);
            lemma_sim_expr(st, g, *cond, ExprArea::Condition, table);
            let g1 = gen_expr(table, g, x_cond);
            lemma_expr_shape(table, g, x_cond);
            let g3 = cond_entry(g1);
            lemma_agree_same(st1.scopes, g1, st1.scopes, g3, table);
            lemma_sim_expr(st1, g3, *then_expr, ExprArea::Operand, table);
            lemma_expr_shape(table, g3, x_then);
            let g4 = cond_else(g1, gen_expr(table, g3, x_then));
            lemma_agree_same(st2.scopes, gen_expr(table, g3, x_then), st2.scopes, g4, table);
            lemma_sim_expr(st2, g4, *else_expr, ExprArea::Operand, table);
            lemma_expr_shape(table, g4, x_else);
            let x = ExprView::Cond(Box::new(x_cond), Box::new(x_then), Box::new(x_else));
            lemma_expr_shape(table, g, x);
            lemma_agree_same(v, g, st3.scopes, gen_expr(table, g, x), table);
        },
    }
}

/// Every program that lowers without an error compiles: code generation
/// never meets a local that is not where it looks for it.
pub proof fn lemma_lowered_program_compiles(locals: Seq<Data>, symbols: Seq<Symbol>, ast: Seq<Expr>)
    requires
        seq_nesting(ast) < usize::MAX,
        ({
            let (st, _) = lower_seq(
                LowerState { scopes: initial_scopes(locals, symbols), error: None },
                ast,
            );
            st.error is None && st.scopes.locals.len() <= usize::MAX
        }),
    ensures
        ({
            let (st, stmts) = lower_seq(
                LowerState { scopes: initial_scopes(locals, symbols), error: None },
                ast,
            );
            gen_program(st.scopes.locals, stmts).ok
        }),
{
    let st0 = LowerState { scopes: initial_scopes(locals, symbols), error: None };
    let (st, stmts) = lower_seq(st0, ast);
    lemma_initial_scopes(locals, symbols);
    crate::lower::scopes::lemma_table_extends_refl(st.scopes.locals);
    lemma_sim_seq(st0, initial_state(), ast, st.scopes.locals);
}

} // verus!
