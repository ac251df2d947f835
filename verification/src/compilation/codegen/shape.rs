//! What compiling each kind of IR does to the stack frame and the upvar
//! stack: an expression leaves both as it found them, and a statement only
//! pushes the local it defines.

use vstd::prelude::*;

use crate::compilation::ir::{ExprView, StmtView};
use crate::compile::stack::{Elem};
use crate::locals::{Data, Local};

use super::semantics::{
    extends, extends_locals, function_entry, gen_args, gen_expr, gen_params, gen_stmt, gen_stmts,
    lemma_extends_locals_trans, lemma_extends_trans, lemma_scope_closes, pushed_scopes,
    pushed_temp, GenState,
};

verus! {

/// A sequence of temporary values.
pub open spec fn temps(count: nat) -> Seq<Elem> {
    Seq::new(count, |i: int| Elem::Temp)
}

/// Declaring parameters keeps the function depth and the frame's scopes,
/// and only pushes to the upvar stack.
pub proof fn lemma_params_shape(locals: Seq<Data>, st: GenState, params: Seq<Local>)
    ensures
        gen_params(locals, st, params).function_depth == st.function_depth,
        gen_params(locals, st, params).function.frame.scope_offsets
            == st.function.frame.scope_offsets,
        extends(st.upvars, gen_params(locals, st, params).upvars),
    decreases params.len(),
{
    if params.len() == 0 {
        assert(st.upvars.elems.take(st.upvars.elems.len() as int) =~= st.upvars.elems);
    } else {
        let st1 = gen_params(locals, st, params.drop_last());
        lemma_params_shape(locals, st, params.drop_last());
        let out = gen_params(locals, st, params);
        assert(out.upvars.elems.take(st1.upvars.elems.len() as int) =~= st1.upvars.elems);
        lemma_extends_trans(st.upvars, st1.upvars, out.upvars);
    }
}

/// Compiling a sequence of statements keeps the function depth and only
/// pushes locals to the frame and upvars to the upvar stack.
pub proof fn lemma_stmts_shape(locals: Seq<Data>, st: GenState, stmts: Seq<StmtView>)
    ensures
        gen_stmts(locals, st, stmts).function_depth == st.function_depth,
        extends_locals(st.function.frame, gen_stmts(locals, st, stmts).function.frame),
        extends(st.upvars, gen_stmts(locals, st, stmts).upvars),
    decreases stmts, 1int,
{
    if stmts.len() == 0 {
        assert(st.function.frame.elems.take(st.function.frame.elems.len() as int)
            =~= st.function.frame.elems);
        assert(st.upvars.elems.take(st.upvars.elems.len() as int) =~= st.upvars.elems);
    } else {
        let st1 = gen_stmts(locals, st, stmts.drop_last());
        lemma_stmts_shape(locals, st, stmts.drop_last());
        lemma_stmt_shape(locals, st1, stmts.last());
        let out = gen_stmt(locals, st1, stmts.last());
        lemma_extends_locals_trans(st.function.frame, st1.function.frame, out.function.frame);
        lemma_extends_trans(st.upvars, st1.upvars, out.upvars);
    }
}

/// Compiling call arguments keeps the function depth and the upvar stack,
/// and leaves one temporary value per argument on the frame.
pub proof fn lemma_args_shape(locals: Seq<Data>, st: GenState, args: Seq<ExprView>)
    ensures
        gen_args(locals, st, args).function_depth == st.function_depth,
        gen_args(locals, st, args).upvars == st.upvars,
        gen_args(locals, st, args).function.frame == st.function.frame.pushed_all(
            temps(args.len()),
        ),
    decreases args, 1int,
{
    if args.len() == 0 {
        assert(st.function.frame.elems + temps(0) =~= st.function.frame.elems);
    } else {
        let st1 = gen_args(locals, st, args.drop_last());
        lemma_args_shape(locals, st, args.drop_last());
        lemma_expr_shape(locals, st1, args.last());
        assert(st1.function.frame.elems.push(Elem::Temp) =~= st.function.frame.elems + temps(
            args.len(),
        ));
    }
}

/// Compiling a statement keeps the function depth and only pushes the local
/// it defines, to the frame or to the upvar stack.
pub proof fn lemma_stmt_shape(locals: Seq<Data>, st: GenState, stmt: StmtView)
    ensures
        gen_stmt(locals, st, stmt).function_depth == st.function_depth,
        extends_locals(st.function.frame, gen_stmt(locals, st, stmt).function.frame),
        extends(st.upvars, gen_stmt(locals, st, stmt).upvars),
    decreases stmt, 0int,
{
    let frame = st.function.frame;
    let upvars = st.upvars;
    assert(frame.elems.take(frame.elems.len() as int) =~= frame.elems);
    assert(upvars.elems.take(upvars.elems.len() as int) =~= upvars.elems);
    match stmt {
        StmtView::Block(stmts) => {
            let st1 = pushed_scopes(st);
            lemma_stmts_shape(locals, st1, stmts);
            let st2 = gen_stmts(locals, st1, stmts);
            lemma_scope_closes(frame, st2.function.frame);
            lemma_scope_closes(upvars, st2.upvars);
        },
        StmtView::AssignGlobal(_, value) => lemma_expr_shape(locals, st, value),
        StmtView::DefineLocal(_, value) => {
            lemma_expr_shape(locals, st, value);
            let st1 = gen_expr(locals, st, value);
            assert(frame.elems.push(Elem::Temp).take(frame.elems.len() as int) =~= frame.elems);
            assert(forall|local: Local|
                #[trigger] frame.elems.push(Elem::Local(local)).take(frame.elems.len() as int)
                    =~= frame.elems);
            assert(forall|local: Local|
                #[trigger] upvars.elems.push(local).take(upvars.elems.len() as int)
                    =~= upvars.elems);
        },
        StmtView::Print(value) => lemma_expr_shape(locals, st, value),
        StmtView::Expr(value) => lemma_expr_shape(locals, st, value),
    }
}

/// Compiling an expression keeps the function depth, the frame and the
/// upvar stack.
pub proof fn lemma_expr_shape(locals: Seq<Data>, st: GenState, expr: ExprView)
    ensures
        gen_expr(locals, st, expr).function_depth == st.function_depth,
        gen_expr(locals, st, expr).function.frame == st.function.frame,
        gen_expr(locals, st, expr).upvars == st.upvars,
    decreases expr, 0int,
{
    let frame = st.function.frame;
    match expr {
        ExprView::Block(stmts, value) => {
            let st1 = pushed_scopes(st);
            lemma_stmts_shape(locals, st1, stmts);
            let st2 = gen_stmts(locals, st1, stmts);
            lemma_expr_shape(locals, st2, *value);
            lemma_scope_closes(frame, st2.function.frame);
            lemma_scope_closes(st.upvars, st2.upvars);
        },
        ExprView::Function(params, body) => {
            if st.function_depth < usize::MAX {
                let entry = function_entry(st);
                lemma_params_shape(locals, entry, params);
                let st1 = gen_params(locals, entry, params);
                lemma_expr_shape(locals, st1, *body);
                lemma_scope_closes(st.upvars, st1.upvars);
            }
        },
        ExprView::Call(callee, args) => {
            lemma_expr_shape(locals, st, *callee);
            let st1 = pushed_temp(gen_expr(locals, st, *callee));
            lemma_args_shape(locals, st1, args);
            let elems = frame.elems.push(Elem::Temp) + temps(args.len());
            assert(elems.take(elems.len() - (args.len() + 1)) =~= frame.elems);
        },
        ExprView::Unary(_, rhs) => lemma_expr_shape(locals, st, *rhs),
        ExprView::Binary(_, lhs, rhs) => {
            lemma_expr_shape(locals, st, *lhs);
            let st1 = pushed_temp(gen_expr(locals, st, *lhs));
            lemma_expr_shape(locals, st1, *rhs);
            assert(frame.elems.push(Elem::Temp).take(frame.elems.len() as int) =~= frame.elems);
        },
        ExprView::Cond(cond, then_expr, else_expr) => {
            lemma_expr_shape(locals, st, *cond);
            let st1 = gen_expr(locals, st, *cond);
            let then_label = st1.function.blocks.len() as usize;
            let else_label = (then_label + 1) as usize;
            let join_label = (then_label + 2) as usize;
            let st2 = super::semantics::insert_block(
                super::semantics::insert_block(super::semantics::insert_block(st1)),
            );
            let st3 = super::semantics::with_label(
                super::semantics::set_terminator(
                    st2,
                    crate::cfg::Terminator::Branch(
                        crate::cfg::Label(then_label),
                        crate::cfg::Label(else_label),
                    ),
                ),
                then_label,
            );
            lemma_expr_shape(locals, st3, *then_expr);
            let st4 = super::semantics::with_label(
                super::semantics::set_terminator(
                    gen_expr(locals, st3, *then_expr),
                    crate::cfg::Terminator::Jump(crate::cfg::Label(join_label)),
                ),
                else_label,
            );
            lemma_expr_shape(locals, st4, *else_expr);
        },
        _ => {},
    }
}

} // verus!
