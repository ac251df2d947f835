//! What compiling each kind of HIR does to the local stack and the upvalue
//! stack: an expression leaves both as it found them, and a statement only
//! pushes the local it defines.

use vstd::prelude::*;

use crate::compilation::codegen::semantics::{extends, lemma_extends_trans, lemma_scope_closes};
use crate::decl_table::{Decl, DeclId};
use crate::hir::{ExprView, StmtView};

use super::local_stack::Elem;
use super::semantics::{
    began_block, function_entry, gen_args, gen_expr, gen_params, gen_stmt, gen_stmts,
    pushed_temp, HirGenState,
};
use super::{extends_with_locals, lemma_extends_with_locals_trans};

verus! {

/// A sequence of temporary values.
pub open spec fn temp_elems(count: nat) -> Seq<Elem> {
    Seq::new(count, |i: int| Elem::Temp)
}

/// Declaring parameters keeps the call depth and only pushes to the upvalue
/// stack.
pub proof fn lemma_hir_params_shape(decls: Seq<Decl>, st: HirGenState, params: Seq<DeclId>)
    ensures
        gen_params(decls, st, params).call_depth == st.call_depth,
        extends(st.upvalues, gen_params(decls, st, params).upvalues),
    decreases params.len(),
{
    if params.len() == 0 {
        assert(st.upvalues.elems.take(st.upvalues.elems.len() as int) =~= st.upvalues.elems);
    } else {
        let st1 = gen_params(decls, st, params.drop_last());
        lemma_hir_params_shape(decls, st, params.drop_last());
        let out = gen_params(decls, st, params);
        assert(out.upvalues.elems.take(st1.upvalues.elems.len() as int) =~= st1.upvalues.elems);
        lemma_extends_trans(st.upvalues, st1.upvalues, out.upvalues);
    }
}

/// Compiling a sequence of statements keeps the call depth and only pushes
/// locals to the local stack and upvalues to the upvalue stack.
pub proof fn lemma_hir_stmts_shape(decls: Seq<Decl>, st: HirGenState, stmts: Seq<StmtView>)
    ensures
        gen_stmts(decls, st, stmts).call_depth == st.call_depth,
        extends_with_locals(st.locals.stack, gen_stmts(decls, st, stmts).locals.stack),
        extends(st.upvalues, gen_stmts(decls, st, stmts).upvalues),
    decreases stmts, 1int,
{
    if stmts.len() == 0 {
        assert(st.locals.stack.elems.take(st.locals.stack.elems.len() as int)
            =~= st.locals.stack.elems);
        assert(st.upvalues.elems.take(st.upvalues.elems.len() as int) =~= st.upvalues.elems);
    } else {
        let st1 = gen_stmts(decls, st, stmts.drop_last());
        lemma_hir_stmts_shape(decls, st, stmts.drop_last());
        lemma_hir_stmt_shape(decls, st1, stmts.last());
        let out = gen_stmt(decls, st1, stmts.last());
        lemma_extends_with_locals_trans(st.locals.stack, st1.locals.stack, out.locals.stack);
        lemma_extends_trans(st.upvalues, st1.upvalues, out.upvalues);
    }
}

/// Compiling call arguments keeps the call depth and the upvalue stack, and
/// leaves one temporary value per argument on the local stack.
pub proof fn lemma_hir_args_shape(decls: Seq<Decl>, st: HirGenState, args: Seq<ExprView>)
    ensures
        gen_args(decls, st, args).call_depth == st.call_depth,
        gen_args(decls, st, args).upvalues == st.upvalues,
        gen_args(decls, st, args).locals.stack == st.locals.stack.pushed_all(
            temp_elems(args.len()),
        ),
    decreases args, 1int,
{
    if args.len() == 0 {
        assert(st.locals.stack.elems + temp_elems(0) =~= st.locals.stack.elems);
    } else {
        let st1 = gen_args(decls, st, args.drop_last());
        lemma_hir_args_shape(decls, st, args.drop_last());
        lemma_hir_expr_shape(decls, st1, args.last());
        assert(st1.locals.stack.elems.push(Elem::Temp) =~= st.locals.stack.elems + temp_elems(
            args.len(),
        ));
    }
}

/// Compiling a statement keeps the call depth and only pushes the local it
/// defines, to the local stack or to the upvalue stack.
pub proof fn lemma_hir_stmt_shape(decls: Seq<Decl>, st: HirGenState, stmt: StmtView)
    ensures
        gen_stmt(decls, st, stmt).call_depth == st.call_depth,
        extends_with_locals(st.locals.stack, gen_stmt(decls, st, stmt).locals.stack),
        extends(st.upvalues, gen_stmt(decls, st, stmt).upvalues),
    decreases stmt, 0int,
{
    let stack = st.locals.stack;
    let upvalues = st.upvalues;
    assert(stack.elems.take(stack.elems.len() as int) =~= stack.elems);
    assert(upvalues.elems.take(upvalues.elems.len() as int) =~= upvalues.elems);
    match stmt {
        StmtView::Block(stmts) => {
            let st1 = began_block(st);
            lemma_hir_stmts_shape(decls, st1, stmts);
            let st2 = gen_stmts(decls, st1, stmts);
            lemma_scope_closes(stack, st2.locals.stack);
            lemma_scope_closes(upvalues, st2.upvalues);
        },
        StmtView::AssignGlobal(_, value) => lemma_hir_expr_shape(decls, st, value),
        StmtView::DefineLocal(_, value) => {
            lemma_hir_expr_shape(decls, st, value);
            assert(forall|id: DeclId|
                #[trigger] stack.elems.push(Elem::Local(id)).take(stack.elems.len() as int)
                    =~= stack.elems);
            assert(forall|id: DeclId|
                #[trigger] upvalues.elems.push(id).take(upvalues.elems.len() as int)
                    =~= upvalues.elems);
        },
        StmtView::Print(value) => lemma_hir_expr_shape(decls, st, value),
        StmtView::Expr(value) => lemma_hir_expr_shape(decls, st, value),
        StmtView::Nop => {},
    }
}

/// Compiling an expression keeps the call depth, the local stack and the
/// upvalue stack.
pub proof fn lemma_hir_expr_shape(decls: Seq<Decl>, st: HirGenState, expr: ExprView)
    ensures
        gen_expr(decls, st, expr).call_depth == st.call_depth,
        gen_expr(decls, st, expr).locals.stack == st.locals.stack,
        gen_expr(decls, st, expr).upvalues == st.upvalues,
    decreases expr, 0int,
{
    let stack = st.locals.stack;
    match expr {
        ExprView::Block(stmts, value) => {
            let st1 = began_block(st);
            lemma_hir_stmts_shape(decls, st1, stmts);
            let st2 = gen_stmts(decls, st1, stmts);
            lemma_hir_expr_shape(decls, st2, *value);
            lemma_scope_closes(stack, st2.locals.stack);
            lemma_scope_closes(st.upvalues, st2.upvalues);
        },
        ExprView::Function(params, body) => {
            if st.call_depth < usize::MAX {
                let entry = function_entry(st);
                lemma_hir_params_shape(decls, entry, params);
                let st1 = gen_params(decls, entry, params);
                lemma_hir_expr_shape(decls, st1, *body);
                lemma_scope_closes(st.upvalues, st1.upvalues);
            }
        },
        ExprView::Call(callee, args) => {
            lemma_hir_expr_shape(decls, st, *callee);
            let st1 = pushed_temp(gen_expr(decls, st, *callee));
            lemma_hir_args_shape(decls, st1, args);
            let elems = stack.elems.push(Elem::Temp) + temp_elems(args.len());
            assert(elems.take(elems.len() - (args.len() + 1)) =~= stack.elems);
        },
        ExprView::Unary(_, rhs) => lemma_hir_expr_shape(decls, st, *rhs),
        ExprView::Binary(_, lhs, rhs) => {
            lemma_hir_expr_shape(decls, st, *lhs);
            let st1 = pushed_temp(gen_expr(decls, st, *lhs));
            lemma_hir_expr_shape(decls, st1, *rhs);
            assert(stack.elems.push(Elem::Temp).take(stack.elems.len() as int) =~= stack.elems);
        },
        ExprView::Cond(cond, then_expr, else_expr) => {
            lemma_hir_expr_shape(decls, st, *cond);
            let st1 = gen_expr(decls, st, *cond);
            let final_label = st1.blocks.len() as usize;
            let then_label = (final_label + 1) as usize;
            let else_label = (final_label + 2) as usize;
            let st2 = super::semantics::add_block(st1, super::semantics::current_block(st1).terminator);
            let st3 = super::semantics::add_block(
                super::semantics::add_block(st2, crate::cfg::Terminator::Jump(crate::cfg::Label(final_label))),
                crate::cfg::Terminator::Jump(crate::cfg::Label(final_label)),
            );
            let st4 = super::semantics::with_label(
                super::semantics::set_terminator(
                    st3,
                    crate::cfg::Terminator::Branch(
                        crate::cfg::Label(then_label),
                        crate::cfg::Label(else_label),
                    ),
                ),
                then_label,
            );
            lemma_hir_expr_shape(decls, st4, *then_expr);
            let st5 = super::semantics::with_label(gen_expr(decls, st4, *then_expr), else_label);
            lemma_hir_expr_shape(decls, st5, *else_expr);
        },
        _ => {},
    }
}

} // verus!
