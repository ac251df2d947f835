//! What lowering never undoes: once an error is reported it stays the first
//! error, and the table of locals only grows (new locals are appended, and a
//! local once marked as an upvar stays one).

use vstd::prelude::*;

use crate::ast::Expr;
use crate::lower::scopes::{
    lemma_table_extends_refl, lemma_table_extends_trans, table_extends, ScopeStackView, };
use crate::symbols::Symbol;

use super::errors::ExprArea;
use super::semantics::{
    declare_assigned, declare_params, lower_args, lower_block, lower_expr, lower_function,
    lower_ident, lower_node, lower_seq, lower_stmt, pushed_function, with_scopes,
    LowerState,
};

verus! {

/// `after` keeps the first error of `before`, and its table grew from
/// `before`'s.
pub open spec fn progressed(before: LowerState, after: LowerState) -> bool {
    &&& before.error is Some ==> after.error == before.error
    &&& table_extends(before.scopes.locals, after.scopes.locals)
}

/// Progress is transitive.
pub proof fn lemma_progressed_trans(a: LowerState, b: LowerState, c: LowerState)
    requires
        progressed(a, b),
        progressed(b, c),
    ensures
        progressed(a, c),
{
    lemma_table_extends_trans(a.scopes.locals, b.scopes.locals, c.scopes.locals);
}

/// A state has progressed from itself.
pub proof fn lemma_progressed_refl(a: LowerState)
    ensures
        progressed(a, a),
{
    lemma_table_extends_refl(a.scopes.locals);
}

/// Declaring a symbol only grows the table.
pub proof fn lemma_declared_extends(v: ScopeStackView, symbol: Symbol)
    ensures
        table_extends(v.locals, v.declared(symbol).0.locals),
{
}

/// Resolving a symbol only grows the table.
pub proof fn lemma_resolve_extends(v: ScopeStackView, symbol: Symbol)
    ensures
        table_extends(v.locals, v.locals_after_resolve(symbol)),
{
}

/// Declaring parameters only grows the table, whether it succeeds or not.
pub proof fn lemma_params_extends(v: ScopeStackView, params: Seq<Expr>)
    ensures
        match declare_params(v, params) {
            Ok((w, _)) => table_extends(v.locals, w.locals),
            Err((w, _)) => table_extends(v.locals, w.locals),
        },
    decreases params.len(),
{
    if params.len() > 0 {
        lemma_params_extends(v, params.drop_last());
        if let Ok((w, _)) = declare_params(v, params.drop_last()) {
            if let Expr::Ident(symbol) = params.last() {
                lemma_table_extends_trans(v.locals, w.locals, w.declared(symbol).0.locals);
            }
        }
    }
}

/// Lowering a sequence of statements progresses.
pub proof fn lemma_seq_progress(st: LowerState, stmts: Seq<Expr>)
    ensures
        progressed(st, lower_seq(st, stmts).0),
    decreases stmts, 3int,
{
    if stmts.len() == 0 {
        lemma_progressed_refl(st);
    } else {
        let st1 = lower_seq(st, stmts.drop_last()).0;
        lemma_seq_progress(st, stmts.drop_last());
        lemma_stmt_progress(st1, stmts.last());
        lemma_progressed_trans(st, st1, lower_stmt(st1, stmts.last()).0);
    }
}

/// Lowering call arguments progresses.
pub proof fn lemma_args_progress(st: LowerState, args: Seq<Expr>)
    ensures
        progressed(st, lower_args(st, args).0),
    decreases args, 3int,
{
    if args.len() == 0 {
        lemma_progressed_refl(st);
    } else {
        let st1 = lower_args(st, args.drop_last()).0;
        lemma_args_progress(st, args.drop_last());
        lemma_expr_progress(st1, args.last(), ExprArea::Arg);
        lemma_progressed_trans(st, st1, lower_expr(st1, args.last(), ExprArea::Arg).0);
    }
}

/// Lowering a statement progresses.
pub proof fn lemma_stmt_progress(st: LowerState, e: Expr)
    ensures
        progressed(st, lower_stmt(st, e).0),
    decreases e, 1int,
{
    lemma_node_progress(st, e);
}

/// Lowering an expression progresses.
pub proof fn lemma_expr_progress(st: LowerState, e: Expr, area: ExprArea)
    ensures
        progressed(st, lower_expr(st, e, area).0),
    decreases e, 1int,
{
    lemma_node_progress(st, e);
}

/// Lowering an identifier progresses.
pub proof fn lemma_ident_progress(st: LowerState, symbol: Symbol)
    ensures
        progressed(st, lower_ident(st, symbol).0),
{
    lemma_resolve_extends(st.scopes, symbol);
}

/// Declaring an assigned symbol progresses.
pub proof fn lemma_assigned_progress(st: LowerState, symbol: Symbol, value: crate::compilation::ir::ExprView)
    ensures
        progressed(st, declare_assigned(st, symbol, value).0),
{
    lemma_declared_extends(st.scopes, symbol);
}

/// Lowering a block progresses.
pub proof fn lemma_block_progress(st: LowerState, stmts: Seq<Expr>)
    ensures
        progressed(st, lower_block(st, stmts).0),
    decreases stmts, 4int,
{
    let st0 = with_scopes(st, st.scopes.pushed_block());
    lemma_seq_progress(st0, stmts);
}

/// Lowering a function progresses.
pub proof fn lemma_function_progress(st: LowerState, params: Seq<Expr>, body: Expr)
    ensures
        progressed(st, lower_function(st, params, body).0),
    decreases body, 2int,
{
    lemma_params_extends(pushed_function(st.scopes), params);
    match declare_params(pushed_function(st.scopes), params) {
        Err(_) => {},
        Ok((scopes, _)) => {
            let st1 = with_scopes(st, scopes);
            lemma_expr_progress(st1, body, ExprArea::FunctionBody);
            lemma_table_extends_trans(
                st.scopes.locals,
                scopes.locals,
                lower_expr(st1, body, ExprArea::FunctionBody).0.scopes.locals,
            );
        },
    }
}

/// Lowering an expression to a node progresses.
pub proof fn lemma_node_progress(st: LowerState, e: Expr)
    ensures
        progressed(st, lower_node(st, e).0),
    decreases e, 0int,
{
    match e {
        Expr::Literal(_) => lemma_progressed_refl(st),
        Expr::Ident(symbol) => lemma_ident_progress(st, symbol),
        Expr::Paren(inner) => lemma_expr_progress(st, *inner, ExprArea::Paren),
        Expr::Tuple(_) => lemma_progressed_refl(st),
        Expr::Block(stmts) => lemma_block_progress(st, stmts@),
        Expr::Assign(target, source) => match *target {
            Expr::Ident(symbol) => {
                let (st1, value) = lower_expr(st, *source, ExprArea::AssignSource);
                lemma_expr_progress(st, *source, ExprArea::AssignSource);
                lemma_assigned_progress(st1, symbol, value);
                lemma_progressed_trans(st, st1, declare_assigned(st1, symbol, value).0);
            },
            Expr::Call(callee, args) => match *callee {
                Expr::Ident(symbol) => {
                    let (st1, value) = lower_function(st, args@, *source);
                    lemma_function_progress(st, args@, *source);
                    lemma_assigned_progress(st1, symbol, value);
                    lemma_progressed_trans(st, st1, declare_assigned(st1, symbol, value).0);
                },
                _ => lemma_progressed_refl(st),
            },
            _ => lemma_progressed_refl(st),
        },
        Expr::Function(params, body) => lemma_function_progress(st, params@, *body),
        Expr::Call(callee, args) => {
            let st1 = lower_expr(st, *callee, ExprArea::Callee).0;
            lemma_expr_progress(st, *callee, ExprArea::Callee);
            lemma_args_progress(st1, args@);
            lemma_progressed_trans(st, st1, lower_args(st1, args@).0);
        },
        Expr::Unary(_, rhs) => lemma_expr_progress(st, *rhs, ExprArea::Operand),
        Expr::Binary(_, lhs, rhs) => {
            let st1 = lower_expr(st, *lhs, ExprArea::Operand).0;
            lemma_expr_progress(st, *lhs, ExprArea::Operand);
            lemma_expr_progress(st1, *rhs, ExprArea::Operand);
            lemma_progressed_trans(st, st1, lower_expr(st1, *rhs, ExprArea::Operand).0);
        },
        Expr::Logic(_, lhs, rhs) => {
            let st1 = lower_expr(st, *lhs, ExprArea::Operand).0;
            lemma_expr_progress(st, *lhs, ExprArea::Operand);
            lemma_expr_progress(st1, *rhs, ExprArea::Operand);
            lemma_progressed_trans(st, st1, lower_expr(st1, *rhs, ExprArea::Operand).0);
        },
        Expr::Cond(cond, then_expr, else_expr) => {
            let st1 = lower_expr(st, *cond, ExprArea::Condition).0;
            let st2 = lower_expr(st1, *then_expr, ExprArea::Operand).0;
            lemma_expr_progress(st, *cond, ExprArea::Condition);
            lemma_expr_progress(st1, *then_expr, ExprArea::Operand);
            lemma_expr_progress(st2, *else_expr, ExprArea::Operand);
            lemma_progressed_trans(st, st1, st2);
            lemma_progressed_trans(st, st2, lower_expr(st2, *else_expr, ExprArea::Operand).0);
        },
    }
}

} // verus!
