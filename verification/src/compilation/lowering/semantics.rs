//! The meaning of lowering an [`Ast`](crate::ast::Ast): how each expression
//! becomes an IR statement or expression, how scopes and the table of locals
//! evolve, and which error is reported first.

use vstd::prelude::*;

use crate::ast::{BinOp, Expr, Literal, LogicOp};
use crate::compilation::ir::{ExprView, StmtView};
use crate::locals::Local;
use crate::lower::scopes::{ScopeStackView, Variable};
use crate::symbols::Symbol;

use super::errors::{ErrorKind, ExprArea};
use super::nodes::NodeView;

verus! {

/// The state that lowering threads through a program: the scopes (with the
/// table of locals) and the first error reported, if any.
pub struct LowerState {
    pub scopes: ScopeStackView,
    pub error: Option<ErrorKind>,
}

/// The state after reporting an error: only the first error is kept.
pub open spec fn reported(st: LowerState, error: ErrorKind) -> LowerState {
    LowerState { error: if st.error is Some { st.error } else { Some(error) }, ..st }
}

/// The state with new scopes.
pub open spec fn with_scopes(st: LowerState, scopes: ScopeStackView) -> LowerState {
    LowerState { scopes, ..st }
}

/// The expression that stands in for one that could not be lowered.
pub open spec fn error_expr_view() -> ExprView {
    ExprView::Literal(Literal::Number(0))
}

/// The statement that stands in for one that could not be lowered.
pub open spec fn error_stmt_view() -> StmtView {
    StmtView::Block(Seq::empty())
}

/// The scopes after entering a function: one level deeper, with a new scope.
pub open spec fn pushed_function(v: ScopeStackView) -> ScopeStackView {
    ScopeStackView { function_depth: (v.function_depth + 1) as usize, ..v }.pushed_block()
}

/// The scopes after leaving a function.
pub open spec fn popped_function(v: ScopeStackView) -> ScopeStackView {
    ScopeStackView { function_depth: (v.function_depth - 1) as usize, ..v.popped_block() }
}

/// Declares the parameters of a function, in order. Either every parameter
/// is an identifier declared as a new local (giving the scopes after and the
/// locals), or the first failure with the scopes at that point.
pub open spec fn declare_params(v: ScopeStackView, params: Seq<Expr>) -> Result<
    (ScopeStackView, Seq<Local>),
    (ScopeStackView, ErrorKind),
>
    decreases params.len(),
{
    if params.len() == 0 {
        Ok((v, Seq::empty()))
    } else {
        match declare_params(v, params.drop_last()) {
            Err(failure) => Err(failure),
            Ok((w, locals)) => match params.last() {
                Expr::Ident(symbol) => {
                    let (x, variable) = w.declared(symbol);
                    match variable {
                        Some(Variable::Local(local)) => Ok((x, locals.push(local))),
                        _ => Err((x, ErrorKind::DuplicateParam(symbol))),
                    }
                },
                _ => Err((w, ErrorKind::InvalidParam)),
            },
        }
    }
}

/// Once declaring a prefix of the parameters fails, declaring them all fails
/// the same way.
pub proof fn lemma_declare_params_failure(v: ScopeStackView, params: Seq<Expr>, k: int)
    requires
        0 <= k <= params.len(),
        declare_params(v, params.take(k)) is Err,
    ensures
        declare_params(v, params) == declare_params(v, params.take(k)),
    decreases params.len() - k,
{
    if k < params.len() {
        assert(params.take(k + 1).drop_last() =~= params.take(k));
        lemma_declare_params_failure(v, params, k + 1);
    } else {
        assert(params.take(k) =~= params);
    }
}

/// The scopes after declaring each global symbol, in order.
pub open spec fn declare_globals(v: ScopeStackView, symbols: Seq<Symbol>) -> ScopeStackView
    decreases symbols.len(),
{
    if symbols.len() == 0 {
        v
    } else {
        declare_globals(v, symbols.drop_last()).declared(symbols.last()).0
    }
}

/// The scopes that lowering a program starts from: no local scope, the given
/// table of locals, and the given global symbols.
pub open spec fn initial_scopes(locals: Seq<crate::locals::Data>, symbols: Seq<Symbol>) -> ScopeStackView {
    declare_globals(
        ScopeStackView {
            locals,
            function_depth: 0,
            globals: Seq::empty(),
            scopes: Seq::empty(),
            scope_depths: Seq::empty(),
        },
        symbols,
    )
}

/// The size of an expression: its number of nodes.
pub open spec fn size(e: Expr) -> nat
    decreases e,
{
    1 + match e {
        Expr::Literal(_) => 0,
        Expr::Ident(_) => 0,
        Expr::Paren(inner) => size(*inner),
        Expr::Tuple(elems) => seq_size(elems@),
        Expr::Block(stmts) => seq_size(stmts@),
        Expr::Assign(target, source) => size(*target) + size(*source),
        Expr::Function(params, body) => seq_size(params@) + size(*body),
        Expr::Call(callee, args) => size(*callee) + seq_size(args@),
        Expr::Unary(_, rhs) => size(*rhs),
        Expr::Binary(_, lhs, rhs) => size(*lhs) + size(*rhs),
        Expr::Logic(_, lhs, rhs) => size(*lhs) + size(*rhs),
        Expr::Cond(cond, then_expr, else_expr) => size(*cond) + size(*then_expr) + size(
            *else_expr,
        ),
    }
}

/// The total size of a sequence of expressions.
pub open spec fn seq_size(s: Seq<Expr>) -> nat
    decreases s,
{
    if s.len() == 0 {
        0
    } else {
        seq_size(s.drop_last()) + size(s.last())
    }
}

/// An element's size is bounded by the size of its sequence.
pub proof fn lemma_seq_size_elem(s: Seq<Expr>, i: int)
    requires
        0 <= i < s.len(),
    ensures
        size(s[i]) <= seq_size(s),
    decreases s.len(),
{
    if i < s.len() - 1 {
        lemma_seq_size_elem(s.drop_last(), i);
    }
}

/// The deepest nesting of functions that lowering an expression enters.
pub open spec fn nesting(e: Expr) -> nat
    decreases e,
{
    match e {
        Expr::Literal(_) => 0,
        Expr::Ident(_) => 0,
        Expr::Paren(inner) => nesting(*inner),
        Expr::Tuple(_) => 0,
        Expr::Block(stmts) => seq_nesting(stmts@),
        Expr::Assign(_, source) => 1 + nesting(*source),
        Expr::Function(_, body) => 1 + nesting(*body),
        Expr::Call(callee, args) => max(nesting(*callee), seq_nesting(args@)),
        Expr::Unary(_, rhs) => nesting(*rhs),
        Expr::Binary(_, lhs, rhs) => max(nesting(*lhs), nesting(*rhs)),
        Expr::Logic(_, lhs, rhs) => max(nesting(*lhs), nesting(*rhs)),
        Expr::Cond(cond, then_expr, else_expr) => max(
            nesting(*cond),
            max(nesting(*then_expr), nesting(*else_expr)),
        ),
    }
}

/// The deepest nesting of functions among a sequence of expressions.
pub open spec fn seq_nesting(s: Seq<Expr>) -> nat
    decreases s,
{
    if s.len() == 0 {
        0
    } else {
        max(seq_nesting(s.drop_last()), nesting(s.last()))
    }
}

/// The larger of two naturals.
pub open spec fn max(a: nat, b: nat) -> nat {
    if a >= b {
        a
    } else {
        b
    }
}

/// Lowers a sequence of statements, in order.
pub open spec fn lower_seq(st: LowerState, stmts: Seq<Expr>) -> (LowerState, Seq<StmtView>)
    decreases stmts, 3int,
{
    if stmts.len() == 0 {
        (st, Seq::empty())
    } else {
        let (st1, prefix) = lower_seq(st, stmts.drop_last());
        let (st2, stmt) = lower_stmt(st1, stmts.last());
        (st2, prefix.push(stmt))
    }
}

/// Lowers call arguments, in order.
pub open spec fn lower_args(st: LowerState, args: Seq<Expr>) -> (LowerState, Seq<ExprView>)
    decreases args, 3int,
{
    if args.len() == 0 {
        (st, Seq::empty())
    } else {
        let (st1, prefix) = lower_args(st, args.drop_last());
        let (st2, arg) = lower_expr(st1, args.last(), ExprArea::Arg);
        (st2, prefix.push(arg))
    }
}

/// Lowers a statement: an expression at the global scope is printed.
pub open spec fn lower_stmt(st: LowerState, e: Expr) -> (LowerState, StmtView)
    decreases e, 1int,
{
    let (st1, node) = lower_node(st, e);
    match node {
        NodeView::Stmt(stmt) => (st1, stmt),
        NodeView::Expr(expr) => if st1.scopes.scopes.len() == 0 {
            (st1, StmtView::Print(expr))
        } else {
            (st1, StmtView::Expr(expr))
        },
    }
}

/// Lowers an expression in an area where a statement is an error.
pub open spec fn lower_expr(st: LowerState, e: Expr, area: ExprArea) -> (LowerState, ExprView)
    decreases e, 1int,
{
    let (st1, node) = lower_node(st, e);
    match node {
        NodeView::Stmt(_) => (reported(st1, ErrorKind::UsedStmt(area)), error_expr_view()),
        NodeView::Expr(expr) => (st1, expr),
    }
}

/// Lowers an identifier.
pub open spec fn lower_ident(st: LowerState, symbol: Symbol) -> (LowerState, ExprView) {
    let scopes = ScopeStackView { locals: st.scopes.locals_after_resolve(symbol), ..st.scopes };
    match st.scopes.resolve(symbol) {
        None => (reported(st, ErrorKind::UndefinedVariable(symbol)), error_expr_view()),
        Some(Variable::Global) => (with_scopes(st, scopes), ExprView::Global(symbol)),
        Some(Variable::Local(local)) => (with_scopes(st, scopes), ExprView::Local(local)),
    }
}

/// Lowers a block: its statements are lowered in a new scope, and a final
/// expression statement becomes the block's value.
pub open spec fn lower_block(st: LowerState, stmts: Seq<Expr>) -> (LowerState, NodeView)
    decreases stmts, 4int,
{
    let (st1, lowered) = lower_seq(with_scopes(st, st.scopes.pushed_block()), stmts);
    let st2 = with_scopes(st1, st1.scopes.popped_block());
    if lowered.len() == 0 {
        (st2, NodeView::Stmt(StmtView::Block(Seq::empty())))
    } else {
        match lowered.last() {
            StmtView::Expr(expr) => (
                st2,
                NodeView::Expr(ExprView::Block(lowered.drop_last(), Box::new(expr))),
            ),
            _ => (st2, NodeView::Stmt(StmtView::Block(lowered))),
        }
    }
}

/// Declares an assigned symbol with its lowered value.
pub open spec fn declare_assigned(st: LowerState, symbol: Symbol, value: ExprView) -> (
    LowerState,
    StmtView,
) {
    let (scopes, variable) = st.scopes.declared(symbol);
    match variable {
        None => (reported(st, ErrorKind::AlreadyDefinedVariable(symbol)), error_stmt_view()),
        Some(Variable::Global) => (with_scopes(st, scopes), StmtView::AssignGlobal(symbol, value)),
        Some(Variable::Local(local)) => (
            with_scopes(st, scopes),
            StmtView::DefineLocal(local, value),
        ),
    }
}

/// Lowers a function: its parameters are declared in a new function scope
/// and its body is lowered there.
pub open spec fn lower_function(st: LowerState, params: Seq<Expr>, body: Expr) -> (
    LowerState,
    ExprView,
)
    decreases body, 2int,
{
    match declare_params(pushed_function(st.scopes), params) {
        Err((scopes, error)) => (
            reported(with_scopes(st, popped_function(scopes)), error),
            error_expr_view(),
        ),
        Ok((scopes, locals)) => {
            let (st1, lowered_body) = lower_expr(
                with_scopes(st, scopes),
                body,
                ExprArea::FunctionBody,
            );
            (
                with_scopes(st1, popped_function(st1.scopes)),
                ExprView::Function(locals, Box::new(lowered_body)),
            )
        },
    }
}

/// Lowers an expression to a statement or an expression.
pub open spec fn lower_node(st: LowerState, e: Expr) -> (LowerState, NodeView)
    decreases e, 0int,
{
    match e {
        Expr::Literal(literal) => (st, NodeView::Expr(ExprView::Literal(literal))),
        Expr::Ident(symbol) => {
            let (st1, expr) = lower_ident(st, symbol);
            (st1, NodeView::Expr(expr))
        },
        Expr::Paren(inner) => {
            let (st1, expr) = lower_expr(st, *inner, ExprArea::Paren);
            (st1, NodeView::Expr(expr))
        },
        Expr::Tuple(_) => (reported(st, ErrorKind::TupleValue), NodeView::Expr(error_expr_view())),
        Expr::Block(stmts) => lower_block(st, stmts@),
        Expr::Assign(target, source) => match *target {
            Expr::Ident(symbol) => {
                let (st1, value) = lower_expr(st, *source, ExprArea::AssignSource);
                let (st2, stmt) = declare_assigned(st1, symbol, value);
                (st2, NodeView::Stmt(stmt))
            },
            Expr::Call(callee, args) => match *callee {
                Expr::Ident(symbol) => {
                    let (st1, value) = lower_function(st, args@, *source);
                    let (st2, stmt) = declare_assigned(st1, symbol, value);
                    (st2, NodeView::Stmt(stmt))
                },
                _ => (
                    reported(st, ErrorKind::InvalidFunctionName),
                    NodeView::Stmt(error_stmt_view()),
                ),
            },
            _ => (reported(st, ErrorKind::InvalidAssignTarget), NodeView::Stmt(error_stmt_view())),
        },
        Expr::Function(params, body) => {
            let (st1, expr) = lower_function(st, params@, *body);
            (st1, NodeView::Expr(expr))
        },
        Expr::Call(callee, args) => {
            let (st1, lowered_callee) = lower_expr(st, *callee, ExprArea::Callee);
            let (st2, lowered_args) = lower_args(st1, args@);
            (st2, NodeView::Expr(ExprView::Call(Box::new(lowered_callee), lowered_args)))
        },
        Expr::Unary(op, rhs) => {
            let (st1, lowered_rhs) = lower_expr(st, *rhs, ExprArea::Operand);
            (st1, NodeView::Expr(ExprView::Unary(op, Box::new(lowered_rhs))))
        },
        Expr::Binary(op, lhs, rhs) => {
            let (st1, lowered_lhs) = lower_expr(st, *lhs, ExprArea::Operand);
            let (st2, lowered_rhs) = lower_expr(st1, *rhs, ExprArea::Operand);
            (
                st2,
                NodeView::Expr(
                    ExprView::Binary(op, Box::new(lowered_lhs), Box::new(lowered_rhs)),
                ),
            )
        },
        Expr::Logic(op, lhs, rhs) => {
            let (st1, lowered_lhs) = lower_expr(st, *lhs, ExprArea::Operand);
            let (st2, lowered_rhs) = lower_expr(st1, *rhs, ExprArea::Operand);
            (st2, NodeView::Expr(logic_view(op, lowered_lhs, lowered_rhs)))
        },
        Expr::Cond(cond, then_expr, else_expr) => {
            let (st1, lowered_cond) = lower_expr(st, *cond, ExprArea::Condition);
            let (st2, lowered_then) = lower_expr(st1, *then_expr, ExprArea::Operand);
            let (st3, lowered_else) = lower_expr(st2, *else_expr, ExprArea::Operand);
            (
                st3,
                NodeView::Expr(
                    ExprView::Cond(
                        Box::new(lowered_cond),
                        Box::new(lowered_then),
                        Box::new(lowered_else),
                    ),
                ),
            )
        },
    }
}

/// A short-circuiting logical operation as a conditional: the right-hand
/// side is compared with `true`, which checks its type at run time.
pub open spec fn logic_view(op: LogicOp, lhs: ExprView, rhs: ExprView) -> ExprView {
    let checked_rhs = ExprView::Binary(
        BinOp::Equal,
        Box::new(rhs),
        Box::new(ExprView::Literal(Literal::Bool(true))),
    );
    match op {
        LogicOp::And => ExprView::Cond(
            Box::new(lhs),
            Box::new(checked_rhs),
            Box::new(ExprView::Literal(Literal::Bool(false))),
        ),
        LogicOp::Or => ExprView::Cond(
            Box::new(lhs),
            Box::new(ExprView::Literal(Literal::Bool(true))),
            Box::new(checked_rhs),
        ),
    }
}

} // verus!
