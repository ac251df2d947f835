use vstd::prelude::*;

use crate::ast::{BinOp, Literal, UnOp};
use crate::locals::Local;
use crate::symbols::Symbol;

verus! {

/// An intermediate representation of a program.
#[derive(Debug)]
pub struct Ir(pub Vec<Stmt>);

/// A statement.
#[derive(Debug)]
pub enum Stmt {
    /// A block `Stmt`.
    Block(Vec<Stmt>),
    /// A global variable assignment.
    AssignGlobal(Symbol, Box<Expr>),
    /// A local variable definition.
    DefineLocal(Local, Box<Expr>),
    /// An implicit print.
    Print(Box<Expr>),
    /// An `Expr`.
    Expr(Box<Expr>),
}

/// An expression.
#[derive(Debug)]
pub enum Expr {
    /// A [`Literal`].
    Literal(Literal),
    /// A global variable.
    Global(Symbol),
    /// A local variable.
    Local(Local),
    /// A block `Expr`: statements followed by a result.
    Block(Vec<Stmt>, Box<Expr>),
    /// A function.
    Function(Vec<Local>, Box<Expr>),
    /// A function call.
    Call(Box<Expr>, Vec<Expr>),
    /// A unary operation.
    Unary(UnOp, Box<Expr>),
    /// A binary operation.
    Binary(BinOp, Box<Expr>, Box<Expr>),
    /// A ternary conditional.
    Cond(Box<Expr>, Box<Expr>, Box<Expr>),
}

/// The abstract value of a [`Stmt`].
pub enum StmtView {
    Block(Seq<StmtView>),
    AssignGlobal(Symbol, ExprView),
    DefineLocal(Local, ExprView),
    Print(ExprView),
    Expr(ExprView),
}

/// The abstract value of an [`Expr`].
pub enum ExprView {
    Literal(Literal),
    Global(Symbol),
    Local(Local),
    Block(Seq<StmtView>, Box<ExprView>),
    Function(Seq<Local>, Box<ExprView>),
    Call(Box<ExprView>, Seq<ExprView>),
    Unary(UnOp, Box<ExprView>),
    Binary(BinOp, Box<ExprView>, Box<ExprView>),
    Cond(Box<ExprView>, Box<ExprView>, Box<ExprView>),
}

/// The abstract values of a sequence of statements.
pub open spec fn stmts_view(stmts: Seq<Stmt>) -> Seq<StmtView>
    decreases stmts,
{
    if stmts.len() == 0 {
        Seq::empty()
    } else {
        stmts_view(stmts.drop_last()).push(stmt_view(stmts.last()))
    }
}

/// The abstract values of a sequence of expressions.
pub open spec fn exprs_view(exprs: Seq<Expr>) -> Seq<ExprView>
    decreases exprs,
{
    if exprs.len() == 0 {
        Seq::empty()
    } else {
        exprs_view(exprs.drop_last()).push(expr_view(exprs.last()))
    }
}

/// The abstract value of a [`Stmt`].
pub open spec fn stmt_view(stmt: Stmt) -> StmtView
    decreases stmt,
{
    match stmt {
        Stmt::Block(stmts) => StmtView::Block(stmts_view(stmts@)),
        Stmt::AssignGlobal(symbol, value) => StmtView::AssignGlobal(symbol, expr_view(*value)),
        Stmt::DefineLocal(local, value) => StmtView::DefineLocal(local, expr_view(*value)),
        Stmt::Print(value) => StmtView::Print(expr_view(*value)),
        Stmt::Expr(value) => StmtView::Expr(expr_view(*value)),
    }
}

/// The abstract value of an [`Expr`].
pub open spec fn expr_view(expr: Expr) -> ExprView
    decreases expr,
{
    match expr {
        Expr::Literal(literal) => ExprView::Literal(literal),
        Expr::Global(symbol) => ExprView::Global(symbol),
        Expr::Local(local) => ExprView::Local(local),
        Expr::Block(stmts, value) => ExprView::Block(stmts_view(stmts@), Box::new(expr_view(*value))),
        Expr::Function(params, body) => ExprView::Function(params@, Box::new(expr_view(*body))),
        Expr::Call(callee, args) => ExprView::Call(Box::new(expr_view(*callee)), exprs_view(args@)),
        Expr::Unary(op, rhs) => ExprView::Unary(op, Box::new(expr_view(*rhs))),
        Expr::Binary(op, lhs, rhs) => ExprView::Binary(
            op,
            Box::new(expr_view(*lhs)),
            Box::new(expr_view(*rhs)),
        ),
        Expr::Cond(cond, then_expr, else_expr) => ExprView::Cond(
            Box::new(expr_view(*cond)),
            Box::new(expr_view(*then_expr)),
            Box::new(expr_view(*else_expr)),
        ),
    }
}

/// The size of an expression: its number of nodes.
pub open spec fn expr_size(expr: Expr) -> nat
    decreases expr,
{
    1 + match expr {
        Expr::Literal(_) => 0,
        Expr::Global(_) => 0,
        Expr::Local(_) => 0,
        Expr::Block(stmts, value) => stmts_size(stmts@) + expr_size(*value),
        Expr::Function(_, body) => expr_size(*body),
        Expr::Call(callee, args) => expr_size(*callee) + exprs_size(args@),
        Expr::Unary(_, rhs) => expr_size(*rhs),
        Expr::Binary(_, lhs, rhs) => expr_size(*lhs) + expr_size(*rhs),
        Expr::Cond(cond, then_expr, else_expr) => expr_size(*cond) + expr_size(*then_expr)
            + expr_size(*else_expr),
    }
}

/// The size of a statement: its number of nodes.
pub open spec fn stmt_size(stmt: Stmt) -> nat
    decreases stmt,
{
    1 + match stmt {
        Stmt::Block(stmts) => stmts_size(stmts@),
        Stmt::AssignGlobal(_, value) => expr_size(*value),
        Stmt::DefineLocal(_, value) => expr_size(*value),
        Stmt::Print(value) => expr_size(*value),
        Stmt::Expr(value) => expr_size(*value),
    }
}

/// The total size of a sequence of statements.
pub open spec fn stmts_size(stmts: Seq<Stmt>) -> nat
    decreases stmts,
{
    if stmts.len() == 0 {
        0
    } else {
        stmts_size(stmts.drop_last()) + stmt_size(stmts.last())
    }
}

/// The total size of a sequence of expressions.
pub open spec fn exprs_size(exprs: Seq<Expr>) -> nat
    decreases exprs,
{
    if exprs.len() == 0 {
        0
    } else {
        exprs_size(exprs.drop_last()) + expr_size(exprs.last())
    }
}

/// A statement's size is bounded by the size of its sequence.
pub proof fn lemma_stmts_size_elem(stmts: Seq<Stmt>, i: int)
    requires
        0 <= i < stmts.len(),
    ensures
        stmt_size(stmts[i]) <= stmts_size(stmts),
    decreases stmts.len(),
{
    if i < stmts.len() - 1 {
        lemma_stmts_size_elem(stmts.drop_last(), i);
    }
}

/// An expression's size is bounded by the size of its sequence.
pub proof fn lemma_exprs_size_elem(exprs: Seq<Expr>, i: int)
    requires
        0 <= i < exprs.len(),
    ensures
        expr_size(exprs[i]) <= exprs_size(exprs),
    decreases exprs.len(),
{
    if i < exprs.len() - 1 {
        lemma_exprs_size_elem(exprs.drop_last(), i);
    }
}

/// The view of a prefix one longer is the view of the prefix, extended.
pub proof fn lemma_stmts_view_take(stmts: Seq<Stmt>, i: int)
    requires
        0 <= i < stmts.len(),
    ensures
        stmts_view(stmts.take(i + 1)) == stmts_view(stmts.take(i)).push(stmt_view(stmts[i])),
{
    assert(stmts.take(i + 1).drop_last() =~= stmts.take(i));
}

/// The view of a prefix one longer is the view of the prefix, extended.
pub proof fn lemma_exprs_view_take(exprs: Seq<Expr>, i: int)
    requires
        0 <= i < exprs.len(),
    ensures
        exprs_view(exprs.take(i + 1)) == exprs_view(exprs.take(i)).push(expr_view(exprs[i])),
{
    assert(exprs.take(i + 1).drop_last() =~= exprs.take(i));
}

/// The view of a sequence has one element per element.
pub proof fn lemma_exprs_view_len(exprs: Seq<Expr>)
    ensures
        exprs_view(exprs).len() == exprs.len(),
    decreases exprs.len(),
{
    if exprs.len() > 0 {
        lemma_exprs_view_len(exprs.drop_last());
    }
}

/// The view of a prefix is the prefix of the view.
pub proof fn lemma_stmts_view_prefix(stmts: Seq<Stmt>, k: int)
    requires
        0 <= k <= stmts.len(),
    ensures
        stmts_view(stmts.take(k)) == stmts_view(stmts).take(k),
        stmts_view(stmts).len() == stmts.len(),
    decreases stmts.len(),
{
    if stmts.len() > 0 {
        if k < stmts.len() {
            assert(stmts.drop_last().take(k) =~= stmts.take(k));
            lemma_stmts_view_prefix(stmts.drop_last(), k);
            assert(stmts_view(stmts).take(k) =~= stmts_view(stmts.drop_last()).take(k));
        } else {
            lemma_stmts_view_prefix(stmts.drop_last(), 0);
            assert(stmts.take(k) =~= stmts);
            assert(stmts_view(stmts).take(k) =~= stmts_view(stmts));
        }
    } else {
        assert(stmts.take(k) =~= stmts);
        assert(stmts_view(stmts).take(k) =~= stmts_view(stmts));
    }
}

/// The view of a prefix is the prefix of the view.
pub proof fn lemma_exprs_view_prefix(exprs: Seq<Expr>, k: int)
    requires
        0 <= k <= exprs.len(),
    ensures
        exprs_view(exprs.take(k)) == exprs_view(exprs).take(k),
        exprs_view(exprs).len() == exprs.len(),
    decreases exprs.len(),
{
    if exprs.len() > 0 {
        if k < exprs.len() {
            assert(exprs.drop_last().take(k) =~= exprs.take(k));
            lemma_exprs_view_prefix(exprs.drop_last(), k);
            assert(exprs_view(exprs).take(k) =~= exprs_view(exprs.drop_last()).take(k));
        } else {
            lemma_exprs_view_prefix(exprs.drop_last(), 0);
            assert(exprs.take(k) =~= exprs);
            assert(exprs_view(exprs).take(k) =~= exprs_view(exprs));
        }
    } else {
        assert(exprs.take(k) =~= exprs);
        assert(exprs_view(exprs).take(k) =~= exprs_view(exprs));
    }
}

} // verus!
