use vstd::prelude::*;

use super::super::ir::{expr_view, stmt_view, Expr, ExprView, Stmt, StmtView};

verus! {

/// An [`Ir`][super::super::ir::Ir] node which is either an [`Expr`] or a
/// [`Stmt`].
pub enum Node {
    /// A [`Stmt`].
    Stmt(Stmt),
    /// An [`Expr`].
    Expr(Expr),
}

/// The abstract value of a [`Node`].
pub enum NodeView {
    Stmt(StmtView),
    Expr(ExprView),
}

/// The abstract value of a [`Node`].
pub open spec fn node_view(node: Node) -> NodeView {
    match node {
        Node::Stmt(stmt) => NodeView::Stmt(stmt_view(stmt)),
        Node::Expr(expr) => NodeView::Expr(expr_view(expr)),
    }
}

} // verus!
