//! What a lowered short-circuiting operation computes: evaluated as a
//! conditional, `a || b` is `true` as soon as `a` is, `a && b` is `false` as
//! soon as `a` is, and otherwise each is the value of `b`.

use vstd::prelude::*;

use crate::ast::{BinOp, Literal, LogicOp};
use crate::compilation::ir::ExprView;

use super::semantics::logic_view;

verus! {

/// The Boolean value of an IR expression made of Boolean literals, equality
/// tests and conditionals, evaluated as the interpreter runs them; `None`
/// for any other expression, or where a condition or an equality test meets
/// something that is not a Boolean value.
pub open spec fn bool_value(expr: ExprView) -> Option<bool>
    decreases expr,
{
    match expr {
        ExprView::Literal(Literal::Bool(value)) => Some(value),
        ExprView::Binary(BinOp::Equal, lhs, rhs) => match (bool_value(*lhs), bool_value(*rhs)) {
            (Some(a), Some(b)) => Some(a == b),
            _ => None,
        },
        ExprView::Cond(cond, then_expr, else_expr) => match bool_value(*cond) {
            Some(true) => bool_value(*then_expr),
            Some(false) => bool_value(*else_expr),
            None => None,
        },
        _ => None,
    }
}

/// A lowered short-circuiting operation computes the operation: with Boolean
/// operands `a` and `b`, `a || b` gives `a || b` and `a && b` gives
/// `a && b`. It short-circuits: `||` with a left-hand side that is `true`
/// gives `true`, and `&&` with one that is `false` gives `false`, whatever
/// the right-hand side is. Otherwise the result is the right-hand side, and
/// a right-hand side that is not a Boolean value gives no value.
pub proof fn lemma_logic_computes_operation(op: LogicOp, lhs: ExprView, rhs: ExprView)
    ensures
        bool_value(lhs) == Some(true) && op is Or ==> bool_value(logic_view(op, lhs, rhs))
            == Some(true),
        bool_value(lhs) == Some(false) && op is And ==> bool_value(logic_view(op, lhs, rhs))
            == Some(false),
        bool_value(lhs) == Some(false) && op is Or ==> bool_value(logic_view(op, lhs, rhs))
            == bool_value(rhs),
        bool_value(lhs) == Some(true) && op is And ==> bool_value(logic_view(op, lhs, rhs))
            == bool_value(rhs),
        bool_value(lhs) is None ==> bool_value(logic_view(op, lhs, rhs)) is None,
        bool_value(lhs) is Some && bool_value(rhs) is Some ==> bool_value(logic_view(op, lhs, rhs))
            == Some(
            match op {
                LogicOp::Or => bool_value(lhs)->0 || bool_value(rhs)->0,
                LogicOp::And => bool_value(lhs)->0 && bool_value(rhs)->0,
            },
        ),
{
    let checked = ExprView::Binary(
        BinOp::Equal,
        Box::new(rhs),
        Box::new(ExprView::Literal(Literal::Bool(true))),
    );
    assert(bool_value(ExprView::Literal(Literal::Bool(true))) == Some(true));
    assert(bool_value(ExprView::Literal(Literal::Bool(false))) == Some(false));
    assert(bool_value(checked) == match bool_value(rhs) {
        Some(b) => Some(b == true),
        None => None,
    });
}

} // verus!
