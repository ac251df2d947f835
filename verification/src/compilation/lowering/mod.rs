pub mod errors;
pub mod meaning;
pub mod monotone;
pub mod nodes;
pub mod semantics;

use vstd::prelude::*;

use crate::ast::{Ast, BinOp, Expr, Literal, LogicOp, UnOp};
use crate::compilation::ir::{self, Ir, expr_view, exprs_view, stmt_view, stmts_view, ExprView, StmtView};
use crate::lower::scopes::{ScopeStack, ScopeStackView, Variable};
use crate::locals::{Local, LocalTable};
use crate::symbols::Symbol;

use self::errors::{ErrorKind, ExprArea};
use self::nodes::{node_view, Node, NodeView};
use self::semantics::{
    declare_params, error_expr_view, error_stmt_view, logic_view, lower_args, lower_block,
    lower_expr, lower_function, lower_ident, lower_node, lower_seq, lower_stmt, max, nesting,
    pushed_function, reported, declare_globals, initial_scopes, seq_nesting, size, seq_size, lemma_seq_size_elem, lemma_declare_params_failure,
    LowerState,
};

verus! {

/// An error caught while lowering an [`Ast`](crate::ast::Ast) to IR.
#[derive(Debug)]
pub struct LoweringError(pub Box<ErrorKind>);

/// Whether the scopes are ready for lowering an expression: they are
/// consistent, new locals go to the current function's scope, and entering
/// the expression's nested functions cannot overflow the function depth.
pub open spec fn ready(v: ScopeStackView, nest: nat) -> bool {
    &&& v.wf()
    &&& v.current_scope_at_depth()
    &&& v.function_depth + nest < usize::MAX
}

/// Lowering leaves the shape of the scopes as it found them: the same
/// function depth and the same open scopes (whose contents may have grown).
pub open spec fn same_shape(before: ScopeStackView, after: ScopeStackView) -> bool {
    &&& after.wf()
    &&& after.current_scope_at_depth()
    &&& after.function_depth == before.function_depth
    &&& after.scope_depths == before.scope_depths
    &&& after.scopes.len() == before.scopes.len()
}

/// No symbol occurs twice.
pub open spec fn symbols_distinct(symbols: Seq<Symbol>) -> bool {
    forall|i: int, j: int| 0 <= i < j < symbols.len() ==> symbols[i] != symbols[j]
}

/// Lowers an [`Ast`] to [`Ir`] with the symbols of the defined global
/// variables and a [`LocalTable`]. This function returns a [`LoweringError`]
/// (the first error found) if the [`Ast`] could not be lowered.
pub fn lower_ast(ast: &Ast, global_symbols: &Vec<Symbol>, locals: &mut LocalTable) -> (res: Result<Ir, LoweringError>)
    requires
        symbols_distinct(global_symbols@),
        seq_nesting(ast.0@) < usize::MAX,
    ensures
        ({
            let st0 = LowerState { scopes: initial_scopes(old(locals)@, global_symbols@), error: None };
            let (st1, stmts) = lower_seq(st0, ast.0@);
            &&& final(locals)@ == st1.scopes.locals
            &&& st1.scopes.scopes.len() == 0
            &&& match res {
                Ok(ir) => st1.error is None && stmts_view(ir.0@) == stmts,
                Err(error) => st1.error == Some(*error.0),
            }
        }),
{
    let mut table = LocalTable::new();
    std::mem::swap(&mut table, locals);
    let mut scopes = ScopeStack::new(table);
    let ghost empty = scopes@;
    let mut i: usize = 0;
    proof {
        assert(global_symbols@.take(0) =~= Seq::<Symbol>::empty());
    }
    while i < global_symbols.len()
        invariant
            i <= global_symbols.len(),
            symbols_distinct(global_symbols@),
            scopes@.wf(),
            scopes@.scopes.len() == 0,
            scopes@.scope_depths.len() == 0,
            scopes@.function_depth == 0,
            scopes@ == declare_globals(empty, global_symbols@.take(i as int)),
            scopes@.globals == global_symbols@.take(i as int),
        decreases global_symbols.len() - i,
    {
        proof {
            assert(global_symbols@.take(i as int + 1).drop_last() =~= global_symbols@.take(i as int));
            assert(!scopes@.globals.contains(global_symbols@[i as int]));
        }
        let variable = scopes.declare_variable(global_symbols[i]);
        proof {
            assert(scopes@.globals =~= global_symbols@.take(i as int + 1));
        }
        i = i + 1;
    }
    proof {
        assert(global_symbols@.take(i as int) =~= global_symbols@);
    }
    let mut lowerer = Lowerer::new(scopes);
    let stmts = lowerer.lower_sequence(&ast.0);
    let Lowerer { scopes, error } = lowerer;
    *locals = scopes.into_locals();
    match error {
        None => Ok(Ir(stmts)),
        Some(error) => Err(error),
    }
}

/// A structure which lowers an [`Ast`](crate::ast::Ast) to IR.
pub struct Lowerer {
    /// The [`ScopeStack`].
    scopes: ScopeStack,
    /// The first [`LoweringError`], if any.
    error: Option<LoweringError>,
}

impl View for Lowerer {
    type V = LowerState;

    closed spec fn view(&self) -> LowerState {
        LowerState {
            scopes: self.scopes@,
            error: match self.error {
                Some(error) => Some(*error.0),
                None => None,
            },
        }
    }
}

impl Lowerer {
    /// Creates a new `Lowerer` from a [`ScopeStack`].
    pub fn new(scopes: ScopeStack) -> (lowerer: Self)
        ensures
            lowerer@ == (LowerState { scopes: scopes@, error: None }),
    {
        Lowerer { scopes, error: None }
    }

    /// Lowers a sequence of statement [`Expr`]s to a sequence of
    /// [`ir::Stmt`]s.
    fn lower_sequence(&mut self, stmts: &Vec<Expr>) -> (lowered: Vec<ir::Stmt>)
        requires
            ready(old(self)@.scopes, seq_nesting(stmts@)),
        ensures
            same_shape(old(self)@.scopes, final(self)@.scopes),
            (final(self)@, stmts_view(lowered@)) == lower_seq(old(self)@, stmts@),
        decreases seq_size(stmts@), 2int,
    {
        let mut lowered_stmts: Vec<ir::Stmt> = Vec::new();
        let mut i: usize = 0;
        proof {
            assert(stmts@.take(0) =~= Seq::<Expr>::empty());
        }
        while i < stmts.len()
            invariant
                i <= stmts.len(),
                ready(old(self)@.scopes, seq_nesting(stmts@)),
                same_shape(old(self)@.scopes, self@.scopes),
                (self@, stmts_view(lowered_stmts@)) == lower_seq(old(self)@, stmts@.take(i as int)),
            decreases stmts.len() - i,
        {
            proof {
                lemma_seq_nesting_elem(stmts@, i as int);
                lemma_seq_size_elem(stmts@, i as int);
                assert(stmts@.take(i as int + 1).drop_last() =~= stmts@.take(i as int));
                assert(stmts@.take(i as int + 1).last() == stmts@[i as int]);
            }
            let stmt = self.lower_stmt(&stmts[i]);
            let ghost before = lowered_stmts@;
            lowered_stmts.push(stmt);
            proof {
                assert(lowered_stmts@.drop_last() =~= before);
            }
            i = i + 1;
        }
        proof {
            assert(stmts@.take(i as int) =~= stmts@);
        }
        lowered_stmts
    }

    /// Lowers a statement [`Expr`] to an [`ir::Stmt`].
    fn lower_stmt(&mut self, stmt: &Expr) -> (lowered: ir::Stmt)
        requires
            ready(old(self)@.scopes, nesting(*stmt)),
        ensures
            same_shape(old(self)@.scopes, final(self)@.scopes),
            (final(self)@, stmt_view(lowered)) == lower_stmt(old(self)@, *stmt),
        decreases size(*stmt), 1int,
    {
        match self.lower_node(stmt) {
            Node::Stmt(stmt) => stmt,
            Node::Expr(expr) => {
                if self.scopes.is_global_scope() {
                    ir::Stmt::Print(Box::new(expr))
                } else {
                    ir::Stmt::Expr(Box::new(expr))
                }
            },
        }
    }

    /// Lowers an [`Expr`] to an [`ir::Expr`] in an [`ExprArea`].
    fn lower_expr(&mut self, expr: &Expr, area: ExprArea) -> (lowered: ir::Expr)
        requires
            ready(old(self)@.scopes, nesting(*expr)),
        ensures
            same_shape(old(self)@.scopes, final(self)@.scopes),
            (final(self)@, expr_view(lowered)) == lower_expr(old(self)@, *expr, area),
        decreases size(*expr), 1int,
    {
        match self.lower_node(expr) {
            Node::Stmt(_) => self.error_expr(ErrorKind::from(area)),
            Node::Expr(expr) => expr,
        }
    }

    /// Lowers an [`Expr`] to a [`Node`].
    fn lower_node(&mut self, expr: &Expr) -> (node: Node)
        requires
            ready(old(self)@.scopes, nesting(*expr)),
        ensures
            same_shape(old(self)@.scopes, final(self)@.scopes),
            (final(self)@, node_view(node)) == lower_node(old(self)@, *expr),
        decreases size(*expr), 0int,
    {
        let expr = match expr {
            Expr::Literal(literal) => ir::Expr::Literal(*literal),
            Expr::Ident(symbol) => self.lower_expr_ident(*symbol),
            Expr::Paren(inner) => self.lower_expr(inner, ExprArea::Paren),
            Expr::Tuple(_) => self.error_expr(ErrorKind::TupleValue),
            Expr::Block(stmts) => return self.lower_expr_block(stmts),
            Expr::Assign(target, source) => return Node::Stmt(self.lower_expr_assign(target, source)),
            Expr::Function(params, body) => self.lower_expr_function(params, body),
            Expr::Call(callee, args) => self.lower_expr_call(callee, args),
            Expr::Unary(op, rhs) => self.lower_expr_unary(*op, rhs),
            Expr::Binary(op, lhs, rhs) => self.lower_expr_binary(*op, lhs, rhs),
            Expr::Logic(op, lhs, rhs) => self.lower_expr_logic(*op, lhs, rhs),
            Expr::Cond(cond, then_expr, else_expr) => self.lower_expr_cond(cond, then_expr, else_expr),
        };
        Node::Expr(expr)
    }

    /// Lowers an identifier [`Expr`] to an [`ir::Expr`].
    fn lower_expr_ident(&mut self, symbol: Symbol) -> (lowered: ir::Expr)
        requires
            ready(old(self)@.scopes, 0),
        ensures
            same_shape(old(self)@.scopes, final(self)@.scopes),
            (final(self)@, expr_view(lowered)) == lower_ident(old(self)@, symbol),
    {
        match self.scopes.variable(symbol) {
            None => self.error_expr(ErrorKind::UndefinedVariable(symbol)),
            Some(Variable::Global) => ir::Expr::Global(symbol),
            Some(Variable::Local(local)) => ir::Expr::Local(local),
        }
    }

    /// Lowers a block [`Expr`] to a [`Node`].
    fn lower_expr_block(&mut self, stmts: &Vec<Expr>) -> (node: Node)
        requires
            ready(old(self)@.scopes, seq_nesting(stmts@)),
        ensures
            same_shape(old(self)@.scopes, final(self)@.scopes),
            (final(self)@, node_view(node)) == lower_block(old(self)@, stmts@),
        decreases seq_size(stmts@), 3int,
    {
        self.scopes.push_block_scope();
        let mut stmts = self.lower_sequence(stmts);
        self.scopes.pop_block_scope();
        proof {
            assert(self@.scopes.scope_depths =~= old(self)@.scopes.scope_depths);
        }
        let ghost all = stmts@;
        proof {
            if all.len() > 0 {
                assert(stmts_view(all).last() == stmt_view(all.last()));
                assert(stmts_view(all).drop_last() == stmts_view(all.drop_last()));
            }
        }
        match stmts.pop() {
            None => {
                let block = Vec::new();
                proof {
                    assert(stmts_view(block@) =~= Seq::<StmtView>::empty());
                }
                Node::Stmt(ir::Stmt::Block(block))
            },
            Some(ir::Stmt::Expr(expr)) => {
                proof {
                    assert(stmts@ =~= all.drop_last());
                }
                Node::Expr(ir::Expr::Block(stmts, expr))
            },
            Some(stmt) => {
                stmts.push(stmt);
                proof {
                    assert(stmts@ =~= all);
                }
                Node::Stmt(ir::Stmt::Block(stmts))
            },
        }
    }

    /// Lowers an assignment [`Expr`] to an [`ir::Stmt`].
    fn lower_expr_assign(&mut self, target: &Expr, source: &Expr) -> (lowered: ir::Stmt)
        requires
            ready(old(self)@.scopes, 1 + nesting(*source)),
        ensures
            same_shape(old(self)@.scopes, final(self)@.scopes),
            (final(self)@, NodeView::Stmt(stmt_view(lowered))) == lower_node(
                old(self)@,
                Expr::Assign(Box::new(*target), Box::new(*source)),
            ),
        decreases size(*target) + size(*source), 2int,
    {
        let (symbol, value) = match target {
            Expr::Ident(symbol) => (*symbol, self.lower_expr(source, ExprArea::AssignSource)),
            Expr::Call(callee, args) => {
                let symbol = match &**callee {
                    Expr::Ident(symbol) => *symbol,
                    _ => return self.error_stmt(ErrorKind::InvalidFunctionName),
                };
                (symbol, self.lower_expr_function(args, source))
            },
            _ => return self.error_stmt(ErrorKind::InvalidAssignTarget),
        };
        match self.scopes.declare_variable(symbol) {
            None => self.error_stmt(ErrorKind::AlreadyDefinedVariable(symbol)),
            Some(Variable::Global) => ir::Stmt::AssignGlobal(symbol, Box::new(value)),
            Some(Variable::Local(local)) => ir::Stmt::DefineLocal(local, Box::new(value)),
        }
    }

    /// Lowers a function [`Expr`] to an [`ir::Expr`].
    fn lower_expr_function(&mut self, params: &Vec<Expr>, body: &Expr) -> (lowered: ir::Expr)
        requires
            ready(old(self)@.scopes, 1 + nesting(*body)),
        ensures
            same_shape(old(self)@.scopes, final(self)@.scopes),
            (final(self)@, expr_view(lowered)) == lower_function(old(self)@, params@, *body),
        decreases size(*body), 2int,
    {
        self.scopes.push_function_scope();
        let ghost start = self@.scopes;
        proof {
            let old_depths = old(self)@.scopes.scope_depths;
            assert(start.scope_depths == old_depths.push(start.function_depth));
            if old_depths.len() > 0 {
                assert(start.scope_depths[start.scopes.len() - 2] == old_depths.last());
            }
        }
        let mut lowered_params: Vec<Local> = Vec::new();
        let mut i: usize = 0;
        proof {
            assert(params@.take(0) =~= Seq::<Expr>::empty());
        }
        while i < params.len()
            invariant
                i <= params.len(),
                start == pushed_function(old(self)@.scopes),
                self@.error == old(self)@.error,
                same_shape(start, self@.scopes),
                start.innermost_is_function_scope(),
                ready(old(self)@.scopes, 1 + nesting(*body)),
                start.scope_depths == old(self)@.scopes.scope_depths.push(start.function_depth),
                start.function_depth == old(self)@.scopes.function_depth + 1,
                start.scopes.len() == old(self)@.scopes.scopes.len() + 1,
                declare_params(start, params@.take(i as int)) == Ok::<
                    (ScopeStackView, Seq<Local>),
                    (ScopeStackView, ErrorKind),
                >((self@.scopes, lowered_params@)),
            decreases params.len() - i,
        {
            proof {
                assert(params@.take(i as int + 1).drop_last() =~= params@.take(i as int));
                assert(params@.take(i as int + 1).last() == params@[i as int]);
            }
            let symbol = match &params[i] {
                Expr::Ident(symbol) => *symbol,
                _ => {
                    self.scopes.pop_function_scope();
                    proof {
                        assert(self@.scopes.scope_depths =~= old(self)@.scopes.scope_depths);
                        lemma_declare_params_failure(start, params@, i as int + 1);
                    }
                    return self.error_expr(ErrorKind::InvalidParam);
                },
            };
            match self.scopes.declare_variable(symbol) {
                Some(Variable::Local(local)) => lowered_params.push(local),
                _ => {
                    self.scopes.pop_function_scope();
                    proof {
                        assert(self@.scopes.scope_depths =~= old(self)@.scopes.scope_depths);
                        lemma_declare_params_failure(start, params@, i as int + 1);
                    }
                    return self.error_expr(ErrorKind::DuplicateParam(symbol));
                },
            }
            i = i + 1;
        }
        proof {
            assert(params@.take(i as int) =~= params@);
        }
        let body = self.lower_expr(body, ExprArea::FunctionBody);
        self.scopes.pop_function_scope();
        proof {
            assert(self@.scopes.scope_depths =~= old(self)@.scopes.scope_depths);
        }
        ir::Expr::Function(lowered_params, Box::new(body))
    }

    /// Lowers a function call [`Expr`] to an [`ir::Expr`].
    fn lower_expr_call(&mut self, callee: &Expr, args: &Vec<Expr>) -> (lowered: ir::Expr)
        requires
            ready(old(self)@.scopes, max(nesting(*callee), seq_nesting(args@))),
        ensures
            same_shape(old(self)@.scopes, final(self)@.scopes),
            ({
                let (st1, lowered_callee) = lower_expr(old(self)@, *callee, ExprArea::Callee);
                let (st2, lowered_args) = lower_args(st1, args@);
                (final(self)@, expr_view(lowered)) == (st2, ExprView::Call(Box::new(lowered_callee), lowered_args))
            }),
        decreases size(*callee) + seq_size(args@), 2int,
    {
        let lowered_callee = self.lower_expr(callee, ExprArea::Callee);
        let ghost after_callee = self@;
        let mut lowered_args: Vec<ir::Expr> = Vec::new();
        let mut i: usize = 0;
        proof {
            assert(args@.take(0) =~= Seq::<Expr>::empty());
        }
        while i < args.len()
            invariant
                i <= args.len(),
                ready(old(self)@.scopes, max(nesting(*callee), seq_nesting(args@))),
                same_shape(old(self)@.scopes, self@.scopes),
                (self@, exprs_view(lowered_args@)) == lower_args(after_callee, args@.take(i as int)),
            decreases args.len() - i,
        {
            proof {
                lemma_seq_nesting_elem(args@, i as int);
                lemma_seq_size_elem(args@, i as int);
                assert(args@.take(i as int + 1).drop_last() =~= args@.take(i as int));
                assert(args@.take(i as int + 1).last() == args@[i as int]);
            }
            let arg = self.lower_expr(&args[i], ExprArea::Arg);
            let ghost before = lowered_args@;
            lowered_args.push(arg);
            proof {
                assert(lowered_args@.drop_last() =~= before);
            }
            i = i + 1;
        }
        proof {
            assert(args@.take(i as int) =~= args@);
        }
        ir::Expr::Call(Box::new(lowered_callee), lowered_args)
    }

    /// Lowers a unary [`Expr`] to an [`ir::Expr`].
    fn lower_expr_unary(&mut self, op: UnOp, rhs: &Expr) -> (lowered: ir::Expr)
        requires
            ready(old(self)@.scopes, nesting(*rhs)),
        ensures
            same_shape(old(self)@.scopes, final(self)@.scopes),
            ({
                let (st1, lowered_rhs) = lower_expr(old(self)@, *rhs, ExprArea::Operand);
                (final(self)@, expr_view(lowered)) == (st1, ExprView::Unary(op, Box::new(lowered_rhs)))
            }),
        decreases size(*rhs), 2int,
    {
        let rhs = self.lower_expr(rhs, ExprArea::Operand);
        ir::Expr::Unary(op, Box::new(rhs))
    }

    /// Lowers a binary [`Expr`] to an [`ir::Expr`].
    fn lower_expr_binary(&mut self, op: BinOp, lhs: &Expr, rhs: &Expr) -> (lowered: ir::Expr)
        requires
            ready(old(self)@.scopes, max(nesting(*lhs), nesting(*rhs))),
        ensures
            same_shape(old(self)@.scopes, final(self)@.scopes),
            ({
                let (st1, lowered_lhs) = lower_expr(old(self)@, *lhs, ExprArea::Operand);
                let (st2, lowered_rhs) = lower_expr(st1, *rhs, ExprArea::Operand);
                (final(self)@, expr_view(lowered)) == (st2, ExprView::Binary(op, Box::new(lowered_lhs), Box::new(lowered_rhs)))
            }),
        decreases size(*lhs) + size(*rhs), 2int,
    {
        let lhs = self.lower_expr(lhs, ExprArea::Operand);
        let rhs = self.lower_expr(rhs, ExprArea::Operand);
        ir::Expr::Binary(op, Box::new(lhs), Box::new(rhs))
    }

    /// Lowers a short-circuiting logical [`Expr`] to an [`ir::Expr`].
    fn lower_expr_logic(&mut self, op: LogicOp, lhs: &Expr, rhs: &Expr) -> (lowered: ir::Expr)
        requires
            ready(old(self)@.scopes, max(nesting(*lhs), nesting(*rhs))),
        ensures
            same_shape(old(self)@.scopes, final(self)@.scopes),
            ({
                let (st1, lowered_lhs) = lower_expr(old(self)@, *lhs, ExprArea::Operand);
                let (st2, lowered_rhs) = lower_expr(st1, *rhs, ExprArea::Operand);
                (final(self)@, expr_view(lowered)) == (st2, logic_view(op, lowered_lhs, lowered_rhs))
            }),
        decreases size(*lhs) + size(*rhs), 2int,
    {
        let lhs = self.lower_expr(lhs, ExprArea::Operand);
        let rhs = self.lower_expr(rhs, ExprArea::Operand);
        // Compare the right-hand side with `true` for dynamic type checking.
        let ghost lhs_view = expr_view(lhs);
        let ghost rhs_view = expr_view(rhs);
        let rhs = ir::Expr::Binary(
            BinOp::Equal,
            Box::new(rhs),
            Box::new(ir::Expr::Literal(Literal::Bool(true))),
        );
        proof {
            reveal_with_fuel(expr_view, 3);
        }
        assert(expr_view(rhs) == ExprView::Binary(BinOp::Equal, Box::new(rhs_view), Box::new(ExprView::Literal(Literal::Bool(true)))));
        let (then_expr, else_expr) = match op {
            LogicOp::And => (rhs, ir::Expr::Literal(Literal::Bool(false))),
            LogicOp::Or => (ir::Expr::Literal(Literal::Bool(true)), rhs),
        };
        ir::Expr::Cond(Box::new(lhs), Box::new(then_expr), Box::new(else_expr))
    }

    /// Lowers a ternary conditional [`Expr`] to an [`ir::Expr`].
    fn lower_expr_cond(&mut self, cond: &Expr, then_expr: &Expr, else_expr: &Expr) -> (lowered: ir::Expr)
        requires
            ready(old(self)@.scopes, max(nesting(*cond), max(nesting(*then_expr), nesting(*else_expr)))),
        ensures
            same_shape(old(self)@.scopes, final(self)@.scopes),
            ({
                let (st1, lowered_cond) = lower_expr(old(self)@, *cond, ExprArea::Condition);
                let (st2, lowered_then) = lower_expr(st1, *then_expr, ExprArea::Operand);
                let (st3, lowered_else) = lower_expr(st2, *else_expr, ExprArea::Operand);
                (final(self)@, expr_view(lowered)) == (st3, ExprView::Cond(Box::new(lowered_cond), Box::new(lowered_then), Box::new(lowered_else)))
            }),
        decreases size(*cond) + size(*then_expr) + size(*else_expr), 2int,
    {
        let cond = self.lower_expr(cond, ExprArea::Condition);
        let then_expr = self.lower_expr(then_expr, ExprArea::Operand);
        let else_expr = self.lower_expr(else_expr, ExprArea::Operand);
        ir::Expr::Cond(Box::new(cond), Box::new(then_expr), Box::new(else_expr))
    }

    /// Reports an [`ErrorKind`] and returns a default [`ir::Stmt`].
    fn error_stmt(&mut self, error: ErrorKind) -> (stmt: ir::Stmt)
        ensures
            final(self)@ == reported(old(self)@, error),
            stmt_view(stmt) == error_stmt_view(),
    {
        self.report_error(error);
        let stmt = ir::Stmt::Block(Vec::new());
        proof {
            assert(stmts_view(Seq::<ir::Stmt>::empty()) =~= Seq::<StmtView>::empty());
        }
        stmt
    }

    /// Reports an [`ErrorKind`] and returns a default [`ir::Expr`].
    fn error_expr(&mut self, error: ErrorKind) -> (expr: ir::Expr)
        ensures
            final(self)@ == reported(old(self)@, error),
            expr_view(expr) == error_expr_view(),
    {
        self.report_error(error);
        ir::Expr::Literal(Literal::Number(0))
    }

    /// Reports an [`ErrorKind`]: the first reported error is kept.
    fn report_error(&mut self, error: ErrorKind)
        ensures
            final(self)@ == reported(old(self)@, error),
    {
        if self.error.is_none() {
            self.error = Some(LoweringError(Box::new(error)));
        }
    }
}

/// An element's nesting is bounded by the nesting of its sequence.
pub proof fn lemma_seq_nesting_elem(s: Seq<Expr>, i: int)
    requires
        0 <= i < s.len(),
    ensures
        nesting(s[i]) <= seq_nesting(s),
    decreases s.len(),
{
    if i < s.len() - 1 {
        lemma_seq_nesting_elem(s.drop_last(), i);
    }
}

} // verus!
