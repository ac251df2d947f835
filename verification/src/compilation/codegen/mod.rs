pub mod semantics;
pub mod shape;
pub mod labels;
pub mod upvars;

use vstd::prelude::*;

use std::rc::Rc;

use crate::ast::{BinOp, Literal, UnOp};
use crate::cfg::{
    lemma_function_view, lemma_instructions_view_push, lemma_push_function_view, Cfg, Function,
    Instruction, Label, Terminator,
};
use crate::compilation::ir::{
    expr_size, expr_view, exprs_size, exprs_view, lemma_exprs_size_elem, lemma_exprs_view_prefix,
    lemma_exprs_view_take, lemma_stmts_size_elem, lemma_stmts_view_prefix, lemma_stmts_view_take,
    stmt_view, stmts_size, stmts_view, Expr, ExprView, Ir, Stmt, StmtView,
};
use crate::compile::stack::{Elem, StackFrame};
use crate::locals::{Data, Local, LocalTable};
use crate::symbols::Symbol;

use self::semantics::{
    current_block, drop_upvars, drop_values, emit, function_entry, gen_args, gen_expr, gen_local,
    gen_params, gen_program, gen_stmt, gen_stmts, initial_state, insert_block, lemma_args_ok,
    lemma_args_prefix_ok, lemma_cond_ok, lemma_expr_ok, lemma_first_position, lemma_params_prefix_ok,
    lemma_stmts_prefix_ok, new_context, pushed_scopes, pushed_temp, set_terminator, with_label,
    ContextView, GenState, extends, extends_locals, lemma_extends_trans, lemma_extends_locals_trans,
    lemma_scope_closes,
};
use self::upvars::UpvarStack;

verus! {

/// Whether a code generation state is consistent: the current label names a
/// block, and both stacks have ordered scopes within them.
pub open spec fn wf(st: GenState) -> bool {
    &&& st.function.label < st.function.blocks.len()
    &&& st.function.frame.wf()
    &&& st.upvars.wf()
}

/// Compiles [`Ir`] to a [`Cfg`] with a [`LocalTable`]. The program must
/// only use locals in scope, define locals only inside blocks, and nest
/// functions less deeply than `usize::MAX`. Every label in the result, and
/// in each function that it pushes, names a block of its own graph.
pub fn compile_ir(ir: &Ir, locals: &LocalTable) -> (cfg: Cfg)
    requires
        gen_program(locals@, stmts_view(ir.0@)).ok,
    ensures
        cfg@ == gen_program(locals@, stmts_view(ir.0@)).function.blocks,
        crate::cfg::graph_closed(cfg@),
{
    let mut compiler = Compiler::new(locals);
    compiler.compile_ir(ir);
    proof {
        self::labels::lemma_generated_program_closed(locals@, stmts_view(ir.0@));
    }
    compiler.into_cfg()
}

/// Context for compiling a [`Function`].
struct FunctionContext {
    /// The [`Cfg`].
    cfg: Cfg,
    /// The current [`Label`].
    label: Label,
    /// The [`StackFrame`].
    stack_frame: StackFrame,
    /// The minimum function depth where an accessed upvar was declared.
    min_upvar_function_depth: usize,
}

impl View for FunctionContext {
    type V = ContextView;

    closed spec fn view(&self) -> ContextView {
        ContextView {
            blocks: self.cfg@,
            label: self.label.0,
            frame: self.stack_frame@,
            min_upvar_function_depth: self.min_upvar_function_depth,
        }
    }
}

impl FunctionContext {
    /// Creates a new `FunctionContext` at a function depth.
    fn new(function_depth: usize) -> (context: Self)
        ensures
            context@ == new_context(function_depth),
    {
        FunctionContext {
            cfg: Cfg::new(),
            label: Label(0),
            stack_frame: StackFrame::new(),
            min_upvar_function_depth: function_depth,
        }
    }

    /// Marks an upvar being accessed at a function depth.
    fn access_upvar(&mut self, function_depth: usize)
        ensures
            final(self)@ == (ContextView {
                min_upvar_function_depth: if function_depth < old(self)@.min_upvar_function_depth {
                    function_depth
                } else {
                    old(self)@.min_upvar_function_depth
                },
                ..old(self)@
            }),
    {
        if function_depth < self.min_upvar_function_depth {
            self.min_upvar_function_depth = function_depth;
        }
    }
}

/// A structure which compiles a [`Cfg`] from [`Ir`].
struct Compiler<'loc> {
    /// The [`LocalTable`].
    locals: &'loc LocalTable,
    /// The [`UpvarStack`].
    upvars: UpvarStack,
    /// The current [`FunctionContext`].
    function: FunctionContext,
    /// The current function depth.
    function_depth: usize,
}

impl<'loc> View for Compiler<'loc> {
    type V = GenState;

    closed spec fn view(&self) -> GenState {
        GenState {
            function: self.function@,
            upvars: self.upvars@,
            function_depth: self.function_depth,
            ok: true,
        }
    }
}

impl<'loc> Compiler<'loc> {
    /// The table of locals that the compiler reads.
    closed spec fn table(&self) -> Seq<Data> {
        self.locals@
    }

    /// Creates a new `Compiler` from a [`LocalTable`].
    fn new(locals: &'loc LocalTable) -> (compiler: Self)
        ensures
            compiler@ == initial_state(),
            compiler.table() == locals@,
    {
        Compiler {
            locals,
            upvars: UpvarStack::new(),
            function: FunctionContext::new(0),
            function_depth: 0,
        }
    }

    /// Consumes the `Compiler` and converts it to a [`Cfg`].
    fn into_cfg(self) -> (cfg: Cfg)
        ensures
            cfg@ == self@.function.blocks,
    {
        self.function.cfg
    }

    /// Compiles [`Ir`].
    fn compile_ir(&mut self, ir: &Ir)
        requires
            old(self)@ == initial_state(),
            gen_program(old(self).table(), stmts_view(ir.0@)).ok,
        ensures
            final(self)@ == gen_program(old(self).table(), stmts_view(ir.0@)),
    {
        proof {
            assert(initial_state().function.frame.scope_offsets =~= Seq::<int>::empty());
            assert(initial_state().upvars.scope_offsets =~= Seq::<int>::empty());
        }
        self.compile_stmts(&ir.0);
    }

    /// Appends an [`Instruction`] to the current block.
    fn compile(&mut self, instruction: Instruction)
        requires
            wf(old(self)@),
        ensures
            final(self)@ == emit(old(self)@, crate::cfg::instruction_view(instruction)),
            final(self).table() == old(self).table(),
            wf(final(self)@),
    {
        let label = self.function.label;
        let block = self.function.cfg.basic_block_mut(label);
        let ghost before = block.instructions@;
        block.instructions.push(instruction);
        proof {
            lemma_instructions_view_push(before, instruction);
        }
    }

    /// Sets the current block's [`Terminator`] and returns the one it had.
    fn replace_terminator(&mut self, terminator: Terminator) -> (previous: Terminator)
        requires
            wf(old(self)@),
        ensures
            previous == current_block(old(self)@).terminator,
            final(self)@ == set_terminator(old(self)@, terminator),
            final(self).table() == old(self).table(),
            wf(final(self)@),
    {
        let label = self.function.label;
        let block = self.function.cfg.basic_block_mut(label);
        let previous = block.terminator;
        block.terminator = terminator;
        previous
    }

    /// Sets the current [`Label`].
    fn set_label(&mut self, label: Label)
        requires
            wf(old(self)@),
            label.0 < old(self)@.function.blocks.len(),
        ensures
            final(self)@ == with_label(old(self)@, label.0),
            final(self).table() == old(self).table(),
            wf(final(self)@),
    {
        self.function.label = label;
    }

    /// Inserts a new block and returns its [`Label`].
    fn insert_block(&mut self) -> (label: Label)
        requires
            wf(old(self)@),
        ensures
            label.0 == old(self)@.function.blocks.len(),
            final(self)@ == insert_block(old(self)@),
            final(self).table() == old(self).table(),
            wf(final(self)@),
    {
        self.function.cfg.insert_basic_block()
    }

    /// Appends an [`Instruction`] to drop a number of values, unless there
    /// are none.
    fn compile_drop(&mut self, count: usize)
        requires
            wf(old(self)@),
        ensures
            final(self)@ == drop_values(old(self)@, count),
            final(self).table() == old(self).table(),
            wf(final(self)@),
    {
        if count > 0 {
            self.compile(Instruction::Pop(count));
        }
    }

    /// Appends an [`Instruction`] to drop a number of upvars, unless there
    /// are none.
    fn compile_pop_upvars(&mut self, count: usize)
        requires
            wf(old(self)@),
        ensures
            final(self)@ == drop_upvars(old(self)@, count),
            final(self).table() == old(self).table(),
            wf(final(self)@),
    {
        if count > 0 {
            self.compile(Instruction::PopUpvars(count));
        }
    }

    /// Opens a scope in the upvar stack and in the stack frame.
    fn push_scopes(&mut self)
        requires
            wf(old(self)@),
        ensures
            final(self)@ == pushed_scopes(old(self)@),
            final(self).table() == old(self).table(),
            wf(final(self)@),
    {
        self.upvars.push_scope();
        self.function.stack_frame.push_scope();
    }

    /// Compiles a sequence of [`Stmt`]s.
    fn compile_stmts(&mut self, stmts: &Vec<Stmt>)
        requires
            wf(old(self)@),
            gen_stmts(old(self).table(), old(self)@, stmts_view(stmts@)).ok,
        ensures
            final(self)@ == gen_stmts(old(self).table(), old(self)@, stmts_view(stmts@)),
            final(self).table() == old(self).table(),
            wf(final(self)@),
            final(self)@.function_depth == old(self)@.function_depth,
            old(self)@.function.blocks.len() <= final(self)@.function.blocks.len(),
            extends_locals(old(self)@.function.frame, final(self)@.function.frame),
            extends(old(self)@.upvars, final(self)@.upvars),
        decreases stmts_size(stmts@), 3int,
    {
        let ghost table = self.table();
        let ghost start = self@;
        let mut i: usize = 0;
        proof {
            assert(stmts@.take(0) =~= Seq::<Stmt>::empty());
            assert(start.function.frame.elems.take(start.function.frame.elems.len() as int)
                =~= start.function.frame.elems);
            assert(start.upvars.elems.take(start.upvars.elems.len() as int) =~= start.upvars.elems);
        }
        while i < stmts.len()
            invariant
                i <= stmts.len(),
                table == self.table(),
                wf(self@),
                self@ == gen_stmts(table, start, stmts_view(stmts@.take(i as int))),
                gen_stmts(table, start, stmts_view(stmts@)).ok,
                self@.function_depth == start.function_depth,
                extends_locals(start.function.frame, self@.function.frame),
                extends(start.upvars, self@.upvars),
                start.function.blocks.len() <= self@.function.blocks.len(),
            decreases stmts.len() - i,
        {
            let ghost before = self@;
            proof {
                lemma_stmts_view_take(stmts@, i as int);
                lemma_stmts_size_elem(stmts@, i as int);
                lemma_stmts_view_prefix(stmts@, i as int + 1);
                lemma_stmts_prefix_ok(table, start, stmts_view(stmts@), i as int + 1);
                let prefix = stmts_view(stmts@.take(i as int));
                assert(prefix.push(stmt_view(stmts@[i as int])).drop_last() =~= prefix);
            }
            self.compile_stmt(&stmts[i]);
            proof {
                lemma_extends_locals_trans(start.function.frame, before.function.frame, self@.function.frame);
                lemma_extends_trans(start.upvars, before.upvars, self@.upvars);
            }
            i = i + 1;
        }
        proof {
            assert(stmts@.take(i as int) =~= stmts@);
        }
    }

    /// Compiles a [`Stmt`].
    fn compile_stmt(&mut self, stmt: &Stmt)
        requires
            wf(old(self)@),
            gen_stmt(old(self).table(), old(self)@, stmt_view(*stmt)).ok,
        ensures
            final(self)@ == gen_stmt(old(self).table(), old(self)@, stmt_view(*stmt)),
            final(self).table() == old(self).table(),
            wf(final(self)@),
            final(self)@.function_depth == old(self)@.function_depth,
            old(self)@.function.blocks.len() <= final(self)@.function.blocks.len(),
            extends_locals(old(self)@.function.frame, final(self)@.function.frame),
            extends(old(self)@.upvars, final(self)@.upvars),
        decreases crate::compilation::ir::stmt_size(*stmt), 2int,
    {
        let ghost start = self@;
        match stmt {
            Stmt::Block(stmts) => self.compile_stmt_block(stmts),
            Stmt::AssignGlobal(symbol, value) => self.compile_stmt_assign_global(*symbol, value),
            Stmt::DefineLocal(local, value) => self.compile_stmt_define_local(*local, value),
            Stmt::Print(value) => self.compile_stmt_print(value),
            Stmt::Expr(expr) => self.compile_stmt_expr(expr),
        }
        proof {
            assert(start.function.frame.elems.take(start.function.frame.elems.len() as int)
                =~= start.function.frame.elems);
            assert(start.upvars.elems.take(start.upvars.elems.len() as int) =~= start.upvars.elems);
        }
    }

    /// Compiles a block [`Stmt`].
    fn compile_stmt_block(&mut self, stmts: &Vec<Stmt>)
        requires
            wf(old(self)@),
            gen_stmt(old(self).table(), old(self)@, StmtView::Block(stmts_view(stmts@))).ok,
        ensures
            final(self)@ == gen_stmt(old(self).table(), old(self)@, StmtView::Block(stmts_view(stmts@))),
            final(self).table() == old(self).table(),
            wf(final(self)@),
            final(self)@.function_depth == old(self)@.function_depth,
            old(self)@.function.blocks.len() <= final(self)@.function.blocks.len(),
            final(self)@.function.frame == old(self)@.function.frame,
            final(self)@.upvars == old(self)@.upvars,
        decreases stmts_size(stmts@), 4int,
    {
        let ghost start = self@;
        self.push_scopes();
        self.compile_stmts(stmts);
        proof {
            lemma_scope_closes(start.function.frame, self@.function.frame);
            lemma_scope_closes(start.upvars, self@.upvars);
        }
        let local_count = self.function.stack_frame.pop_scope();
        self.compile_drop(local_count);
        let upvar_count = self.upvars.pop_scope();
        self.compile_pop_upvars(upvar_count);
    }

    /// Compiles a global variable assignment [`Stmt`].
    fn compile_stmt_assign_global(&mut self, symbol: Symbol, value: &Expr)
        requires
            wf(old(self)@),
            gen_stmt(
                old(self).table(),
                old(self)@,
                StmtView::AssignGlobal(symbol, expr_view(*value)),
            ).ok,
        ensures
            final(self)@ == gen_stmt(
                old(self).table(),
                old(self)@,
                StmtView::AssignGlobal(symbol, expr_view(*value)),
            ),
            final(self).table() == old(self).table(),
            wf(final(self)@),
            final(self)@.function_depth == old(self)@.function_depth,
            old(self)@.function.blocks.len() <= final(self)@.function.blocks.len(),
            final(self)@.function.frame == old(self)@.function.frame,
            final(self)@.upvars == old(self)@.upvars,
        decreases expr_size(*value), 1int,
    {
        self.compile_expr(value);
        self.compile(Instruction::StoreGlobal(symbol));
    }

    /// Compiles a local variable definition [`Stmt`].
    fn compile_stmt_define_local(&mut self, local: Local, value: &Expr)
        requires
            wf(old(self)@),
            gen_stmt(old(self).table(), old(self)@, StmtView::DefineLocal(local, expr_view(*value))).ok,
        ensures
            final(self)@ == gen_stmt(
                old(self).table(),
                old(self)@,
                StmtView::DefineLocal(local, expr_view(*value)),
            ),
            final(self).table() == old(self).table(),
            wf(final(self)@),
            final(self)@.function_depth == old(self)@.function_depth,
            old(self)@.function.blocks.len() <= final(self)@.function.blocks.len(),
            extends_locals(old(self)@.function.frame, final(self)@.function.frame),
            extends(old(self)@.upvars, final(self)@.upvars),
        decreases expr_size(*value), 1int,
    {
        let ghost start = self@;
        self.compile_expr(value);
        let data = *self.locals.data(local);
        if data.is_upvar {
            self.compile(Instruction::DefineUpvar);
            self.upvars.push_upvar(local);
            proof {
                assert(self@.upvars.elems.take(start.upvars.elems.len() as int) =~= start.upvars.elems);
                assert(start.function.frame.elems.take(start.function.frame.elems.len() as int)
                    =~= start.function.frame.elems);
            }
        } else {
            self.function.stack_frame.push_local(local);
            proof {
                assert(self@.function.frame.elems.take(start.function.frame.elems.len() as int)
                    =~= start.function.frame.elems);
                assert(start.upvars.elems.take(start.upvars.elems.len() as int) =~= start.upvars.elems);
            }
        }
    }

    /// Compiles a print [`Stmt`].
    fn compile_stmt_print(&mut self, value: &Expr)
        requires
            wf(old(self)@),
            gen_stmt(old(self).table(), old(self)@, StmtView::Print(expr_view(*value))).ok,
        ensures
            final(self)@ == gen_stmt(old(self).table(), old(self)@, StmtView::Print(expr_view(*value))),
            final(self).table() == old(self).table(),
            wf(final(self)@),
            final(self)@.function_depth == old(self)@.function_depth,
            old(self)@.function.blocks.len() <= final(self)@.function.blocks.len(),
            final(self)@.function.frame == old(self)@.function.frame,
            final(self)@.upvars == old(self)@.upvars,
        decreases expr_size(*value), 1int,
    {
        self.compile_expr(value);
        self.compile(Instruction::Print);
    }

    /// Compiles an expression [`Stmt`].
    fn compile_stmt_expr(&mut self, expr: &Expr)
        requires
            wf(old(self)@),
            gen_stmt(old(self).table(), old(self)@, StmtView::Expr(expr_view(*expr))).ok,
        ensures
            final(self)@ == gen_stmt(old(self).table(), old(self)@, StmtView::Expr(expr_view(*expr))),
            final(self).table() == old(self).table(),
            wf(final(self)@),
            final(self)@.function_depth == old(self)@.function_depth,
            old(self)@.function.blocks.len() <= final(self)@.function.blocks.len(),
            final(self)@.function.frame == old(self)@.function.frame,
            final(self)@.upvars == old(self)@.upvars,
        decreases expr_size(*expr), 1int,
    {
        self.compile_expr(expr);
        self.compile(Instruction::Pop(1));
    }

    /// Compiles an [`Expr`].
    fn compile_expr(&mut self, expr: &Expr)
        requires
            wf(old(self)@),
            gen_expr(old(self).table(), old(self)@, expr_view(*expr)).ok,
        ensures
            final(self)@ == gen_expr(old(self).table(), old(self)@, expr_view(*expr)),
            final(self).table() == old(self).table(),
            wf(final(self)@),
            final(self)@.function_depth == old(self)@.function_depth,
            old(self)@.function.blocks.len() <= final(self)@.function.blocks.len(),
            final(self)@.function.frame == old(self)@.function.frame,
            final(self)@.upvars == old(self)@.upvars,
        decreases expr_size(*expr), 0int,
    {
        match expr {
            Expr::Literal(literal) => self.compile(Instruction::PushLiteral(*literal)),
            Expr::Global(symbol) => self.compile(Instruction::PushGlobal(*symbol)),
            Expr::Local(local) => self.compile_expr_local(*local),
            Expr::Block(stmts, value) => self.compile_expr_block(stmts, value),
            Expr::Function(params, body) => self.compile_expr_function(params, body),
            Expr::Call(callee, args) => self.compile_expr_call(callee, args),
            Expr::Unary(op, rhs) => self.compile_expr_unary(*op, rhs),
            Expr::Binary(op, lhs, rhs) => self.compile_expr_binary(*op, lhs, rhs),
            Expr::Cond(cond, then_expr, else_expr) => self.compile_expr_cond(
                cond,
                then_expr,
                else_expr,
            ),
        }
    }

    /// Compiles a local variable [`Expr`].
    fn compile_expr_local(&mut self, local: Local)
        requires
            wf(old(self)@),
            gen_local(old(self).table(), old(self)@, local).ok,
        ensures
            final(self)@ == gen_local(old(self).table(), old(self)@, local),
            final(self).table() == old(self).table(),
            wf(final(self)@),
            final(self)@.function_depth == old(self)@.function_depth,
            old(self)@.function.blocks.len() <= final(self)@.function.blocks.len(),
            final(self)@.function.frame == old(self)@.function.frame,
            final(self)@.upvars == old(self)@.upvars,
    {
        let data = *self.locals.data(local);
        if data.is_upvar {
            let offset = self.upvars.upvar_offset(local);
            proof {
                lemma_first_position(self@.upvars.elems, local, offset as int);
            }
            self.compile(Instruction::PushUpvar(offset));
            self.function.access_upvar(data.function_depth);
        } else {
            let offset = self.function.stack_frame.local_offset(local);
            proof {
                lemma_first_position(self@.function.frame.elems, Elem::Local(local), offset as int);
            }
            self.compile(Instruction::PushLocal(offset));
        }
    }

    /// Compiles a block [`Expr`].
    fn compile_expr_block(&mut self, stmts: &Vec<Stmt>, value: &Expr)
        requires
            wf(old(self)@),
            gen_expr(
                old(self).table(),
                old(self)@,
                ExprView::Block(stmts_view(stmts@), Box::new(expr_view(*value))),
            ).ok,
        ensures
            final(self)@ == gen_expr(
                old(self).table(),
                old(self)@,
                ExprView::Block(stmts_view(stmts@), Box::new(expr_view(*value))),
            ),
            final(self).table() == old(self).table(),
            wf(final(self)@),
            final(self)@.function_depth == old(self)@.function_depth,
            old(self)@.function.blocks.len() <= final(self)@.function.blocks.len(),
            final(self)@.function.frame == old(self)@.function.frame,
            final(self)@.upvars == old(self)@.upvars,
        decreases stmts_size(stmts@) + expr_size(*value), 1int,
    {
        let ghost table = self.table();
        let ghost start = self@;
        self.push_scopes();
        proof {
            lemma_expr_ok(table, gen_stmts(table, pushed_scopes(start), stmts_view(stmts@)), expr_view(*value));
        }
        self.compile_stmts(stmts);
        self.compile_expr(value);
        proof {
            lemma_scope_closes(start.function.frame, self@.function.frame);
            lemma_scope_closes(start.upvars, self@.upvars);
        }
        let local_count = self.function.stack_frame.pop_scope();
        if local_count > 0 {
            // The result of the block expression is on top of the stack, but
            // there are local variables below it which need to be popped. Move
            // the result into the first local variable and pop any local
            // variables above it.
            let offset = self.function.stack_frame.len();
            self.compile(Instruction::StoreLocal(offset));
            self.compile_drop(local_count - 1);
        }
        let upvar_count = self.upvars.pop_scope();
        self.compile_pop_upvars(upvar_count);
    }

    /// Compiles a function [`Expr`].
    fn compile_expr_function(&mut self, params: &Vec<Local>, body: &Expr)
        requires
            wf(old(self)@),
            gen_expr(
                old(self).table(),
                old(self)@,
                ExprView::Function(params@, Box::new(expr_view(*body))),
            ).ok,
        ensures
            final(self)@ == gen_expr(
                old(self).table(),
                old(self)@,
                ExprView::Function(params@, Box::new(expr_view(*body))),
            ),
            final(self).table() == old(self).table(),
            wf(final(self)@),
            final(self)@.function_depth == old(self)@.function_depth,
            old(self)@.function.blocks.len() <= final(self)@.function.blocks.len(),
            final(self)@.function.frame == old(self)@.function.frame,
            final(self)@.upvars == old(self)@.upvars,
        decreases expr_size(*body), 1int,
    {
        let ghost table = self.table();
        let ghost start = self@;
        let ghost entry = function_entry(start);
        proof {
            lemma_expr_ok(table, gen_params(table, entry, params@), expr_view(*body));
        }
        self.function_depth = self.function_depth + 1;
        let mut other_function = FunctionContext::new(self.function_depth);
        std::mem::swap(&mut self.function, &mut other_function);
        self.upvars.push_scope();
        proof {
            assert(self@ == gen_params(table, entry, params@.take(0)));
            assert(self@.upvars.elems.take(self@.upvars.elems.len() as int) =~= self@.upvars.elems);
        }
        // A function's parameters are already on the stack when it is called,
        // but they need to be declared to the compiler.
        let mut i: usize = 0;
        while i < params.len()
            invariant
                i <= params.len(),
                table == self.table(),
                wf(self@),
                self@ == gen_params(table, entry, params@.take(i as int)),
                gen_params(table, entry, params@).ok,
                self@.function.frame.scope_offsets.len() == 0,
                self@.function_depth == entry.function_depth,
                extends(entry.upvars, self@.upvars),
                other_function@ == start.function,
                start.upvars == old(self)@.upvars,
            decreases params.len() - i,
        {
            proof {
                lemma_params_prefix_ok(table, entry, params@, i as int + 1);
                assert(params@.take(i as int + 1).drop_last() =~= params@.take(i as int));
            }
            let ghost before = self@;
            let local = params[i];
            let data = *self.locals.data(local);
            if data.is_upvar {
                let offset = self.function.stack_frame.len();
                self.function.stack_frame.push_temp();
                // Upvar parameters are copied to the top of the stack before
                // being defined as upvars. The parameters are already on the
                // stack, so there may be parameters above it which would block
                // this operation.
                self.compile(Instruction::PushLocal(offset));
                self.compile(Instruction::DefineUpvar);
                self.upvars.push_upvar(local);
                proof {
                    assert(self@.upvars.elems.take(before.upvars.elems.len() as int) =~= before.upvars.elems);
                    lemma_extends_trans(entry.upvars, before.upvars, self@.upvars);
                }
            } else {
                self.function.stack_frame.push_param(local);
            }
            i = i + 1;
        }
        proof {
            assert(params@.take(i as int) =~= params@);
        }
        self.compile_expr(body);
        proof {
            lemma_scope_closes(start.upvars, self@.upvars);
        }
        let upvar_count = self.upvars.pop_scope();
        self.compile_pop_upvars(upvar_count);
        self.replace_terminator(Terminator::Return);
        std::mem::swap(&mut self.function, &mut other_function);
        self.function_depth = self.function_depth - 1;
        let upvar_function_depth = other_function.min_upvar_function_depth;
        let FunctionContext { cfg, .. } = other_function;
        let ghost blocks = cfg@;
        let function = Function { cfg, arity: params.len() };
        proof {
            lemma_function_view(cfg, params.len());
            lemma_push_function_view(function);
        }
        self.compile(Instruction::PushFunction(Rc::new(function)));
        if upvar_function_depth <= self.function_depth {
            // The inner function accesses an upvar which is declared outside of
            // it, so it may need to be a closure.
            self.compile(Instruction::IntoClosure);
            // If the accessed upvar is declared outside of the outer function,
            // then the outer function may also need to be a closure.
            self.function.access_upvar(upvar_function_depth);
        }
    }

    /// Compiles a function call [`Expr`].
    fn compile_expr_call(&mut self, callee: &Expr, args: &Vec<Expr>)
        requires
            wf(old(self)@),
            gen_expr(
                old(self).table(),
                old(self)@,
                ExprView::Call(Box::new(expr_view(*callee)), exprs_view(args@)),
            ).ok,
        ensures
            final(self)@ == gen_expr(
                old(self).table(),
                old(self)@,
                ExprView::Call(Box::new(expr_view(*callee)), exprs_view(args@)),
            ),
            final(self).table() == old(self).table(),
            wf(final(self)@),
            final(self)@.function_depth == old(self)@.function_depth,
            old(self)@.function.blocks.len() <= final(self)@.function.blocks.len(),
            final(self)@.function.frame == old(self)@.function.frame,
            final(self)@.upvars == old(self)@.upvars,
        decreases expr_size(*callee) + exprs_size(args@), 1int,
    {
        let ghost table = self.table();
        let ghost start = self@;
        proof {
            lemma_args_ok(table, pushed_temp(gen_expr(table, start, expr_view(*callee))), exprs_view(args@));
        }
        self.compile_expr(callee);
        self.function.stack_frame.push_temp();
        let ghost first = self@;
        let mut i: usize = 0;
        proof {
            assert(args@.take(0) =~= Seq::<Expr>::empty());
        }
        while i < args.len()
            invariant
                i <= args.len(),
                table == self.table(),
                wf(self@),
                self@ == gen_args(table, first, exprs_view(args@.take(i as int))),
                gen_args(table, first, exprs_view(args@)).ok,
                self@.function_depth == start.function_depth,
                self@.upvars == start.upvars,
                self@.function.frame.scope_offsets == start.function.frame.scope_offsets,
                start.function.blocks.len() <= self@.function.blocks.len(),
                self@.function.frame.elems == start.function.frame.elems + Seq::new(
                    (i + 1) as nat,
                    |j: int| Elem::Temp,
                ),
            decreases args.len() - i,
        {
            proof {
                lemma_exprs_view_take(args@, i as int);
                lemma_exprs_size_elem(args@, i as int);
                lemma_exprs_view_prefix(args@, i as int + 1);
                lemma_args_prefix_ok(table, first, exprs_view(args@), i as int + 1);
                let prefix = exprs_view(args@.take(i as int));
                assert(prefix.push(expr_view(args@[i as int])).drop_last() =~= prefix);
            }
            self.compile_expr(&args[i]);
            self.function.stack_frame.push_temp();
            proof {
                assert(self@.function.frame.elems =~= start.function.frame.elems + Seq::new(
                    (i + 2) as nat,
                    |j: int| Elem::Temp,
                ));
            }
            i = i + 1;
        }
        proof {
            assert(args@.take(i as int) =~= args@);
            lemma_exprs_view_prefix(args@, 0);
        }
        let arity = args.len();
        let frame_len = self.function.stack_frame.len();
        let return_label = self.insert_block();
        let terminator = self.replace_terminator(Terminator::Call(arity, return_label));
        self.set_label(return_label);
        proof {
            assert(self@.function.frame.elems.take(start.function.frame.elems.len() as int)
                =~= start.function.frame.elems);
        }
        self.function.stack_frame.pop_temps(arity + 1);
        self.replace_terminator(terminator);
    }

    /// Compiles a unary [`Expr`].
    fn compile_expr_unary(&mut self, op: UnOp, rhs: &Expr)
        requires
            wf(old(self)@),
            gen_expr(old(self).table(), old(self)@, ExprView::Unary(op, Box::new(expr_view(*rhs)))).ok,
        ensures
            final(self)@ == gen_expr(
                old(self).table(),
                old(self)@,
                ExprView::Unary(op, Box::new(expr_view(*rhs))),
            ),
            final(self).table() == old(self).table(),
            wf(final(self)@),
            final(self)@.function_depth == old(self)@.function_depth,
            old(self)@.function.blocks.len() <= final(self)@.function.blocks.len(),
            final(self)@.function.frame == old(self)@.function.frame,
            final(self)@.upvars == old(self)@.upvars,
        decreases expr_size(*rhs), 1int,
    {
        self.compile_expr(rhs);
        let instruction = match op {
            UnOp::Negate => Instruction::Negate,
            UnOp::Not => Instruction::Not,
        };
        self.compile(instruction);
    }

    /// Compiles a binary [`Expr`].
    fn compile_expr_binary(&mut self, op: BinOp, lhs: &Expr, rhs: &Expr)
        requires
            wf(old(self)@),
            gen_expr(
                old(self).table(),
                old(self)@,
                ExprView::Binary(op, Box::new(expr_view(*lhs)), Box::new(expr_view(*rhs))),
            ).ok,
        ensures
            final(self)@ == gen_expr(
                old(self).table(),
                old(self)@,
                ExprView::Binary(op, Box::new(expr_view(*lhs)), Box::new(expr_view(*rhs))),
            ),
            final(self).table() == old(self).table(),
            wf(final(self)@),
            final(self)@.function_depth == old(self)@.function_depth,
            old(self)@.function.blocks.len() <= final(self)@.function.blocks.len(),
            final(self)@.function.frame == old(self)@.function.frame,
            final(self)@.upvars == old(self)@.upvars,
        decreases expr_size(*lhs) + expr_size(*rhs), 1int,
    {
        let ghost table = self.table();
        let ghost start = self@;
        proof {
            lemma_expr_ok(table, pushed_temp(gen_expr(table, start, expr_view(*lhs))), expr_view(*rhs));
        }
        self.compile_expr(lhs);
        self.function.stack_frame.push_temp();
        self.compile_expr(rhs);
        let instruction = match op {
            BinOp::Add => Instruction::Add,
            BinOp::Subtract => Instruction::Subtract,
            BinOp::Multiply => Instruction::Multiply,
            BinOp::Divide => Instruction::Divide,
            BinOp::Power => Instruction::Power,
            BinOp::Equal => Instruction::Equal,
            BinOp::NotEqual => Instruction::NotEqual,
            BinOp::Less => Instruction::Less,
            BinOp::LessEqual => Instruction::LessEqual,
            BinOp::Greater => Instruction::Greater,
            BinOp::GreaterEqual => Instruction::GreaterEqual,
        };
        self.compile(instruction);
        proof {
            assert(self@.function.frame.elems.take(start.function.frame.elems.len() as int)
                =~= start.function.frame.elems);
        }
        self.function.stack_frame.pop_temps(1);
    }

    /// Compiles a ternary conditional [`Expr`].
    fn compile_expr_cond(&mut self, cond: &Expr, then_expr: &Expr, else_expr: &Expr)
        requires
            wf(old(self)@),
            gen_expr(
                old(self).table(),
                old(self)@,
                ExprView::Cond(
                    Box::new(expr_view(*cond)),
                    Box::new(expr_view(*then_expr)),
                    Box::new(expr_view(*else_expr)),
                ),
            ).ok,
        ensures
            final(self)@ == gen_expr(
                old(self).table(),
                old(self)@,
                ExprView::Cond(
                    Box::new(expr_view(*cond)),
                    Box::new(expr_view(*then_expr)),
                    Box::new(expr_view(*else_expr)),
                ),
            ),
            final(self).table() == old(self).table(),
            wf(final(self)@),
            final(self)@.function_depth == old(self)@.function_depth,
            old(self)@.function.blocks.len() <= final(self)@.function.blocks.len(),
            final(self)@.function.frame == old(self)@.function.frame,
            final(self)@.upvars == old(self)@.upvars,
        decreases expr_size(*cond) + expr_size(*then_expr) + expr_size(*else_expr), 1int,
    {
        let ghost table = self.table();
        let ghost start = self@;
        proof {
            lemma_cond_ok(table, start, expr_view(*cond), expr_view(*then_expr), expr_view(*else_expr));
        }
        self.compile_expr(cond);
        let then_label = self.insert_block();
        let else_label = self.insert_block();
        let join_label = self.insert_block();
        let terminator = self.replace_terminator(Terminator::Branch(then_label, else_label));
        self.set_label(then_label);
        let ghost st3 = self@;
        proof {
            lemma_expr_ok(table, with_label(
                set_terminator(gen_expr(table, st3, expr_view(*then_expr)), Terminator::Jump(join_label)),
                else_label.0,
            ), expr_view(*else_expr));
            lemma_expr_ok(table, st3, expr_view(*then_expr));
        }
        self.compile_expr(then_expr);
        self.replace_terminator(Terminator::Jump(join_label));
        self.set_label(else_label);
        self.compile_expr(else_expr);
        self.replace_terminator(Terminator::Jump(join_label));
        self.set_label(join_label);
        self.replace_terminator(terminator);
    }
}

} // verus!
