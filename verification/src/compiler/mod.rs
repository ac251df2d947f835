pub mod body;
pub mod error;
pub mod local_stack;
pub mod locals;
pub mod stack;
pub mod upvalue_stack;
pub mod semantics;
pub mod shape;
pub mod labels;
pub mod upvalue_table;

pub use self::error::CompileError;

use vstd::prelude::*;

use std::rc::Rc;

use crate::ast::{BinOp, UnOp};
use crate::cfg::{
    graph_closed, lemma_function_view, lemma_instructions_view_push, lemma_push_function_view, BlockView, Cfg,
    Function, Instruction, Label, Terminator,
};
use crate::scoped::ScopedView;
use crate::compilation::codegen::semantics::{
    extends, lemma_extends_trans, lemma_first_position, lemma_scope_closes,
};
use crate::decl_table::{DeclId, DeclTable};
use crate::hir::{
    expr_size, expr_view, exprs_size, exprs_view, lemma_exprs_size_elem, lemma_exprs_view_prefix,
    lemma_exprs_view_take, lemma_stmts_size_elem, lemma_stmts_view_prefix, lemma_stmts_view_take,
    stmt_size, stmt_view, stmts_size, stmts_view, Expr, ExprView, Hir, Stmt, StmtView,
};
use crate::symbols::Symbol;

use self::local_stack::{is_local, Elem, LocalStack};
use self::semantics::{
    add_block, began_block, cond_entry, current_block, drop_upvalues, drop_values, emit,
    function_entry, gen_args, gen_expr, gen_hir, gen_local, gen_params, gen_stmt, gen_stmts,
    hir_initial_state, lemma_args_ok, lemma_args_prefix_ok, lemma_cond_ok, lemma_expr_ok,
    lemma_params_prefix_ok, lemma_stmts_prefix_ok, pushed_temp, set_terminator, with_label,
    HirGenState,
};
use self::upvalue_stack::UpvalueStack;

verus! {

/// Whether a compiler state is consistent: the current label names a
/// block, and both stacks have ordered scopes within them.
pub open spec fn hir_wf(st: HirGenState) -> bool {
    &&& st.label < st.blocks.len()
    &&& st.locals.stack.wf()
    &&& st.upvalues.wf()
}

/// `after` is `before` with locals pushed on top and the same scopes.
pub open spec fn extends_with_locals(before: ScopedView<Elem>, after: ScopedView<Elem>) -> bool {
    &&& extends(before, after)
    &&& forall|i: int|
        before.elems.len() <= i < after.elems.len() ==> is_local(#[trigger] after.elems[i])
}

/// Extending with locals is transitive.
pub proof fn lemma_extends_with_locals_trans(
    a: ScopedView<Elem>,
    b: ScopedView<Elem>,
    c: ScopedView<Elem>,
)
    requires
        extends_with_locals(a, b),
        extends_with_locals(b, c),
    ensures
        extends_with_locals(a, c),
{
    lemma_extends_trans(a, b, c);
    assert forall|i: int| a.elems.len() <= i < c.elems.len() implies is_local(#[trigger] c.elems[i]) by {
        if i < b.elems.len() {
            assert(c.elems.take(b.elems.len() as int)[i] == b.elems[i]);
        }
    }
}

/// Compiles [`Hir`] to a [`Cfg`] with a [`DeclTable`]. The program must
/// only use declarations that are in the table and in scope, declare
/// upvalues only inside scopes, and nest functions less deeply than
/// `usize::MAX`. Every label in the result, and in each function that it
/// pushes, names a block of its own graph.
pub fn compile_hir(hir: &Hir, decls: &DeclTable) -> (cfg: Cfg)
    requires
        gen_hir(decls@, stmts_view(hir.0@)).ok,
    ensures
        cfg@ == gen_hir(decls@, stmts_view(hir.0@)).blocks,
        graph_closed(cfg@),
{
    let mut compiler = Compiler::new(decls);
    compiler.compile_hir(hir);
    proof {
        self::labels::lemma_compiled_hir_closed(decls@, stmts_view(hir.0@));
    }
    compiler.into_cfg()
}

/// A structure that compiles [`Hir`] to a [`Cfg`].
struct Compiler<'a> {
    /// The [`DeclTable`].
    decls: &'a DeclTable,
    /// The current call depth.
    call_depth: usize,
    /// The [`LocalStack`].
    locals: LocalStack,
    /// The [`UpvalueStack`].
    upvalues: UpvalueStack,
    /// The current [`Label`].
    label: Label,
    /// The [`Cfg`].
    cfg: Cfg,
}

impl<'a> View for Compiler<'a> {
    type V = HirGenState;

    closed spec fn view(&self) -> HirGenState {
        HirGenState {
            blocks: self.cfg@,
            label: self.label.0,
            locals: self.locals@,
            upvalues: self.upvalues@,
            call_depth: self.call_depth,
            ok: true,
        }
    }
}

impl<'a> Compiler<'a> {
    /// The table of declarations that the compiler reads.
    closed spec fn table(&self) -> Seq<crate::decl_table::Decl> {
        self.decls@
    }

    /// Creates a new `Compiler` from a [`DeclTable`].
    fn new(decls: &'a DeclTable) -> (compiler: Self)
        ensures
            compiler@ == hir_initial_state(),
            compiler.table() == decls@,
    {
        Compiler {
            decls,
            call_depth: 0,
            locals: LocalStack::new(0),
            upvalues: UpvalueStack::new(),
            label: Label(0),
            cfg: Cfg::new(),
        }
    }

    /// Consumes the `Compiler` and converts it to a [`Cfg`].
    fn into_cfg(self) -> (cfg: Cfg)
        ensures
            cfg@ == self@.blocks,
    {
        self.cfg
    }

    /// Compiles [`Hir`].
    fn compile_hir(&mut self, hir: &Hir)
        requires
            old(self)@ == hir_initial_state(),
            gen_hir(old(self).table(), stmts_view(hir.0@)).ok,
        ensures
            final(self)@ == gen_hir(old(self).table(), stmts_view(hir.0@)),
    {
        proof {
            assert(hir_initial_state().locals.stack.scope_offsets =~= Seq::<int>::empty());
            assert(hir_initial_state().upvalues.scope_offsets =~= Seq::<int>::empty());
        }
        self.compile_stmts(&hir.0);
    }

    /// Appends an [`Instruction`] to the current block.
    fn compile(&mut self, instruction: Instruction)
        requires
            hir_wf(old(self)@),
        ensures
            final(self)@ == emit(old(self)@, crate::cfg::instruction_view(instruction)),
            final(self).table() == old(self).table(),
            hir_wf(final(self)@),
    {
        let block = self.cfg.basic_block_mut(self.label);
        let ghost before = block.instructions@;
        block.instructions.push(instruction);
        proof {
            lemma_instructions_view_push(before, instruction);
        }
    }

    /// Sets the current block's [`Terminator`].
    fn set_exit(&mut self, terminator: Terminator)
        requires
            hir_wf(old(self)@),
        ensures
            final(self)@ == set_terminator(old(self)@, terminator),
            final(self).table() == old(self).table(),
            hir_wf(final(self)@),
    {
        let block = self.cfg.basic_block_mut(self.label);
        block.terminator = terminator;
    }

    /// Sets the current [`Label`].
    fn set_label(&mut self, label: Label)
        requires
            hir_wf(old(self)@),
            label.0 < old(self)@.blocks.len(),
        ensures
            final(self)@ == with_label(old(self)@, label.0),
            final(self).table() == old(self).table(),
            hir_wf(final(self)@),
    {
        self.label = label;
    }

    /// Appends [`Instruction`]s to drop multiple values to the current
    /// block.
    fn compile_drop(&mut self, count: usize)
        requires
            hir_wf(old(self)@),
        ensures
            final(self)@ == drop_values(old(self)@, count),
            final(self).table() == old(self).table(),
            hir_wf(final(self)@),
    {
        if count > 0 {
            self.compile(Instruction::Pop(count));
        }
    }

    /// Appends [`Instruction`]s to drop multiple upvalues to the current
    /// block.
    fn compile_drop_upvalues(&mut self, count: usize)
        requires
            hir_wf(old(self)@),
        ensures
            final(self)@ == drop_upvalues(old(self)@, count),
            final(self).table() == old(self).table(),
            hir_wf(final(self)@),
    {
        if count > 0 {
            self.compile(Instruction::PopUpvars(count));
        }
    }

    /// Creates a new block that jumps to a target [`Label`] and returns its
    /// [`Label`].
    fn compile_source_block(&mut self, target: Label) -> (source_label: Label)
        requires
            hir_wf(old(self)@),
        ensures
            source_label.0 == old(self)@.blocks.len(),
            final(self)@ == add_block(old(self)@, Terminator::Jump(target)),
            final(self).table() == old(self).table(),
            hir_wf(final(self)@),
    {
        let source_label = self.cfg.insert_basic_block();
        self.cfg.basic_block_mut(source_label).terminator = Terminator::Jump(target);
        proof {
            assert(self@.blocks =~= add_block(old(self)@, Terminator::Jump(target)).blocks);
        }
        source_label
    }

    /// Creates a new block with the current block's [`Terminator`] and
    /// returns its [`Label`].
    fn compile_split_block(&mut self) -> (branch_label: Label)
        requires
            hir_wf(old(self)@),
        ensures
            branch_label.0 == old(self)@.blocks.len(),
            final(self)@ == add_block(old(self)@, current_block(old(self)@).terminator),
            final(self).table() == old(self).table(),
            hir_wf(final(self)@),
    {
        let branch_label = self.cfg.insert_basic_block();
        let terminator = self.cfg.basic_block(self.label).terminator;
        self.cfg.basic_block_mut(branch_label).terminator = terminator;
        proof {
            assert(self@.blocks =~= add_block(old(self)@, current_block(old(self)@).terminator).blocks);
        }
        branch_label
    }

    /// Begins an upvalue scope and a block.
    fn begin_block(&mut self)
        requires
            hir_wf(old(self)@),
        ensures
            final(self)@ == began_block(old(self)@),
            final(self).table() == old(self).table(),
            hir_wf(final(self)@),
    {
        self.upvalues.begin_scope();
        self.locals.begin_block();
    }

    /// Compiles a slice of [`Stmt`]s.
    fn compile_stmts(&mut self, stmts: &Vec<Stmt>)
        requires
            hir_wf(old(self)@),
            gen_stmts(old(self).table(), old(self)@, stmts_view(stmts@)).ok,
        ensures
            final(self)@ == gen_stmts(old(self).table(), old(self)@, stmts_view(stmts@)),
            final(self).table() == old(self).table(),
            hir_wf(final(self)@),
            final(self)@.call_depth == old(self)@.call_depth,
            old(self)@.blocks.len() <= final(self)@.blocks.len(),
            extends_with_locals(old(self)@.locals.stack, final(self)@.locals.stack),
            extends(old(self)@.upvalues, final(self)@.upvalues),
        decreases stmts_size(stmts@), 3int,
    {
        let ghost table = self.table();
        let ghost start = self@;
        let mut i: usize = 0;
        proof {
            assert(stmts@.take(0) =~= Seq::<Stmt>::empty());
            assert(start.locals.stack.elems.take(start.locals.stack.elems.len() as int)
                =~= start.locals.stack.elems);
            assert(start.upvalues.elems.take(start.upvalues.elems.len() as int) =~= start.upvalues.elems);
        }
        while i < stmts.len()
            invariant
                i <= stmts.len(),
                table == self.table(),
                hir_wf(self@),
                self@ == gen_stmts(table, start, stmts_view(stmts@.take(i as int))),
                gen_stmts(table, start, stmts_view(stmts@)).ok,
                self@.call_depth == start.call_depth,
                start.blocks.len() <= self@.blocks.len(),
                extends_with_locals(start.locals.stack, self@.locals.stack),
                extends(start.upvalues, self@.upvalues),
            decreases stmts.len() - i,
        {
            let ghost before = self@;
            proof {
                lemma_stmts_view_take(stmts@, i as int);
                lemma_stmts_size_elem(stmts@, i as int);
                lemma_stmts_view_prefix(stmts@, i as int + 1);
                lemma_stmts_prefix_ok(table, start, stmts_view(stmts@), i as int + 1);
                let prefix = stmts_view(stmts@.take(i as int));
                assert(prefix.push(stmt_view(stmts@[i as int])).drop_last() =~= prefix);
            }
            self.compile_stmt(&stmts[i]);
            proof {
                lemma_extends_with_locals_trans(start.locals.stack, before.locals.stack, self@.locals.stack);
                lemma_extends_trans(start.upvalues, before.upvalues, self@.upvalues);
            }
            i = i + 1;
        }
        proof {
            assert(stmts@.take(i as int) =~= stmts@);
        }
    }

    /// Compiles a [`Stmt`].
    fn compile_stmt(&mut self, stmt: &Stmt)
        requires
            hir_wf(old(self)@),
            gen_stmt(old(self).table(), old(self)@, stmt_view(*stmt)).ok,
        ensures
            final(self)@ == gen_stmt(old(self).table(), old(self)@, stmt_view(*stmt)),
            final(self).table() == old(self).table(),
            hir_wf(final(self)@),
            final(self)@.call_depth == old(self)@.call_depth,
            old(self)@.blocks.len() <= final(self)@.blocks.len(),
            extends_with_locals(old(self)@.locals.stack, final(self)@.locals.stack),
            extends(old(self)@.upvalues, final(self)@.upvalues),
        decreases stmt_size(*stmt), 2int,
    {
        let ghost start = self@;
        match stmt {
            Stmt::Nop => (),
            Stmt::Block(stmts) => self.compile_stmt_block(stmts),
            Stmt::AssignGlobal(symbol, value) => self.compile_stmt_assign_global(*symbol, value),
            Stmt::DefineLocal(id, value) => self.compile_stmt_define_local(*id, value),
            Stmt::Print(value) => self.compile_stmt_print(value),
            Stmt::Expr(expr) => self.compile_stmt_expr(expr),
        }
        proof {
            assert(start.locals.stack.elems.take(start.locals.stack.elems.len() as int)
                =~= start.locals.stack.elems);
            assert(start.upvalues.elems.take(start.upvalues.elems.len() as int) =~= start.upvalues.elems);
        }
    }

    /// Compiles a block [`Stmt`].
    fn compile_stmt_block(&mut self, stmts: &Vec<Stmt>)
        requires
            hir_wf(old(self)@),
            gen_stmt(old(self).table(), old(self)@, StmtView::Block(stmts_view(stmts@))).ok,
        ensures
            final(self)@ == gen_stmt(old(self).table(), old(self)@, StmtView::Block(stmts_view(stmts@))),
            final(self).table() == old(self).table(),
            hir_wf(final(self)@),
            final(self)@.call_depth == old(self)@.call_depth,
            old(self)@.blocks.len() <= final(self)@.blocks.len(),
            final(self)@.locals.stack == old(self)@.locals.stack,
            final(self)@.upvalues == old(self)@.upvalues,
        decreases stmts_size(stmts@), 4int,
    {
        let ghost start = self@;
        self.begin_block();
        self.compile_stmts(stmts);
        proof {
            lemma_scope_closes(start.locals.stack, self@.locals.stack);
            lemma_scope_closes(start.upvalues, self@.upvalues);
        }
        let local_count = self.locals.end_block();
        self.compile_drop(local_count);
        let upvalue_count = self.upvalues.end_scope();
        self.compile_drop_upvalues(upvalue_count);
    }

    /// Compiles a global variable assignment [`Stmt`].
    fn compile_stmt_assign_global(&mut self, symbol: Symbol, value: &Expr)
        requires
            hir_wf(old(self)@),
            gen_stmt(old(self).table(), old(self)@, StmtView::AssignGlobal(symbol, expr_view(*value))).ok,
        ensures
            final(self)@ == gen_stmt(
                old(self).table(),
                old(self)@,
                StmtView::AssignGlobal(symbol, expr_view(*value)),
            ),
            final(self).table() == old(self).table(),
            hir_wf(final(self)@),
            final(self)@.call_depth == old(self)@.call_depth,
            old(self)@.blocks.len() <= final(self)@.blocks.len(),
            final(self)@.locals.stack == old(self)@.locals.stack,
            final(self)@.upvalues == old(self)@.upvalues,
        decreases expr_size(*value), 1int,
    {
        self.compile_expr(value);
        self.compile(Instruction::StoreGlobal(symbol));
    }

    /// Compiles a local variable definition [`Stmt`].
    fn compile_stmt_define_local(&mut self, id: DeclId, value: &Expr)
        requires
            hir_wf(old(self)@),
            gen_stmt(old(self).table(), old(self)@, StmtView::DefineLocal(id, expr_view(*value))).ok,
        ensures
            final(self)@ == gen_stmt(
                old(self).table(),
                old(self)@,
                StmtView::DefineLocal(id, expr_view(*value)),
            ),
            final(self).table() == old(self).table(),
            hir_wf(final(self)@),
            final(self)@.call_depth == old(self)@.call_depth,
            old(self)@.blocks.len() <= final(self)@.blocks.len(),
            extends_with_locals(old(self)@.locals.stack, final(self)@.locals.stack),
            extends(old(self)@.upvalues, final(self)@.upvalues),
        decreases expr_size(*value), 1int,
    {
        let ghost start = self@;
        self.compile_expr(value);
        let decl = *self.decls.get(id);
        if decl.is_upvalue {
            self.compile(Instruction::DefineUpvar);
            self.upvalues.declare(id);
            proof {
                assert(self@.upvalues.elems.take(start.upvalues.elems.len() as int) =~= start.upvalues.elems);
                assert(start.locals.stack.elems.take(start.locals.stack.elems.len() as int)
                    =~= start.locals.stack.elems);
            }
        } else {
            self.locals.declare(id);
            proof {
                assert(self@.locals.stack.elems.take(start.locals.stack.elems.len() as int)
                    =~= start.locals.stack.elems);
                assert(start.upvalues.elems.take(start.upvalues.elems.len() as int) =~= start.upvalues.elems);
            }
        }
    }

    /// Compiles a print [`Stmt`].
    fn compile_stmt_print(&mut self, value: &Expr)
        requires
            hir_wf(old(self)@),
            gen_stmt(old(self).table(), old(self)@, StmtView::Print(expr_view(*value))).ok,
        ensures
            final(self)@ == gen_stmt(old(self).table(), old(self)@, StmtView::Print(expr_view(*value))),
            final(self).table() == old(self).table(),
            hir_wf(final(self)@),
            final(self)@.call_depth == old(self)@.call_depth,
            old(self)@.blocks.len() <= final(self)@.blocks.len(),
            final(self)@.locals.stack == old(self)@.locals.stack,
            final(self)@.upvalues == old(self)@.upvalues,
        decreases expr_size(*value), 1int,
    {
        self.compile_expr(value);
        self.compile(Instruction::Print);
    }

    /// Compiles an expression [`Stmt`].
    fn compile_stmt_expr(&mut self, expr: &Expr)
        requires
            hir_wf(old(self)@),
            gen_stmt(old(self).table(), old(self)@, StmtView::Expr(expr_view(*expr))).ok,
        ensures
            final(self)@ == gen_stmt(old(self).table(), old(self)@, StmtView::Expr(expr_view(*expr))),
            final(self).table() == old(self).table(),
            hir_wf(final(self)@),
            final(self)@.call_depth == old(self)@.call_depth,
            old(self)@.blocks.len() <= final(self)@.blocks.len(),
            final(self)@.locals.stack == old(self)@.locals.stack,
            final(self)@.upvalues == old(self)@.upvalues,
        decreases expr_size(*expr), 1int,
    {
        self.compile_expr(expr);
        self.compile(Instruction::Pop(1));
    }

    /// Compiles an [`Expr`].
    fn compile_expr(&mut self, expr: &Expr)
        requires
            hir_wf(old(self)@),
            gen_expr(old(self).table(), old(self)@, expr_view(*expr)).ok,
        ensures
            final(self)@ == gen_expr(old(self).table(), old(self)@, expr_view(*expr)),
            final(self).table() == old(self).table(),
            hir_wf(final(self)@),
            final(self)@.call_depth == old(self)@.call_depth,
            old(self)@.blocks.len() <= final(self)@.blocks.len(),
            final(self)@.locals.stack == old(self)@.locals.stack,
            final(self)@.upvalues == old(self)@.upvalues,
        decreases expr_size(*expr), 0int,
    {
        match expr {
            Expr::Literal(literal) => self.compile(Instruction::PushLiteral(*literal)),
            Expr::Global(symbol) => self.compile(Instruction::PushGlobal(*symbol)),
            Expr::Local(id) => self.compile_expr_local(*id),
            Expr::Block(stmts, value) => self.compile_expr_block(stmts, value),
            Expr::Function(params, body) => self.compile_expr_function(params, body),
            Expr::Call(callee, args) => self.compile_expr_call(callee, args),
            Expr::Unary(op, rhs) => self.compile_expr_unary(*op, rhs),
            Expr::Binary(op, lhs, rhs) => self.compile_expr_binary(*op, lhs, rhs),
            Expr::Cond(cond, then_expr, else_expr) => self.compile_expr_cond(
                cond,
                then_expr,
                else_expr,
            ),
        }
    }

    /// Compiles a local variable [`Expr`].
    fn compile_expr_local(&mut self, id: DeclId)
        requires
            hir_wf(old(self)@),
            gen_local(old(self).table(), old(self)@, id).ok,
        ensures
            final(self)@ == gen_local(old(self).table(), old(self)@, id),
            final(self).table() == old(self).table(),
            hir_wf(final(self)@),
            final(self)@.call_depth == old(self)@.call_depth,
            old(self)@.blocks.len() <= final(self)@.blocks.len(),
            final(self)@.locals.stack == old(self)@.locals.stack,
            final(self)@.upvalues == old(self)@.upvalues,
    {
        let decl = *self.decls.get(id);
        if decl.is_upvalue {
            let offset = self.upvalues.offset(id);
            proof {
                lemma_first_position(self@.upvalues.elems, id, offset as int);
            }
            self.compile(Instruction::PushUpvar(offset));
            self.locals.access_upvalue(decl.call_depth);
        } else {
            let offset = self.locals.offset(id);
            proof {
                lemma_first_position(self@.locals.stack.elems, Elem::Local(id), offset as int);
            }
            self.compile(Instruction::PushLocal(offset));
        }
    }

    /// Compiles a block [`Expr`].
    fn compile_expr_block(&mut self, stmts: &Vec<Stmt>, value: &Expr)
        requires
            hir_wf(old(self)@),
            gen_expr(
                old(self).table(),
                old(self)@,
                ExprView::Block(stmts_view(stmts@), Box::new(expr_view(*value))),
            ).ok,
        ensures
            final(self)@ == gen_expr(
                old(self).table(),
                old(self)@,
                ExprView::Block(stmts_view(stmts@), Box::new(expr_view(*value))),
            ),
            final(self).table() == old(self).table(),
            hir_wf(final(self)@),
            final(self)@.call_depth == old(self)@.call_depth,
            old(self)@.blocks.len() <= final(self)@.blocks.len(),
            final(self)@.locals.stack == old(self)@.locals.stack,
            final(self)@.upvalues == old(self)@.upvalues,
        decreases stmts_size(stmts@) + expr_size(*value), 1int,
    {
        let ghost table = self.table();
        let ghost start = self@;
        self.begin_block();
        proof {
            lemma_expr_ok(table, gen_stmts(table, began_block(start), stmts_view(stmts@)), expr_view(*value));
        }
        self.compile_stmts(stmts);
        self.compile_expr(value);
        proof {
            lemma_scope_closes(start.locals.stack, self@.locals.stack);
            lemma_scope_closes(start.upvalues, self@.upvalues);
        }
        let local_count = self.locals.end_block();
        if local_count > 0 {
            // The result of the block expression is on top of the stack, but
            // there are local variables below it that need to be dropped. Move
            // the result into the first local variable and drop any local
            // variables above it.
            let offset = self.locals.len();
            self.compile(Instruction::StoreLocal(offset));
            self.compile_drop(local_count - 1);
        }
        let upvalue_count = self.upvalues.end_scope();
        self.compile_drop_upvalues(upvalue_count);
    }

    /// Compiles a function [`Expr`].
    fn compile_expr_function(&mut self, params: &Vec<DeclId>, body: &Expr)
        requires
            hir_wf(old(self)@),
            gen_expr(
                old(self).table(),
                old(self)@,
                ExprView::Function(params@, Box::new(expr_view(*body))),
            ).ok,
        ensures
            final(self)@ == gen_expr(
                old(self).table(),
                old(self)@,
                ExprView::Function(params@, Box::new(expr_view(*body))),
            ),
            final(self).table() == old(self).table(),
            hir_wf(final(self)@),
            final(self)@.call_depth == old(self)@.call_depth,
            old(self)@.blocks.len() <= final(self)@.blocks.len(),
            final(self)@.locals.stack == old(self)@.locals.stack,
            final(self)@.upvalues == old(self)@.upvalues,
        decreases expr_size(*body), 1int,
    {
        let ghost table = self.table();
        let ghost start = self@;
        let ghost entry = function_entry(start);
        proof {
            lemma_expr_ok(table, gen_params(table, entry, params@), expr_view(*body));
        }
        self.call_depth = self.call_depth + 1;
        let mut outer_locals = LocalStack::new(self.call_depth);
        std::mem::swap(&mut self.locals, &mut outer_locals);
        let outer_label = self.label;
        let mut outer_cfg = Cfg::new();
        std::mem::swap(&mut self.cfg, &mut outer_cfg);
        self.label = Label(0);
        self.upvalues.begin_scope();
        proof {
            assert(self@ == gen_params(table, entry, params@.take(0)));
            assert(self@.upvalues.elems.take(self@.upvalues.elems.len() as int) =~= self@.upvalues.elems);
        }
        // The function's arguments are already on the stack, but need to be
        // declared.
        let mut i: usize = 0;
        while i < params.len()
            invariant
                i <= params.len(),
                table == self.table(),
                hir_wf(self@),
                self@ == gen_params(table, entry, params@.take(i as int)),
                gen_params(table, entry, params@).ok,
                self@.call_depth == entry.call_depth,
                self@.upvalues.scope_offsets.len() > 0,
                extends(entry.upvalues, self@.upvalues),
                outer_locals@ == start.locals,
                outer_cfg@ == start.blocks,
                outer_label.0 == start.label,
                start.upvalues == old(self)@.upvalues,
            decreases params.len() - i,
        {
            proof {
                lemma_params_prefix_ok(table, entry, params@, i as int + 1);
                assert(params@.take(i as int + 1).drop_last() =~= params@.take(i as int));
            }
            let ghost before = self@;
            let id = params[i];
            let decl = *self.decls.get(id);
            if decl.is_upvalue {
                let offset = self.locals.len();
                self.locals.push_temp();
                // Upvalue arguments are copied from the stack before they are
                // defined as upvalues. The caller has already placed all of the
                // arguments on the stack, so the top of the stack may not be
                // the upvalue that is expected.
                self.compile(Instruction::PushLocal(offset));
                self.compile(Instruction::DefineUpvar);
                self.upvalues.declare(id);
                proof {
                    assert(self@.upvalues.elems.take(before.upvalues.elems.len() as int) =~= before.upvalues.elems);
                    lemma_extends_trans(entry.upvalues, before.upvalues, self@.upvalues);
                }
            } else {
                self.locals.declare(id);
            }
            i = i + 1;
        }
        proof {
            assert(params@.take(i as int) =~= params@);
        }
        self.compile_expr(body);
        proof {
            lemma_scope_closes(start.upvalues, self@.upvalues);
        }
        let upvalue_count = self.upvalues.end_scope();
        self.compile_drop_upvalues(upvalue_count);
        self.set_exit(Terminator::Return);
        self.label = outer_label;
        std::mem::swap(&mut self.cfg, &mut outer_cfg);
        let function_cfg = outer_cfg;
        let upvalue_call_depth = self.locals.upvalue_call_depth();
        self.locals = outer_locals;
        self.call_depth = self.call_depth - 1;
        let function = Function { cfg: function_cfg, arity: params.len() };
        proof {
            lemma_function_view(function_cfg, params.len());
            lemma_push_function_view(function);
        }
        self.compile(Instruction::PushFunction(Rc::new(function)));
        if upvalue_call_depth <= self.call_depth {
            // The outer function could outlive an upvalue accessed by the inner
            // function, so it may need to be a closure.
            self.locals.access_upvalue(upvalue_call_depth);
            // The inner function could outlive an upvalue that it accesses, so
            // it must be converted to a closure.
            self.compile(Instruction::IntoClosure);
        }
    }

    /// Compiles a function call [`Expr`].
    fn compile_expr_call(&mut self, callee: &Expr, args: &Vec<Expr>)
        requires
            hir_wf(old(self)@),
            gen_expr(
                old(self).table(),
                old(self)@,
                ExprView::Call(Box::new(expr_view(*callee)), exprs_view(args@)),
            ).ok,
        ensures
            final(self)@ == gen_expr(
                old(self).table(),
                old(self)@,
                ExprView::Call(Box::new(expr_view(*callee)), exprs_view(args@)),
            ),
            final(self).table() == old(self).table(),
            hir_wf(final(self)@),
            final(self)@.call_depth == old(self)@.call_depth,
            old(self)@.blocks.len() <= final(self)@.blocks.len(),
            final(self)@.locals.stack == old(self)@.locals.stack,
            final(self)@.upvalues == old(self)@.upvalues,
        decreases expr_size(*callee) + exprs_size(args@), 1int,
    {
        let ghost table = self.table();
        let ghost start = self@;
        proof {
            lemma_args_ok(table, pushed_temp(gen_expr(table, start, expr_view(*callee))), exprs_view(args@));
        }
        self.compile_expr(callee);
        self.locals.push_temp();
        let ghost first = self@;
        let mut i: usize = 0;
        proof {
            assert(args@.take(0) =~= Seq::<Expr>::empty());
        }
        while i < args.len()
            invariant
                i <= args.len(),
                table == self.table(),
                hir_wf(self@),
                self@ == gen_args(table, first, exprs_view(args@.take(i as int))),
                gen_args(table, first, exprs_view(args@)).ok,
                self@.call_depth == start.call_depth,
                self@.upvalues == start.upvalues,
                self@.locals.stack.scope_offsets == start.locals.stack.scope_offsets,
                start.blocks.len() <= self@.blocks.len(),
                self@.locals.stack.elems == start.locals.stack.elems + Seq::new(
                    (i + 1) as nat,
                    |j: int| Elem::Temp,
                ),
            decreases args.len() - i,
        {
            proof {
                lemma_exprs_view_take(args@, i as int);
                lemma_exprs_size_elem(args@, i as int);
                lemma_exprs_view_prefix(args@, i as int + 1);
                lemma_args_prefix_ok(table, first, exprs_view(args@), i as int + 1);
                let prefix = exprs_view(args@.take(i as int));
                assert(prefix.push(expr_view(args@[i as int])).drop_last() =~= prefix);
            }
            self.compile_expr(&args[i]);
            self.locals.push_temp();
            proof {
                assert(self@.locals.stack.elems =~= start.locals.stack.elems + Seq::new(
                    (i + 2) as nat,
                    |j: int| Elem::Temp,
                ));
            }
            i = i + 1;
        }
        proof {
            assert(args@.take(i as int) =~= args@);
            lemma_exprs_view_prefix(args@, 0);
        }
        let arity = args.len();
        let frame_len = self.locals.len();
        let return_label = self.compile_split_block();
        self.set_exit(Terminator::Call(arity, return_label));
        self.set_label(return_label);
        proof {
            assert(self@.locals.stack.elems.take(start.locals.stack.elems.len() as int)
                =~= start.locals.stack.elems);
        }
        self.locals.drop_temps(arity + 1);
    }

    /// Compiles a unary [`Expr`].
    fn compile_expr_unary(&mut self, op: UnOp, rhs: &Expr)
        requires
            hir_wf(old(self)@),
            gen_expr(old(self).table(), old(self)@, ExprView::Unary(op, Box::new(expr_view(*rhs)))).ok,
        ensures
            final(self)@ == gen_expr(
                old(self).table(),
                old(self)@,
                ExprView::Unary(op, Box::new(expr_view(*rhs))),
            ),
            final(self).table() == old(self).table(),
            hir_wf(final(self)@),
            final(self)@.call_depth == old(self)@.call_depth,
            old(self)@.blocks.len() <= final(self)@.blocks.len(),
            final(self)@.locals.stack == old(self)@.locals.stack,
            final(self)@.upvalues == old(self)@.upvalues,
        decreases expr_size(*rhs), 1int,
    {
        self.compile_expr(rhs);
        let instruction = match op {
            UnOp::Negate => Instruction::Negate,
            UnOp::Not => Instruction::Not,
        };
        self.compile(instruction);
    }

    /// Compiles a binary [`Expr`].
    fn compile_expr_binary(&mut self, op: BinOp, lhs: &Expr, rhs: &Expr)
        requires
            hir_wf(old(self)@),
            gen_expr(
                old(self).table(),
                old(self)@,
                ExprView::Binary(op, Box::new(expr_view(*lhs)), Box::new(expr_view(*rhs))),
            ).ok,
        ensures
            final(self)@ == gen_expr(
                old(self).table(),
                old(self)@,
                ExprView::Binary(op, Box::new(expr_view(*lhs)), Box::new(expr_view(*rhs))),
            ),
            final(self).table() == old(self).table(),
            hir_wf(final(self)@),
            final(self)@.call_depth == old(self)@.call_depth,
            old(self)@.blocks.len() <= final(self)@.blocks.len(),
            final(self)@.locals.stack == old(self)@.locals.stack,
            final(self)@.upvalues == old(self)@.upvalues,
        decreases expr_size(*lhs) + expr_size(*rhs), 1int,
    {
        let ghost table = self.table();
        let ghost start = self@;
        proof {
            lemma_expr_ok(table, pushed_temp(gen_expr(table, start, expr_view(*lhs))), expr_view(*rhs));
        }
        self.compile_expr(lhs);
        self.locals.push_temp();
        self.compile_expr(rhs);
        let instruction = match op {
            BinOp::Add => Instruction::Add,
            BinOp::Subtract => Instruction::Subtract,
            BinOp::Multiply => Instruction::Multiply,
            BinOp::Divide => Instruction::Divide,
            BinOp::Power => Instruction::Power,
            BinOp::Equal => Instruction::Equal,
            BinOp::NotEqual => Instruction::NotEqual,
            BinOp::Less => Instruction::Less,
            BinOp::LessEqual => Instruction::LessEqual,
            BinOp::Greater => Instruction::Greater,
            BinOp::GreaterEqual => Instruction::GreaterEqual,
        };
        self.compile(instruction);
        proof {
            assert(self@.locals.stack.elems.take(start.locals.stack.elems.len() as int)
                =~= start.locals.stack.elems);
        }
        self.locals.drop_temps(1);
    }

    /// Compiles a ternary conditional [`Expr`].
    fn compile_expr_cond(&mut self, cond: &Expr, then_expr: &Expr, else_expr: &Expr)
        requires
            hir_wf(old(self)@),
            gen_expr(
                old(self).table(),
                old(self)@,
                ExprView::Cond(
                    Box::new(expr_view(*cond)),
                    Box::new(expr_view(*then_expr)),
                    Box::new(expr_view(*else_expr)),
                ),
            ).ok,
        ensures
            final(self)@ == gen_expr(
                old(self).table(),
                old(self)@,
                ExprView::Cond(
                    Box::new(expr_view(*cond)),
                    Box::new(expr_view(*then_expr)),
                    Box::new(expr_view(*else_expr)),
                ),
            ),
            final(self).table() == old(self).table(),
            hir_wf(final(self)@),
            final(self)@.call_depth == old(self)@.call_depth,
            old(self)@.blocks.len() <= final(self)@.blocks.len(),
            final(self)@.locals.stack == old(self)@.locals.stack,
            final(self)@.upvalues == old(self)@.upvalues,
        decreases expr_size(*cond) + expr_size(*then_expr) + expr_size(*else_expr), 1int,
    {
        let ghost table = self.table();
        let ghost start = self@;
        let ghost whole = ExprView::Cond(
            Box::new(expr_view(*cond)),
            Box::new(expr_view(*then_expr)),
            Box::new(expr_view(*else_expr)),
        );
        proof {
            lemma_cond_ok(table, start, whole);
        }
        self.compile_expr(cond);
        let final_label = self.compile_split_block();
        let then_label = self.compile_source_block(final_label);
        let else_label = self.compile_source_block(final_label);
        self.set_exit(Terminator::Branch(then_label, else_label));
        self.set_label(then_label);
        let ghost st4 = self@;
        proof {
            assert(st4 == cond_entry(gen_expr(table, start, expr_view(*cond))));
            lemma_expr_ok(table, with_label(gen_expr(table, st4, expr_view(*then_expr)), else_label.0), expr_view(*else_expr));
        }
        self.compile_expr(then_expr);
        self.set_label(else_label);
        self.compile_expr(else_expr);
        self.set_label(final_label);
    }
}

} // verus!
