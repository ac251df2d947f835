//! Compiling HIR only ever names labels of blocks that exist: every jump,
//! branch and return label of the graph, and of each function that it
//! pushes, names a block of its own graph.

use vstd::prelude::*;

use crate::cfg::{
    block_closed_in, blocks_closed_in, empty_block, graph_closed, instruction_closed,
    instructions_closed,
    lemma_blocks_closed_grow, lemma_blocks_closed_in, lemma_blocks_closed_update,
    lemma_instructions_closed_push, targets_below, BlockView, FunctionView, InstructionView,
    Label, Terminator,
};
use crate::decl_table::{Decl, DeclId};
use crate::hir::{ExprView, StmtView};

use super::semantics::{
    add_block, current_block, emit, function_entry, gen_args, gen_expr, gen_hir, gen_params,
    gen_stmt, gen_stmts, hir_initial_state, set_terminator, with_label, HirGenState,
};

verus! {

/// Whether a compiler state appends to a block that exists, in a graph whose
/// labels all name its blocks.
pub open spec fn hir_closed(st: HirGenState) -> bool {
    &&& st.label < st.blocks.len()
    &&& graph_closed(st.blocks)
}

/// A graph of one empty halting block is closed.
proof fn lemma_single_block_closed()
    ensures
        blocks_closed_in(seq![empty_block()], 1),
{
    let blocks = seq![empty_block()];
    assert(blocks.drop_last() =~= Seq::<BlockView>::empty());
    assert(blocks_closed_in(Seq::<BlockView>::empty(), 1));
    assert(instructions_closed(Seq::<InstructionView>::empty()));
    assert(block_closed_in(blocks.last(), 1));
}

/// Appending an instruction that pushes no open graph keeps the state closed.
proof fn lemma_emit_closed(st: HirGenState, instruction: InstructionView)
    requires
        hir_closed(st),
        instruction_closed(instruction),
    ensures
        hir_closed(emit(st, instruction)),
        emit(st, instruction).blocks.len() == st.blocks.len(),
{
    let count = st.blocks.len() as int;
    lemma_blocks_closed_in(st.blocks, count);
    let block = current_block(st);
    assert(block_closed_in(block, count));
    lemma_instructions_closed_push(block.instructions, instruction);
    let updated = BlockView { instructions: block.instructions.push(instruction), ..block };
    assert(block_closed_in(updated, count));
    lemma_blocks_closed_update(st.blocks, count, st.label as int, updated);
}

/// Ending the current block with a terminator that names existing blocks
/// keeps the state closed.
proof fn lemma_set_terminator_closed(st: HirGenState, terminator: Terminator)
    requires
        hir_closed(st),
        targets_below(terminator, st.blocks.len() as int),
    ensures
        hir_closed(set_terminator(st, terminator)),
        set_terminator(st, terminator).blocks.len() == st.blocks.len(),
{
    let count = st.blocks.len() as int;
    lemma_blocks_closed_in(st.blocks, count);
    let block = current_block(st);
    assert(block_closed_in(block, count));
    let updated = BlockView { terminator, ..block };
    assert(block_closed_in(updated, count));
    lemma_blocks_closed_update(st.blocks, count, st.label as int, updated);
}

/// Adding an empty block whose terminator names a block of the larger graph
/// keeps the state closed.
proof fn lemma_add_block_closed(st: HirGenState, terminator: Terminator)
    requires
        hir_closed(st),
        targets_below(terminator, st.blocks.len() as int + 1),
    ensures
        hir_closed(add_block(st, terminator)),
        add_block(st, terminator).blocks.len() == st.blocks.len() + 1,
{
    let count = st.blocks.len() as int;
    lemma_blocks_closed_grow(st.blocks, count, count + 1);
    let block = BlockView { instructions: Seq::empty(), terminator };
    assert(block_closed_in(block, count + 1));
    lemma_blocks_closed_update(st.blocks, count + 1, count, block);
}

/// Declaring parameters keeps the state closed and the blocks growing.
proof fn lemma_params_closed(decls: Seq<Decl>, st: HirGenState, params: Seq<DeclId>)
    requires
        hir_closed(st),
    ensures
        hir_closed(gen_params(decls, st, params)),
        st.blocks.len() <= gen_params(decls, st, params).blocks.len(),
    decreases params.len(),
{
    if params.len() > 0 {
        lemma_params_closed(decls, st, params.drop_last());
        let st1 = gen_params(decls, st, params.drop_last());
        let id = params.last();
        if id.0 < decls.len() && decls[id.0 as int].is_upvalue {
            let offset = st1.locals.stack.elems.len() as usize;
            let st2 = super::semantics::pushed_temp(st1);
            lemma_emit_closed(st2, InstructionView::PushLocal(offset));
            lemma_emit_closed(
                emit(st2, InstructionView::PushLocal(offset)),
                InstructionView::DefineUpvar,
            );
        }
    }
}

/// Compiling statements keeps the state closed and the blocks growing.
proof fn lemma_stmts_closed(decls: Seq<Decl>, st: HirGenState, stmts: Seq<StmtView>)
    requires
        hir_closed(st),
    ensures
        hir_closed(gen_stmts(decls, st, stmts)),
        st.blocks.len() <= gen_stmts(decls, st, stmts).blocks.len(),
    decreases stmts, 1int,
{
    if stmts.len() > 0 {
        lemma_stmts_closed(decls, st, stmts.drop_last());
        lemma_stmt_closed(decls, gen_stmts(decls, st, stmts.drop_last()), stmts.last());
    }
}

/// Compiling call arguments keeps the state closed and the blocks growing.
proof fn lemma_args_closed(decls: Seq<Decl>, st: HirGenState, args: Seq<ExprView>)
    requires
        hir_closed(st),
    ensures
        hir_closed(gen_args(decls, st, args)),
        st.blocks.len() <= gen_args(decls, st, args).blocks.len(),
    decreases args, 1int,
{
    if args.len() > 0 {
        lemma_args_closed(decls, st, args.drop_last());
        lemma_expr_closed(decls, gen_args(decls, st, args.drop_last()), args.last());
    }
}

/// Dropping values and upvalues keeps the state closed.
proof fn lemma_drops_closed(st: HirGenState, count: usize)
    requires
        hir_closed(st),
    ensures
        hir_closed(super::semantics::drop_values(st, count)),
        hir_closed(super::semantics::drop_upvalues(st, count)),
        super::semantics::drop_values(st, count).blocks.len() == st.blocks.len(),
        super::semantics::drop_upvalues(st, count).blocks.len() == st.blocks.len(),
{
    lemma_emit_closed(st, InstructionView::Pop(count));
    lemma_emit_closed(st, InstructionView::PopUpvars(count));
}

/// Compiling a statement keeps the state closed and the blocks growing.
proof fn lemma_stmt_closed(decls: Seq<Decl>, st: HirGenState, stmt: StmtView)
    requires
        hir_closed(st),
    ensures
        hir_closed(gen_stmt(decls, st, stmt)),
        st.blocks.len() <= gen_stmt(decls, st, stmt).blocks.len(),
    decreases stmt, 0int,
{
    match stmt {
        StmtView::Nop => {},
        StmtView::Block(stmts) => {
            let st1 = super::semantics::began_block(st);
            lemma_stmts_closed(decls, st1, stmts);
            let st2 = gen_stmts(decls, st1, stmts);
            let local_count = st2.locals.stack.innermost_len() as usize;
            let st3 = super::semantics::with_stack(st2, st2.locals.stack.popped_scope());
            lemma_drops_closed(st3, local_count);
            let st4 = super::semantics::drop_values(st3, local_count);
            let st5 = super::semantics::with_upvalues(st4, st4.upvalues.popped_scope());
            lemma_drops_closed(st5, st4.upvalues.innermost_len() as usize);
        },
        StmtView::AssignGlobal(symbol, value) => {
            lemma_expr_closed(decls, st, value);
            lemma_emit_closed(gen_expr(decls, st, value), InstructionView::StoreGlobal(symbol));
        },
        StmtView::DefineLocal(id, value) => {
            lemma_expr_closed(decls, st, value);
            lemma_emit_closed(gen_expr(decls, st, value), InstructionView::DefineUpvar);
        },
        StmtView::Print(value) => {
            lemma_expr_closed(decls, st, value);
            lemma_emit_closed(gen_expr(decls, st, value), InstructionView::Print);
        },
        StmtView::Expr(value) => {
            lemma_expr_closed(decls, st, value);
            lemma_emit_closed(gen_expr(decls, st, value), InstructionView::Pop(1));
        },
    }
}

/// Compiling an expression keeps the state closed and the blocks growing.
proof fn lemma_expr_closed(decls: Seq<Decl>, st: HirGenState, expr: ExprView)
    requires
        hir_closed(st),
    ensures
        hir_closed(gen_expr(decls, st, expr)),
        st.blocks.len() <= gen_expr(decls, st, expr).blocks.len(),
    decreases expr, 0int,
{
    match expr {
        ExprView::Literal(literal) => lemma_emit_closed(st, InstructionView::PushLiteral(literal)),
        ExprView::Global(symbol) => lemma_emit_closed(st, InstructionView::PushGlobal(symbol)),
        ExprView::Local(id) => {
            if id.0 < decls.len() {
                let decl = decls[id.0 as int];
                let upvalue_offset = crate::compilation::codegen::semantics::first_position(
                    st.upvalues.elems,
                    id,
                ) as usize;
                lemma_emit_closed(st, InstructionView::PushUpvar(upvalue_offset));
                let local_offset = crate::compilation::codegen::semantics::first_position(
                    st.locals.stack.elems,
                    super::local_stack::Elem::Local(id),
                ) as usize;
                lemma_emit_closed(st, InstructionView::PushLocal(local_offset));
            }
        },
        ExprView::Block(stmts, value) => {
            let st1 = super::semantics::began_block(st);
            lemma_stmts_closed(decls, st1, stmts);
            let st2 = gen_stmts(decls, st1, stmts);
            lemma_expr_closed(decls, st2, *value);
            let st3 = gen_expr(decls, st2, *value);
            let stack = st3.locals.stack.popped_scope();
            let local_count = st3.locals.stack.innermost_len() as usize;
            let st4 = super::semantics::with_stack(st3, stack);
            lemma_emit_closed(st4, InstructionView::StoreLocal(stack.elems.len() as usize));
            lemma_drops_closed(
                emit(st4, InstructionView::StoreLocal(stack.elems.len() as usize)),
                (local_count - 1) as usize,
            );
            let st5 = if local_count > 0 {
                super::semantics::drop_values(
                    emit(st4, InstructionView::StoreLocal(stack.elems.len() as usize)),
                    (local_count - 1) as usize,
                )
            } else {
                st4
            };
            let st6 = super::semantics::with_upvalues(st5, st5.upvalues.popped_scope());
            lemma_drops_closed(st6, st5.upvalues.innermost_len() as usize);
        },
        ExprView::Function(params, body) => {
            if st.call_depth < usize::MAX {
                let entry = function_entry(st);
                lemma_single_block_closed();
                lemma_params_closed(decls, entry, params);
                let st1 = gen_params(decls, entry, params);
                lemma_expr_closed(decls, st1, *body);
                let inner = gen_expr(decls, st1, *body);
                let st2 = super::semantics::with_upvalues(inner, inner.upvalues.popped_scope());
                lemma_drops_closed(st2, inner.upvalues.innermost_len() as usize);
                let st3 = super::semantics::ended_upvalue_scope(inner);
                lemma_set_terminator_closed(st3, Terminator::Return);
                let inner1 = set_terminator(st3, Terminator::Return);
                let outer = HirGenState { upvalues: inner1.upvalues, ok: inner1.ok, ..st };
                let pushed = InstructionView::PushFunction(
                    FunctionView { blocks: inner1.blocks, arity: params.len() as usize },
                );
                assert(instruction_closed(pushed));
                lemma_emit_closed(outer, pushed);
                let st4 = emit(outer, pushed);
                let accessed = super::semantics::accessed_upvalue(
                    st4,
                    inner1.locals.upvalue_call_depth,
                );
                lemma_emit_closed(accessed, InstructionView::IntoClosure);
            }
        },
        ExprView::Call(callee, args) => {
            lemma_expr_closed(decls, st, *callee);
            let st1 = super::semantics::pushed_temp(gen_expr(decls, st, *callee));
            lemma_args_closed(decls, st1, args);
            let st2 = gen_args(decls, st1, args);
            let return_label = st2.blocks.len() as usize;
            lemma_blocks_closed_in(st2.blocks, st2.blocks.len() as int);
            assert(block_closed_in(current_block(st2), st2.blocks.len() as int));
            lemma_add_block_closed(st2, current_block(st2).terminator);
            let st3 = add_block(st2, current_block(st2).terminator);
            lemma_set_terminator_closed(
                st3,
                Terminator::Call(args.len() as usize, Label(return_label)),
            );
        },
        ExprView::Unary(op, rhs) => {
            lemma_expr_closed(decls, st, *rhs);
            lemma_emit_closed(
                gen_expr(decls, st, *rhs),
                crate::compilation::codegen::semantics::unary_instruction(op),
            );
        },
        ExprView::Binary(op, lhs, rhs) => {
            lemma_expr_closed(decls, st, *lhs);
            let st1 = super::semantics::pushed_temp(gen_expr(decls, st, *lhs));
            lemma_expr_closed(decls, st1, *rhs);
            lemma_emit_closed(
                gen_expr(decls, st1, *rhs),
                crate::compilation::codegen::semantics::binary_instruction(op),
            );
        },
        ExprView::Cond(cond, then_expr, else_expr) => {
            lemma_expr_closed(decls, st, *cond);
            let st1 = gen_expr(decls, st, *cond);
            let final_label = st1.blocks.len() as usize;
            let then_label = (final_label + 1) as usize;
            let else_label = (final_label + 2) as usize;
            lemma_blocks_closed_in(st1.blocks, st1.blocks.len() as int);
            assert(block_closed_in(current_block(st1), st1.blocks.len() as int));
            lemma_add_block_closed(st1, current_block(st1).terminator);
            let st2 = add_block(st1, current_block(st1).terminator);
            lemma_add_block_closed(st2, Terminator::Jump(Label(final_label)));
            let st2a = add_block(st2, Terminator::Jump(Label(final_label)));
            lemma_add_block_closed(st2a, Terminator::Jump(Label(final_label)));
            let st3 = add_block(st2a, Terminator::Jump(Label(final_label)));
            lemma_set_terminator_closed(
                st3,
                Terminator::Branch(Label(then_label), Label(else_label)),
            );
            let st4 = with_label(
                set_terminator(st3, Terminator::Branch(Label(then_label), Label(else_label))),
                then_label,
            );
            lemma_expr_closed(decls, st4, *then_expr);
            let st5 = with_label(gen_expr(decls, st4, *then_expr), else_label);
            lemma_expr_closed(decls, st5, *else_expr);
        },
    }
}

/// Every label in the graph that compiling a program gives, and in each
/// function that it pushes, names a block of its own graph.
pub proof fn lemma_compiled_hir_closed(decls: Seq<Decl>, stmts: Seq<StmtView>)
    ensures
        graph_closed(gen_hir(decls, stmts).blocks),
{
    let st = hir_initial_state();
    lemma_single_block_closed();
    lemma_stmts_closed(decls, st, stmts);
}

} // verus!
