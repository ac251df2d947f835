//! Code generation only ever names labels of blocks that exist: every jump,
//! branch and return label of the graph, and of each function that it
//! pushes, names a block of its own graph.

use vstd::prelude::*;

use crate::cfg::{
    block_closed_in, blocks_closed_in, empty_block, graph_closed, instruction_closed,
    instructions_closed, lemma_blocks_closed_grow, lemma_blocks_closed_in,
    lemma_blocks_closed_update, lemma_instructions_closed_push, targets_below, BlockView,
    FunctionView, InstructionView, Label, Terminator,
};
use crate::compilation::ir::{ExprView, StmtView};
use crate::locals::{Data, Local};

use super::semantics::{
    binary_instruction, current_block, drop_upvars, drop_values, emit, first_position,
    function_entry, gen_args, gen_expr, gen_params, gen_program, gen_stmt, gen_stmts,
    initial_state, insert_block, popped_upvar_scope, pushed_scopes, pushed_temp, set_terminator,
    unary_instruction, with_frame, with_label, with_upvars, GenState,
};

verus! {

/// Whether a code generation state appends to a block that exists, in a
/// graph whose labels all name its blocks.
pub open spec fn gen_closed(st: GenState) -> bool {
    &&& st.function.label < st.function.blocks.len()
    &&& graph_closed(st.function.blocks)
}

/// A graph of one empty halting block is closed.
proof fn lemma_single_block_closed()
    ensures
        blocks_closed_in(seq![empty_block()], 1),
{
    let blocks = seq![empty_block()];
    assert(blocks.drop_last() =~= Seq::<BlockView>::empty());
    assert(blocks_closed_in(Seq::<BlockView>::empty(), 1));
    assert(instructions_closed(Seq::<InstructionView>::empty()));
    assert(block_closed_in(blocks.last(), 1));
}

/// Appending an instruction that pushes no open graph keeps the state closed.
proof fn lemma_emit_closed(st: GenState, instruction: InstructionView)
    requires
        gen_closed(st),
        instruction_closed(instruction),
    ensures
        gen_closed(emit(st, instruction)),
        emit(st, instruction).function.blocks.len() == st.function.blocks.len(),
{
    let count = st.function.blocks.len() as int;
    lemma_blocks_closed_in(st.function.blocks, count);
    let block = current_block(st);
    assert(block_closed_in(block, count));
    lemma_instructions_closed_push(block.instructions, instruction);
    let updated = BlockView { instructions: block.instructions.push(instruction), ..block };
    assert(block_closed_in(updated, count));
    lemma_blocks_closed_update(st.function.blocks, count, st.function.label as int, updated);
}

/// Ending the current block with a terminator that names existing blocks
/// keeps the state closed.
proof fn lemma_set_terminator_closed(st: GenState, terminator: Terminator)
    requires
        gen_closed(st),
        targets_below(terminator, st.function.blocks.len() as int),
    ensures
        gen_closed(set_terminator(st, terminator)),
        set_terminator(st, terminator).function.blocks.len() == st.function.blocks.len(),
{
    let count = st.function.blocks.len() as int;
    lemma_blocks_closed_in(st.function.blocks, count);
    let block = current_block(st);
    assert(block_closed_in(block, count));
    let updated = BlockView { terminator, ..block };
    assert(block_closed_in(updated, count));
    lemma_blocks_closed_update(st.function.blocks, count, st.function.label as int, updated);
}

/// Inserting an empty halting block keeps the state closed.
proof fn lemma_insert_block_closed(st: GenState)
    requires
        gen_closed(st),
    ensures
        gen_closed(insert_block(st)),
        insert_block(st).function.blocks.len() == st.function.blocks.len() + 1,
{
    let count = st.function.blocks.len() as int;
    lemma_blocks_closed_grow(st.function.blocks, count, count + 1);
    assert(instructions_closed(Seq::<InstructionView>::empty()));
    assert(block_closed_in(empty_block(), count + 1));
    lemma_blocks_closed_update(st.function.blocks, count + 1, count, empty_block());
}

/// The current block's terminator names blocks of a closed state's graph.
proof fn lemma_current_targets(st: GenState)
    requires
        gen_closed(st),
    ensures
        targets_below(current_block(st).terminator, st.function.blocks.len() as int),
{
    lemma_blocks_closed_in(st.function.blocks, st.function.blocks.len() as int);
    assert(block_closed_in(current_block(st), st.function.blocks.len() as int));
}

/// Dropping values and upvars keeps the state closed.
proof fn lemma_drops_closed(st: GenState, count: usize)
    requires
        gen_closed(st),
    ensures
        gen_closed(drop_values(st, count)),
        gen_closed(drop_upvars(st, count)),
        drop_values(st, count).function.blocks.len() == st.function.blocks.len(),
        drop_upvars(st, count).function.blocks.len() == st.function.blocks.len(),
{
    lemma_emit_closed(st, InstructionView::Pop(count));
    lemma_emit_closed(st, InstructionView::PopUpvars(count));
}

/// Declaring parameters keeps the state closed and the blocks growing.
proof fn lemma_params_closed(locals: Seq<Data>, st: GenState, params: Seq<Local>)
    requires
        gen_closed(st),
    ensures
        gen_closed(gen_params(locals, st, params)),
        st.function.blocks.len() <= gen_params(locals, st, params).function.blocks.len(),
    decreases params.len(),
{
    if params.len() > 0 {
        lemma_params_closed(locals, st, params.drop_last());
        let st1 = gen_params(locals, st, params.drop_last());
        let local = params.last();
        if local.0 < locals.len() && locals[local.0 as int].is_upvar {
            let offset = st1.function.frame.elems.len() as usize;
            let st2 = with_frame(
                st1,
                st1.function.frame.pushed(crate::compile::stack::Elem::Temp),
            );
            lemma_emit_closed(st2, InstructionView::PushLocal(offset));
            lemma_emit_closed(
                emit(st2, InstructionView::PushLocal(offset)),
                InstructionView::DefineUpvar,
            );
        }
    }
}

/// Compiling statements keeps the state closed and the blocks growing.
proof fn lemma_stmts_closed(locals: Seq<Data>, st: GenState, stmts: Seq<StmtView>)
    requires
        gen_closed(st),
    ensures
        gen_closed(gen_stmts(locals, st, stmts)),
        st.function.blocks.len() <= gen_stmts(locals, st, stmts).function.blocks.len(),
    decreases stmts, 1int,
{
    if stmts.len() > 0 {
        lemma_stmts_closed(locals, st, stmts.drop_last());
        lemma_stmt_closed(locals, gen_stmts(locals, st, stmts.drop_last()), stmts.last());
    }
}

/// Compiling call arguments keeps the state closed and the blocks growing.
proof fn lemma_args_closed(locals: Seq<Data>, st: GenState, args: Seq<ExprView>)
    requires
        gen_closed(st),
    ensures
        gen_closed(gen_args(locals, st, args)),
        st.function.blocks.len() <= gen_args(locals, st, args).function.blocks.len(),
    decreases args, 1int,
{
    if args.len() > 0 {
        lemma_args_closed(locals, st, args.drop_last());
        lemma_expr_closed(locals, gen_args(locals, st, args.drop_last()), args.last());
    }
}

/// Compiling a statement keeps the state closed and the blocks growing.
proof fn lemma_stmt_closed(locals: Seq<Data>, st: GenState, stmt: StmtView)
    requires
        gen_closed(st),
    ensures
        gen_closed(gen_stmt(locals, st, stmt)),
        st.function.blocks.len() <= gen_stmt(locals, st, stmt).function.blocks.len(),
    decreases stmt, 0int,
{
    match stmt {
        StmtView::Block(stmts) => {
            let st1 = pushed_scopes(st);
            lemma_stmts_closed(locals, st1, stmts);
            let st2 = gen_stmts(locals, st1, stmts);
            let local_count = st2.function.frame.innermost_len() as usize;
            let st3 = with_frame(st2, st2.function.frame.popped_scope());
            lemma_drops_closed(st3, local_count);
            let st4 = drop_values(st3, local_count);
            let st5 = with_upvars(st4, st4.upvars.popped_scope());
            lemma_drops_closed(st5, st4.upvars.innermost_len() as usize);
        },
        StmtView::AssignGlobal(symbol, value) => {
            lemma_expr_closed(locals, st, value);
            lemma_emit_closed(gen_expr(locals, st, value), InstructionView::StoreGlobal(symbol));
        },
        StmtView::DefineLocal(_, value) => {
            lemma_expr_closed(locals, st, value);
            lemma_emit_closed(gen_expr(locals, st, value), InstructionView::DefineUpvar);
        },
        StmtView::Print(value) => {
            lemma_expr_closed(locals, st, value);
            lemma_emit_closed(gen_expr(locals, st, value), InstructionView::Print);
        },
        StmtView::Expr(value) => {
            lemma_expr_closed(locals, st, value);
            lemma_emit_closed(gen_expr(locals, st, value), InstructionView::Pop(1));
        },
    }
}

/// Compiling an expression keeps the state closed and the blocks growing.
proof fn lemma_expr_closed(locals: Seq<Data>, st: GenState, expr: ExprView)
    requires
        gen_closed(st),
    ensures
        gen_closed(gen_expr(locals, st, expr)),
        st.function.blocks.len() <= gen_expr(locals, st, expr).function.blocks.len(),
    decreases expr, 0int,
{
    match expr {
        ExprView::Literal(literal) => lemma_emit_closed(st, InstructionView::PushLiteral(literal)),
        ExprView::Global(symbol) => lemma_emit_closed(st, InstructionView::PushGlobal(symbol)),
        ExprView::Local(local) => {
            lemma_emit_closed(
                st,
                InstructionView::PushUpvar(first_position(st.upvars.elems, local) as usize),
            );
            lemma_emit_closed(
                st,
                InstructionView::PushLocal(
                    first_position(
                        st.function.frame.elems,
                        crate::compile::stack::Elem::Local(local),
                    ) as usize,
                ),
            );
        },
        ExprView::Block(stmts, value) => {
            let st1 = pushed_scopes(st);
            lemma_stmts_closed(locals, st1, stmts);
            let st2 = gen_stmts(locals, st1, stmts);
            lemma_expr_closed(locals, st2, *value);
            let st3 = gen_expr(locals, st2, *value);
            let frame = st3.function.frame.popped_scope();
            let local_count = st3.function.frame.innermost_len() as usize;
            let st4 = with_frame(st3, frame);
            lemma_emit_closed(st4, InstructionView::StoreLocal(frame.elems.len() as usize));
            lemma_drops_closed(
                emit(st4, InstructionView::StoreLocal(frame.elems.len() as usize)),
                (local_count - 1) as usize,
            );
            let st5 = if local_count > 0 {
                drop_values(
                    emit(st4, InstructionView::StoreLocal(frame.elems.len() as usize)),
                    (local_count - 1) as usize,
                )
            } else {
                st4
            };
            let st6 = with_upvars(st5, st5.upvars.popped_scope());
            lemma_drops_closed(st6, st5.upvars.innermost_len() as usize);
        },
        ExprView::Function(params, body) => {
            if st.function_depth < usize::MAX {
                let entry = function_entry(st);
                lemma_single_block_closed();
                lemma_params_closed(locals, entry, params);
                let st1 = gen_params(locals, entry, params);
                lemma_expr_closed(locals, st1, *body);
                let inner = gen_expr(locals, st1, *body);
                let st2 = with_upvars(inner, inner.upvars.popped_scope());
                lemma_drops_closed(st2, inner.upvars.innermost_len() as usize);
                let st3 = popped_upvar_scope(inner);
                lemma_set_terminator_closed(st3, Terminator::Return);
                let inner1 = set_terminator(st3, Terminator::Return);
                let outer = GenState {
                    function: st.function,
                    upvars: inner1.upvars,
                    function_depth: st.function_depth,
                    ok: inner1.ok,
                };
                let pushed = InstructionView::PushFunction(
                    FunctionView { blocks: inner1.function.blocks, arity: params.len() as usize },
                );
                assert(instruction_closed(pushed));
                lemma_emit_closed(outer, pushed);
                lemma_emit_closed(emit(outer, pushed), InstructionView::IntoClosure);
            }
        },
        ExprView::Call(callee, args) => {
            lemma_expr_closed(locals, st, *callee);
            let st1 = pushed_temp(gen_expr(locals, st, *callee));
            lemma_args_closed(locals, st1, args);
            let st2 = gen_args(locals, st1, args);
            let return_label = st2.function.blocks.len() as usize;
            lemma_current_targets(st2);
            lemma_insert_block_closed(st2);
            let st3 = insert_block(st2);
            let terminator = current_block(st3).terminator;
            assert(current_block(st3) == current_block(st2));
            lemma_set_terminator_closed(
                st3,
                Terminator::Call(args.len() as usize, Label(return_label)),
            );
            let st4 = with_label(
                set_terminator(st3, Terminator::Call(args.len() as usize, Label(return_label))),
                return_label,
            );
            let st5 = with_frame(st4, st4.function.frame.popped(args.len() as int + 1));
            lemma_set_terminator_closed(st5, terminator);
        },
        ExprView::Unary(op, rhs) => {
            lemma_expr_closed(locals, st, *rhs);
            lemma_emit_closed(gen_expr(locals, st, *rhs), unary_instruction(op));
        },
        ExprView::Binary(op, lhs, rhs) => {
            lemma_expr_closed(locals, st, *lhs);
            let st1 = pushed_temp(gen_expr(locals, st, *lhs));
            lemma_expr_closed(locals, st1, *rhs);
            lemma_emit_closed(gen_expr(locals, st1, *rhs), binary_instruction(op));
        },
        ExprView::Cond(cond, then_expr, else_expr) => {
            lemma_expr_closed(locals, st, *cond);
            let st1 = gen_expr(locals, st, *cond);
            let then_label = st1.function.blocks.len() as usize;
            let else_label = (then_label + 1) as usize;
            let join_label = (then_label + 2) as usize;
            lemma_current_targets(st1);
            lemma_insert_block_closed(st1);
            lemma_insert_block_closed(insert_block(st1));
            lemma_insert_block_closed(insert_block(insert_block(st1)));
            let st2 = insert_block(insert_block(insert_block(st1)));
            let terminator = current_block(st2).terminator;
            assert(current_block(st2) == current_block(st1));
            lemma_set_terminator_closed(
                st2,
                Terminator::Branch(Label(then_label), Label(else_label)),
            );
            let st3 = with_label(
                set_terminator(st2, Terminator::Branch(Label(then_label), Label(else_label))),
                then_label,
            );
            lemma_expr_closed(locals, st3, *then_expr);
            lemma_set_terminator_closed(
                gen_expr(locals, st3, *then_expr),
                Terminator::Jump(Label(join_label)),
            );
            let st4 = with_label(
                set_terminator(gen_expr(locals, st3, *then_expr), Terminator::Jump(Label(join_label))),
                else_label,
            );
            lemma_expr_closed(locals, st4, *else_expr);
            lemma_set_terminator_closed(
                gen_expr(locals, st4, *else_expr),
                Terminator::Jump(Label(join_label)),
            );
            let st5 = with_label(
                set_terminator(gen_expr(locals, st4, *else_expr), Terminator::Jump(Label(join_label))),
                join_label,
            );
            lemma_set_terminator_closed(st5, terminator);
        },
    }
}

/// Every label in the graph that code generation gives for a program, and
/// in each function that it pushes, names a block of its own graph.
pub proof fn lemma_generated_program_closed(locals: Seq<Data>, stmts: Seq<StmtView>)
    ensures
        graph_closed(gen_program(locals, stmts).function.blocks),
{
    lemma_single_block_closed();
    lemma_stmts_closed(locals, initial_state(), stmts);
}

} // verus!
