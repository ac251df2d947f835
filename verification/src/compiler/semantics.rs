//! The meaning of compiling HIR to a control flow graph: the state that the
//! compiler threads through a program, and how each statement and
//! expression changes it.

use vstd::prelude::*;

use crate::cfg::{empty_block, BlockView, FunctionView, InstructionView, Label, Terminator};
use crate::compilation::codegen::semantics::{binary_instruction, first_position, unary_instruction};
use crate::decl_table::{Decl, DeclId};
use crate::hir::{ExprView, StmtView};
use crate::scoped::ScopedView;

use super::local_stack::{Elem, LocalStackView};

verus! {

/// The abstract state of the compiler. `ok` is false once a step met a
/// state in which the compiler cannot go on (a declaration that is not in
/// the table or not in scope, an upvalue declared outside of any scope, or
/// too deep a nesting of calls).
pub struct HirGenState {
    /// The basic blocks of the function being compiled.
    pub blocks: Seq<BlockView>,
    /// The label of the block that instructions are appended to.
    pub label: usize,
    /// The local stack of the function being compiled.
    pub locals: LocalStackView,
    /// The upvalue stack.
    pub upvalues: ScopedView<DeclId>,
    /// The current call depth.
    pub call_depth: usize,
    pub ok: bool,
}

/// The local stack of a new function at a call depth.
pub open spec fn new_locals(call_depth: usize) -> LocalStackView {
    LocalStackView { stack: ScopedView::empty(), upvalue_call_depth: call_depth }
}

/// The state that compiling a program starts from.
pub open spec fn hir_initial_state() -> HirGenState {
    HirGenState {
        blocks: seq![empty_block()],
        label: 0,
        locals: new_locals(0),
        upvalues: ScopedView::empty(),
        call_depth: 0,
        ok: true,
    }
}

/// The state after a step that cannot be taken.
pub open spec fn failed(st: HirGenState) -> HirGenState {
    HirGenState { ok: false, ..st }
}

/// The state with a new local stack.
pub open spec fn with_stack(st: HirGenState, stack: ScopedView<Elem>) -> HirGenState {
    HirGenState { locals: LocalStackView { stack, ..st.locals }, ..st }
}

/// The state with a new upvalue stack.
pub open spec fn with_upvalues(st: HirGenState, upvalues: ScopedView<DeclId>) -> HirGenState {
    HirGenState { upvalues, ..st }
}

/// The state with a new current label.
pub open spec fn with_label(st: HirGenState, label: usize) -> HirGenState {
    HirGenState { label, ..st }
}

/// The current block.
pub open spec fn current_block(st: HirGenState) -> BlockView {
    st.blocks[st.label as int]
}

/// The state after appending an instruction to the current block.
pub open spec fn emit(st: HirGenState, instruction: InstructionView) -> HirGenState {
    let block = current_block(st);
    HirGenState {
        blocks: st.blocks.update(
            st.label as int,
            BlockView { instructions: block.instructions.push(instruction), ..block },
        ),
        ..st
    }
}

/// The state after setting the current block's terminator.
pub open spec fn set_terminator(st: HirGenState, terminator: Terminator) -> HirGenState {
    let block = current_block(st);
    HirGenState {
        blocks: st.blocks.update(st.label as int, BlockView { terminator, ..block }),
        ..st
    }
}

/// The state after adding an empty block with a terminator; its label is
/// the number of blocks before.
pub open spec fn add_block(st: HirGenState, terminator: Terminator) -> HirGenState {
    HirGenState {
        blocks: st.blocks.push(BlockView { instructions: Seq::empty(), terminator }),
        ..st
    }
}

/// The state after marking an upvalue declared at a call depth as accessed.
pub open spec fn accessed_upvalue(st: HirGenState, call_depth: usize) -> HirGenState {
    if call_depth < st.locals.upvalue_call_depth {
        HirGenState { locals: LocalStackView { upvalue_call_depth: call_depth, ..st.locals }, ..st }
    } else {
        st
    }
}

/// The state after dropping a number of values: nothing is emitted for none.
pub open spec fn drop_values(st: HirGenState, count: usize) -> HirGenState {
    if count > 0 {
        emit(st, InstructionView::Pop(count))
    } else {
        st
    }
}

/// The state after dropping a number of upvalues: nothing is emitted for
/// none.
pub open spec fn drop_upvalues(st: HirGenState, count: usize) -> HirGenState {
    if count > 0 {
        emit(st, InstructionView::PopUpvars(count))
    } else {
        st
    }
}

/// The state after opening an upvalue scope and a block.
pub open spec fn began_block(st: HirGenState) -> HirGenState {
    with_stack(
        with_upvalues(st, st.upvalues.pushed_scope()),
        st.locals.stack.pushed_scope(),
    )
}

/// The state after closing the innermost upvalue scope and dropping its
/// upvalues.
pub open spec fn ended_upvalue_scope(st: HirGenState) -> HirGenState {
    drop_upvalues(
        with_upvalues(st, st.upvalues.popped_scope()),
        st.upvalues.innermost_len() as usize,
    )
}

/// The state after closing a block statement.
pub open spec fn finish_block_stmt(st: HirGenState) -> HirGenState {
    let local_count = st.locals.stack.innermost_len() as usize;
    ended_upvalue_scope(drop_values(with_stack(st, st.locals.stack.popped_scope()), local_count))
}

/// The state after closing a block expression: the block's value is moved
/// into the first of the block's locals, and the others dropped.
pub open spec fn finish_block_expr(st: HirGenState) -> HirGenState {
    let stack = st.locals.stack.popped_scope();
    let local_count = st.locals.stack.innermost_len() as usize;
    let st1 = with_stack(st, stack);
    let st2 = if local_count > 0 {
        drop_values(
            emit(st1, InstructionView::StoreLocal(stack.elems.len() as usize)),
            (local_count - 1) as usize,
        )
    } else {
        st1
    };
    ended_upvalue_scope(st2)
}

/// The state after pushing a temporary value.
pub open spec fn pushed_temp(st: HirGenState) -> HirGenState {
    with_stack(st, st.locals.stack.pushed(Elem::Temp))
}

/// The state after pushing a declaration's value.
pub open spec fn gen_local(decls: Seq<Decl>, st: HirGenState, id: DeclId) -> HirGenState {
    if id.0 >= decls.len() {
        failed(st)
    } else {
        let decl = decls[id.0 as int];
        if decl.is_upvalue {
            if st.upvalues.elems.contains(id) {
                accessed_upvalue(
                    emit(st, InstructionView::PushUpvar(first_position(st.upvalues.elems, id) as usize)),
                    decl.call_depth,
                )
            } else {
                failed(st)
            }
        } else if st.locals.stack.elems.contains(Elem::Local(id)) {
            emit(
                st,
                InstructionView::PushLocal(
                    first_position(st.locals.stack.elems, Elem::Local(id)) as usize,
                ),
            )
        } else {
            failed(st)
        }
    }
}

/// The state after defining a declaration whose value is on the stack.
pub open spec fn define_local(decls: Seq<Decl>, st: HirGenState, id: DeclId) -> HirGenState {
    if id.0 >= decls.len() {
        failed(st)
    } else if decls[id.0 as int].is_upvalue {
        if st.upvalues.scope_offsets.len() == 0 {
            failed(st)
        } else {
            with_upvalues(emit(st, InstructionView::DefineUpvar), st.upvalues.pushed(id))
        }
    } else {
        with_stack(st, st.locals.stack.pushed(Elem::Local(id)))
    }
}

/// The state after declaring a function's parameters, in order. An upvalue
/// parameter is copied from its stack slot and defined as an upvalue.
pub open spec fn gen_params(decls: Seq<Decl>, st: HirGenState, params: Seq<DeclId>) -> HirGenState
    decreases params.len(),
{
    if params.len() == 0 {
        st
    } else {
        let st1 = gen_params(decls, st, params.drop_last());
        let id = params.last();
        if id.0 >= decls.len() {
            failed(st1)
        } else if decls[id.0 as int].is_upvalue {
            let offset = st1.locals.stack.elems.len() as usize;
            let st2 = pushed_temp(st1);
            let st3 = emit(
                emit(st2, InstructionView::PushLocal(offset)),
                InstructionView::DefineUpvar,
            );
            with_upvalues(st3, st3.upvalues.pushed(id))
        } else {
            with_stack(st1, st1.locals.stack.pushed(Elem::Local(id)))
        }
    }
}

/// The state in which a function's body is compiled: one call deeper, with
/// a new control flow graph, a new local stack and a new upvalue scope.
pub open spec fn function_entry(st: HirGenState) -> HirGenState {
    let call_depth = (st.call_depth + 1) as usize;
    HirGenState {
        blocks: seq![empty_block()],
        label: 0,
        locals: new_locals(call_depth),
        upvalues: st.upvalues.pushed_scope(),
        call_depth,
        ok: st.ok,
    }
}

/// The state after a function whose body left `inner` behind: the upvalue
/// scope is closed, the body returns, and the function is pushed (as a
/// closure if it accesses an upvalue declared outside of it).
pub open spec fn function_exit(st: HirGenState, inner: HirGenState, arity: usize) -> HirGenState {
    let inner1 = set_terminator(ended_upvalue_scope(inner), Terminator::Return);
    let outer = HirGenState { upvalues: inner1.upvalues, ok: inner1.ok, ..st };
    let st1 = emit(
        outer,
        InstructionView::PushFunction(FunctionView { blocks: inner1.blocks, arity }),
    );
    let upvalue_call_depth = inner1.locals.upvalue_call_depth;
    if upvalue_call_depth <= st.call_depth {
        emit(accessed_upvalue(st1, upvalue_call_depth), InstructionView::IntoClosure)
    } else {
        st1
    }
}

/// The state after a call's callee and arguments: the current block ends
/// with the call, and compiling goes on in a block split off from it.
pub open spec fn call_exit(st: HirGenState, arity: int) -> HirGenState {
    let return_label = st.blocks.len() as usize;
    let st1 = add_block(st, current_block(st).terminator);
    let st2 = with_label(
        set_terminator(st1, Terminator::Call(arity as usize, Label(return_label))),
        return_label,
    );
    with_stack(st2, st2.locals.stack.popped(arity + 1))
}

/// Compiles a sequence of statements, in order.
pub open spec fn gen_stmts(decls: Seq<Decl>, st: HirGenState, stmts: Seq<StmtView>) -> HirGenState
    decreases stmts, 1int,
{
    if stmts.len() == 0 {
        st
    } else {
        gen_stmt(decls, gen_stmts(decls, st, stmts.drop_last()), stmts.last())
    }
}

/// Compiles call arguments, in order, each left on the stack.
pub open spec fn gen_args(decls: Seq<Decl>, st: HirGenState, args: Seq<ExprView>) -> HirGenState
    decreases args, 1int,
{
    if args.len() == 0 {
        st
    } else {
        pushed_temp(gen_expr(decls, gen_args(decls, st, args.drop_last()), args.last()))
    }
}

/// Compiles a statement.
pub open spec fn gen_stmt(decls: Seq<Decl>, st: HirGenState, stmt: StmtView) -> HirGenState
    decreases stmt, 0int,
{
    match stmt {
        StmtView::Nop => st,
        StmtView::Block(stmts) => finish_block_stmt(gen_stmts(decls, began_block(st), stmts)),
        StmtView::AssignGlobal(symbol, value) => emit(
            gen_expr(decls, st, value),
            InstructionView::StoreGlobal(symbol),
        ),
        StmtView::DefineLocal(id, value) => define_local(decls, gen_expr(decls, st, value), id),
        StmtView::Print(value) => emit(gen_expr(decls, st, value), InstructionView::Print),
        StmtView::Expr(value) => emit(gen_expr(decls, st, value), InstructionView::Pop(1)),
    }
}

/// Compiles an expression, whose value is left on the stack.
pub open spec fn gen_expr(decls: Seq<Decl>, st: HirGenState, expr: ExprView) -> HirGenState
    decreases expr, 0int,
{
    match expr {
        ExprView::Literal(literal) => emit(st, InstructionView::PushLiteral(literal)),
        ExprView::Global(symbol) => emit(st, InstructionView::PushGlobal(symbol)),
        ExprView::Local(id) => gen_local(decls, st, id),
        ExprView::Block(stmts, value) => finish_block_expr(
            gen_expr(decls, gen_stmts(decls, began_block(st), stmts), *value),
        ),
        ExprView::Function(params, body) => if st.call_depth >= usize::MAX {
            failed(st)
        } else {
            function_exit(
                st,
                gen_expr(decls, gen_params(decls, function_entry(st), params), *body),
                params.len() as usize,
            )
        },
        ExprView::Call(callee, args) => call_exit(
            gen_args(decls, pushed_temp(gen_expr(decls, st, *callee)), args),
            args.len() as int,
        ),
        ExprView::Unary(op, rhs) => emit(gen_expr(decls, st, *rhs), unary_instruction(op)),
        ExprView::Binary(op, lhs, rhs) => {
            let st1 = emit(
                gen_expr(decls, pushed_temp(gen_expr(decls, st, *lhs)), *rhs),
                binary_instruction(op),
            );
            with_stack(st1, st1.locals.stack.popped(1))
        },
        ExprView::Cond(cond, then_expr, else_expr) => {
            let st1 = gen_expr(decls, st, *cond);
            let final_label = st1.blocks.len() as usize;
            let then_label = (final_label + 1) as usize;
            let else_label = (final_label + 2) as usize;
            let st2 = add_block(st1, current_block(st1).terminator);
            let st3 = add_block(add_block(st2, Terminator::Jump(Label(final_label))), Terminator::Jump(Label(final_label)));
            let st4 = with_label(
                set_terminator(st3, Terminator::Branch(Label(then_label), Label(else_label))),
                then_label,
            );
            let st5 = with_label(gen_expr(decls, st4, *then_expr), else_label);
            with_label(gen_expr(decls, st5, *else_expr), final_label)
        },
    }
}

/// Compiles a program's statements from the initial state.
pub open spec fn gen_hir(decls: Seq<Decl>, stmts: Seq<StmtView>) -> HirGenState {
    gen_stmts(decls, hir_initial_state(), stmts)
}

/// Declaring parameters only succeeds from a state that had not failed.
pub proof fn lemma_params_ok(decls: Seq<Decl>, st: HirGenState, params: Seq<DeclId>)
    ensures
        gen_params(decls, st, params).ok ==> st.ok,
    decreases params.len(),
{
    if params.len() > 0 {
        lemma_params_ok(decls, st, params.drop_last());
    }
}

/// Declaring a prefix of the parameters succeeds where declaring them all
/// does.
pub proof fn lemma_params_prefix_ok(decls: Seq<Decl>, st: HirGenState, params: Seq<DeclId>, k: int)
    requires
        0 <= k <= params.len(),
        gen_params(decls, st, params).ok,
    ensures
        gen_params(decls, st, params.take(k)).ok,
    decreases params.len(),
{
    if k < params.len() {
        lemma_params_ok(decls, gen_params(decls, st, params.drop_last()), seq![params.last()]);
        assert(params.drop_last().take(k) =~= params.take(k));
        lemma_params_prefix_ok(decls, st, params.drop_last(), k);
    } else {
        assert(params.take(k) =~= params);
    }
}

/// Compiling statements only succeeds from a state that had not failed.
pub proof fn lemma_stmts_ok(decls: Seq<Decl>, st: HirGenState, stmts: Seq<StmtView>)
    ensures
        gen_stmts(decls, st, stmts).ok ==> st.ok,
    decreases stmts, 1int,
{
    if stmts.len() > 0 {
        lemma_stmt_ok(decls, gen_stmts(decls, st, stmts.drop_last()), stmts.last());
        lemma_stmts_ok(decls, st, stmts.drop_last());
    }
}

/// Compiling a prefix of the statements succeeds where compiling them all
/// does.
pub proof fn lemma_stmts_prefix_ok(decls: Seq<Decl>, st: HirGenState, stmts: Seq<StmtView>, k: int)
    requires
        0 <= k <= stmts.len(),
        gen_stmts(decls, st, stmts).ok,
    ensures
        gen_stmts(decls, st, stmts.take(k)).ok,
    decreases stmts.len(),
{
    if k < stmts.len() {
        lemma_stmt_ok(decls, gen_stmts(decls, st, stmts.drop_last()), stmts.last());
        assert(stmts.drop_last().take(k) =~= stmts.take(k));
        lemma_stmts_prefix_ok(decls, st, stmts.drop_last(), k);
    } else {
        assert(stmts.take(k) =~= stmts);
    }
}

/// Compiling arguments only succeeds from a state that had not failed.
pub proof fn lemma_args_ok(decls: Seq<Decl>, st: HirGenState, args: Seq<ExprView>)
    ensures
        gen_args(decls, st, args).ok ==> st.ok,
    decreases args, 1int,
{
    if args.len() > 0 {
        lemma_expr_ok(decls, gen_args(decls, st, args.drop_last()), args.last());
        lemma_args_ok(decls, st, args.drop_last());
    }
}

/// Compiling a prefix of the arguments succeeds where compiling them all
/// does.
pub proof fn lemma_args_prefix_ok(decls: Seq<Decl>, st: HirGenState, args: Seq<ExprView>, k: int)
    requires
        0 <= k <= args.len(),
        gen_args(decls, st, args).ok,
    ensures
        gen_args(decls, st, args.take(k)).ok,
    decreases args.len(),
{
    if k < args.len() {
        lemma_expr_ok(decls, gen_args(decls, st, args.drop_last()), args.last());
        assert(args.drop_last().take(k) =~= args.take(k));
        lemma_args_prefix_ok(decls, st, args.drop_last(), k);
    } else {
        assert(args.take(k) =~= args);
    }
}

/// Compiling a statement only succeeds from a state that had not failed.
pub proof fn lemma_stmt_ok(decls: Seq<Decl>, st: HirGenState, stmt: StmtView)
    ensures
        gen_stmt(decls, st, stmt).ok ==> st.ok,
    decreases stmt, 0int,
{
    match stmt {
        StmtView::Nop => {},
        StmtView::Block(stmts) => lemma_stmts_ok(decls, began_block(st), stmts),
        StmtView::AssignGlobal(_, value) => lemma_expr_ok(decls, st, value),
        StmtView::DefineLocal(_, value) => lemma_expr_ok(decls, st, value),
        StmtView::Print(value) => lemma_expr_ok(decls, st, value),
        StmtView::Expr(value) => lemma_expr_ok(decls, st, value),
    }
}

/// Compiling an expression only succeeds from a state that had not failed.
pub proof fn lemma_expr_ok(decls: Seq<Decl>, st: HirGenState, expr: ExprView)
    ensures
        gen_expr(decls, st, expr).ok ==> st.ok,
    decreases expr, 1int,
{
    match expr {
        ExprView::Block(stmts, value) => {
            lemma_expr_ok(decls, gen_stmts(decls, began_block(st), stmts), *value);
            lemma_stmts_ok(decls, began_block(st), stmts);
        },
        ExprView::Function(params, body) => {
            if st.call_depth < usize::MAX {
                let entry = function_entry(st);
                lemma_expr_ok(decls, gen_params(decls, entry, params), *body);
                lemma_params_ok(decls, entry, params);
            }
        },
        ExprView::Call(callee, args) => {
            lemma_args_ok(decls, pushed_temp(gen_expr(decls, st, *callee)), args);
            lemma_expr_ok(decls, st, *callee);
        },
        ExprView::Unary(_, rhs) => lemma_expr_ok(decls, st, *rhs),
        ExprView::Binary(_, lhs, rhs) => {
            lemma_expr_ok(decls, pushed_temp(gen_expr(decls, st, *lhs)), *rhs);
            lemma_expr_ok(decls, st, *lhs);
        },
        ExprView::Cond(cond, _, _) => {
            lemma_cond_ok(decls, st, expr);
            lemma_expr_ok(decls, st, *cond);
        },
        _ => {},
    }
}

/// The state in which a conditional's first branch is compiled, after its
/// condition left `st1`.
pub open spec fn cond_entry(st1: HirGenState) -> HirGenState {
    let final_label = st1.blocks.len() as usize;
    let then_label = (final_label + 1) as usize;
    let else_label = (final_label + 2) as usize;
    let st2 = add_block(st1, current_block(st1).terminator);
    let st3 = add_block(add_block(st2, Terminator::Jump(Label(final_label))), Terminator::Jump(Label(final_label)));
    with_label(
        set_terminator(st3, Terminator::Branch(Label(then_label), Label(else_label))),
        then_label,
    )
}

/// Compiling a conditional only succeeds where compiling its condition and
/// its first branch does.
pub proof fn lemma_cond_ok(decls: Seq<Decl>, st: HirGenState, expr: ExprView)
    ensures
        expr matches ExprView::Cond(cond, then_expr, _) ==> (gen_expr(decls, st, expr).ok ==> gen_expr(
            decls,
            st,
            *cond,
        ).ok && gen_expr(decls, cond_entry(gen_expr(decls, st, *cond)), *then_expr).ok),
    decreases expr, 0int,
{
    if let ExprView::Cond(cond, then_expr, else_expr) = expr {
        let st1 = gen_expr(decls, st, *cond);
        let final_label = st1.blocks.len() as usize;
        let else_label = (final_label + 2) as usize;
        let st4 = cond_entry(st1);
        let st5 = with_label(gen_expr(decls, st4, *then_expr), else_label);
        lemma_expr_ok(decls, st5, *else_expr);
        lemma_expr_ok(decls, st4, *then_expr);
    }
}

} // verus!
