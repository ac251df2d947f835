//! The meaning of compiling IR to a control flow graph: the state that code
//! generation threads through a program, and how each statement and
//! expression changes it.

use vstd::prelude::*;

use crate::ast::{BinOp, UnOp};
use crate::cfg::{empty_block, BlockView, FunctionView, InstructionView, Label, Terminator};
use crate::compilation::ir::{ExprView, StmtView};
use crate::compile::stack::{is_local, Elem, StackFrameView};
use crate::locals::{Data, Local};
use crate::scoped::{is_first_position, ScopedView};

verus! {

/// The abstract state of the function being compiled.
pub struct ContextView {
    /// The basic blocks compiled so far.
    pub blocks: Seq<BlockView>,
    /// The label of the block that instructions are appended to.
    pub label: usize,
    /// The stack frame.
    pub frame: StackFrameView,
    /// The minimum function depth where an accessed upvar was declared.
    pub min_upvar_function_depth: usize,
}

/// The abstract state of code generation. `ok` is false once a step met
/// a state in which the compiler cannot go on (a local that is not in
/// scope, a local definition outside of any block, or too deep a nesting of
/// functions).
pub struct GenState {
    pub function: ContextView,
    pub upvars: ScopedView<Local>,
    pub function_depth: usize,
    pub ok: bool,
}

/// The context of a new function at a function depth: one empty main block.
pub open spec fn new_context(function_depth: usize) -> ContextView {
    ContextView {
        blocks: seq![empty_block()],
        label: 0,
        frame: StackFrameView::empty(),
        min_upvar_function_depth: function_depth,
    }
}

/// `after` is `before` with elements pushed on top and the same scopes.
pub open spec fn extends<E>(before: ScopedView<E>, after: ScopedView<E>) -> bool {
    &&& after.scope_offsets == before.scope_offsets
    &&& before.elems.len() <= after.elems.len()
    &&& after.elems.take(before.elems.len() as int) == before.elems
}

/// `after` is `before` with local variables pushed on top and the same
/// scopes.
pub open spec fn extends_locals(before: StackFrameView, after: StackFrameView) -> bool {
    &&& extends(before, after)
    &&& forall|i: int|
        before.elems.len() <= i < after.elems.len() ==> is_local(#[trigger] after.elems[i])
}

/// Extending is transitive.
pub proof fn lemma_extends_trans<E>(a: ScopedView<E>, b: ScopedView<E>, c: ScopedView<E>)
    requires
        extends(a, b),
        extends(b, c),
    ensures
        extends(a, c),
{
    assert(c.elems.take(a.elems.len() as int) =~= b.elems.take(a.elems.len() as int));
}

/// Extending by local variables is transitive.
pub proof fn lemma_extends_locals_trans(a: StackFrameView, b: StackFrameView, c: StackFrameView)
    requires
        extends_locals(a, b),
        extends_locals(b, c),
    ensures
        extends_locals(a, c),
{
    lemma_extends_trans(a, b, c);
    assert forall|i: int| a.elems.len() <= i < c.elems.len() implies is_local(#[trigger] c.elems[i]) by {
        if i < b.elems.len() {
            assert(c.elems.take(b.elems.len() as int)[i] == b.elems[i]);
        }
    }
}

/// A stack extended within a scope that is then closed is the stack from
/// before the scope.
pub proof fn lemma_scope_closes<E>(before: ScopedView<E>, after: ScopedView<E>)
    requires
        extends(before.pushed_scope(), after),
    ensures
        after.popped_scope() == before,
{
    assert(after.scope_offsets.drop_last() =~= before.scope_offsets);
}

/// The state that compiling a program starts from.
pub open spec fn initial_state() -> GenState {
    GenState {
        function: new_context(0),
        upvars: ScopedView::empty(),
        function_depth: 0,
        ok: true,
    }
}

/// The state after a step that cannot be taken.
pub open spec fn failed(st: GenState) -> GenState {
    GenState { ok: false, ..st }
}

/// The state with a new stack frame.
pub open spec fn with_frame(st: GenState, frame: StackFrameView) -> GenState {
    GenState { function: ContextView { frame, ..st.function }, ..st }
}

/// The state with a new upvar stack.
pub open spec fn with_upvars(st: GenState, upvars: ScopedView<Local>) -> GenState {
    GenState { upvars, ..st }
}

/// The state with a new current label.
pub open spec fn with_label(st: GenState, label: usize) -> GenState {
    GenState { function: ContextView { label, ..st.function }, ..st }
}

/// The state with new blocks.
pub open spec fn with_blocks(st: GenState, blocks: Seq<BlockView>) -> GenState {
    GenState { function: ContextView { blocks, ..st.function }, ..st }
}

/// The current block.
pub open spec fn current_block(st: GenState) -> BlockView {
    st.function.blocks[st.function.label as int]
}

/// The state after appending an instruction to the current block.
pub open spec fn emit(st: GenState, instruction: InstructionView) -> GenState {
    let block = current_block(st);
    with_blocks(
        st,
        st.function.blocks.update(
            st.function.label as int,
            BlockView { instructions: block.instructions.push(instruction), ..block },
        ),
    )
}

/// The state after setting the current block's terminator.
pub open spec fn set_terminator(st: GenState, terminator: Terminator) -> GenState {
    let block = current_block(st);
    with_blocks(
        st,
        st.function.blocks.update(st.function.label as int, BlockView { terminator, ..block }),
    )
}

/// The state after inserting an empty block, whose label is the number of
/// blocks before.
pub open spec fn insert_block(st: GenState) -> GenState {
    with_blocks(st, st.function.blocks.push(empty_block()))
}

/// The state after marking an upvar declared at a function depth as
/// accessed.
pub open spec fn accessed_upvar(st: GenState, function_depth: usize) -> GenState {
    if function_depth < st.function.min_upvar_function_depth {
        GenState {
            function: ContextView { min_upvar_function_depth: function_depth, ..st.function },
            ..st
        }
    } else {
        st
    }
}

/// The state after dropping a number of values: nothing is emitted for none.
pub open spec fn drop_values(st: GenState, count: usize) -> GenState {
    if count > 0 {
        emit(st, InstructionView::Pop(count))
    } else {
        st
    }
}

/// The state after dropping a number of upvars: nothing is emitted for none.
pub open spec fn drop_upvars(st: GenState, count: usize) -> GenState {
    if count > 0 {
        emit(st, InstructionView::PopUpvars(count))
    } else {
        st
    }
}

/// The state after opening a scope in both the stack frame and the upvar
/// stack.
pub open spec fn pushed_scopes(st: GenState) -> GenState {
    with_frame(
        with_upvars(st, st.upvars.pushed_scope()),
        st.function.frame.pushed_scope(),
    )
}

/// The state after closing the innermost upvar scope and dropping its
/// upvars.
pub open spec fn popped_upvar_scope(st: GenState) -> GenState {
    drop_upvars(with_upvars(st, st.upvars.popped_scope()), st.upvars.innermost_len() as usize)
}

/// The state after closing a block statement's scopes.
pub open spec fn finish_block_stmt(st: GenState) -> GenState {
    let local_count = st.function.frame.innermost_len() as usize;
    popped_upvar_scope(drop_values(with_frame(st, st.function.frame.popped_scope()), local_count))
}

/// The state after closing a block expression's scopes: the block's value
/// is moved into the first of the block's locals, and the others dropped.
pub open spec fn finish_block_expr(st: GenState) -> GenState {
    let frame = st.function.frame.popped_scope();
    let local_count = st.function.frame.innermost_len() as usize;
    let st1 = with_frame(st, frame);
    let st2 = if local_count > 0 {
        drop_values(
            emit(st1, InstructionView::StoreLocal(frame.elems.len() as usize)),
            (local_count - 1) as usize,
        )
    } else {
        st1
    };
    popped_upvar_scope(st2)
}

/// The first position of an element in a sequence.
pub open spec fn first_position<T>(s: Seq<T>, x: T) -> int {
    choose|i: int| is_first_position(s, x, i)
}

/// A first position is the first position.
pub proof fn lemma_first_position<T>(s: Seq<T>, x: T, i: int)
    requires
        is_first_position(s, x, i),
    ensures
        first_position(s, x) == i,
{
    let j = first_position(s, x);
    assert(is_first_position(s, x, j));
    if j < i {
        assert(s[j] != x);
    } else if i < j {
        assert(s[i] != x);
    }
}

/// The state after pushing a local variable's value.
pub open spec fn gen_local(locals: Seq<Data>, st: GenState, local: Local) -> GenState {
    if local.0 >= locals.len() {
        failed(st)
    } else {
        let data = locals[local.0 as int];
        if data.is_upvar {
            if st.upvars.elems.contains(local) {
                accessed_upvar(
                    emit(
                        st,
                        InstructionView::PushUpvar(first_position(st.upvars.elems, local) as usize),
                    ),
                    data.function_depth,
                )
            } else {
                failed(st)
            }
        } else {
            if st.function.frame.elems.contains(Elem::Local(local)) {
                emit(
                    st,
                    InstructionView::PushLocal(
                        first_position(st.function.frame.elems, Elem::Local(local)) as usize,
                    ),
                )
            } else {
                failed(st)
            }
        }
    }
}

/// The state after defining a local variable whose value is on the stack.
pub open spec fn define_local(locals: Seq<Data>, st: GenState, local: Local) -> GenState {
    if local.0 >= locals.len() {
        failed(st)
    } else if locals[local.0 as int].is_upvar {
        with_upvars(emit(st, InstructionView::DefineUpvar), st.upvars.pushed(local))
    } else if st.function.frame.scope_offsets.len() == 0 {
        failed(st)
    } else {
        with_frame(st, st.function.frame.pushed(Elem::Local(local)))
    }
}

/// The state after declaring a function's parameters, in order. An upvar
/// parameter is copied from its stack slot and defined as an upvar.
pub open spec fn gen_params(locals: Seq<Data>, st: GenState, params: Seq<Local>) -> GenState
    decreases params.len(),
{
    if params.len() == 0 {
        st
    } else {
        let st1 = gen_params(locals, st, params.drop_last());
        let local = params.last();
        if local.0 >= locals.len() {
            failed(st1)
        } else if locals[local.0 as int].is_upvar {
            let offset = st1.function.frame.elems.len() as usize;
            let st2 = with_frame(st1, st1.function.frame.pushed(Elem::Temp));
            let st3 = emit(
                emit(st2, InstructionView::PushLocal(offset)),
                InstructionView::DefineUpvar,
            );
            with_upvars(st3, st3.upvars.pushed(local))
        } else {
            with_frame(st1, st1.function.frame.pushed(Elem::Local(local)))
        }
    }
}

/// The state in which a function's body is compiled: a new context one
/// function deeper, with a new upvar scope.
pub open spec fn function_entry(st: GenState) -> GenState {
    let function_depth = (st.function_depth + 1) as usize;
    GenState {
        function: new_context(function_depth),
        upvars: st.upvars.pushed_scope(),
        function_depth,
        ok: st.ok,
    }
}

/// The state after a function whose body left `inner` behind: the
/// function's upvar scope is closed, its last block returns, and the
/// function is pushed to the enclosing function (as a closure if it accesses
/// an upvar declared outside of it).
pub open spec fn function_exit(st: GenState, inner: GenState, arity: usize) -> GenState {
    let inner1 = set_terminator(popped_upvar_scope(inner), Terminator::Return);
    let outer = GenState {
        function: st.function,
        upvars: inner1.upvars,
        function_depth: st.function_depth,
        ok: inner1.ok,
    };
    let st1 = emit(
        outer,
        InstructionView::PushFunction(FunctionView { blocks: inner1.function.blocks, arity }),
    );
    let upvar_function_depth = inner1.function.min_upvar_function_depth;
    if upvar_function_depth <= st.function_depth {
        accessed_upvar(emit(st1, InstructionView::IntoClosure), upvar_function_depth)
    } else {
        st1
    }
}

/// The state after a call's callee and arguments: the current block ends
/// with the call, and compiling goes on in a new block that returns to where
/// the current block went.
pub open spec fn call_exit(st: GenState, arity: int) -> GenState {
    let return_label = st.function.blocks.len() as usize;
    let st1 = insert_block(st);
    let terminator = current_block(st1).terminator;
    let st2 = with_label(set_terminator(st1, Terminator::Call(arity as usize, Label(return_label))), return_label);
    set_terminator(with_frame(st2, st2.function.frame.popped(arity + 1)), terminator)
}

/// The instruction for a unary operator.
pub open spec fn unary_instruction(op: UnOp) -> InstructionView {
    match op {
        UnOp::Negate => InstructionView::Negate,
        UnOp::Not => InstructionView::Not,
    }
}

/// The instruction for a binary operator.
pub open spec fn binary_instruction(op: BinOp) -> InstructionView {
    match op {
        BinOp::Add => InstructionView::Add,
        BinOp::Subtract => InstructionView::Subtract,
        BinOp::Multiply => InstructionView::Multiply,
        BinOp::Divide => InstructionView::Divide,
        BinOp::Power => InstructionView::Power,
        BinOp::Equal => InstructionView::Equal,
        BinOp::NotEqual => InstructionView::NotEqual,
        BinOp::Less => InstructionView::Less,
        BinOp::LessEqual => InstructionView::LessEqual,
        BinOp::Greater => InstructionView::Greater,
        BinOp::GreaterEqual => InstructionView::GreaterEqual,
    }
}

/// The state after pushing a temporary value to the stack frame.
pub open spec fn pushed_temp(st: GenState) -> GenState {
    with_frame(st, st.function.frame.pushed(Elem::Temp))
}

/// Compiles a sequence of statements, in order.
pub open spec fn gen_stmts(locals: Seq<Data>, st: GenState, stmts: Seq<StmtView>) -> GenState
    decreases stmts, 1int,
{
    if stmts.len() == 0 {
        st
    } else {
        gen_stmt(locals, gen_stmts(locals, st, stmts.drop_last()), stmts.last())
    }
}

/// Compiles call arguments, in order, each left on the stack.
pub open spec fn gen_args(locals: Seq<Data>, st: GenState, args: Seq<ExprView>) -> GenState
    decreases args, 1int,
{
    if args.len() == 0 {
        st
    } else {
        pushed_temp(gen_expr(locals, gen_args(locals, st, args.drop_last()), args.last()))
    }
}

/// Compiles a statement.
pub open spec fn gen_stmt(locals: Seq<Data>, st: GenState, stmt: StmtView) -> GenState
    decreases stmt, 0int,
{
    match stmt {
        StmtView::Block(stmts) => finish_block_stmt(gen_stmts(locals, pushed_scopes(st), stmts)),
        StmtView::AssignGlobal(symbol, value) => emit(
            gen_expr(locals, st, value),
            InstructionView::StoreGlobal(symbol),
        ),
        StmtView::DefineLocal(local, value) => define_local(
            locals,
            gen_expr(locals, st, value),
            local,
        ),
        StmtView::Print(value) => emit(gen_expr(locals, st, value), InstructionView::Print),
        StmtView::Expr(value) => emit(gen_expr(locals, st, value), InstructionView::Pop(1)),
    }
}

/// Compiles an expression, whose value is left on the stack.
pub open spec fn gen_expr(locals: Seq<Data>, st: GenState, expr: ExprView) -> GenState
    decreases expr, 0int,
{
    match expr {
        ExprView::Literal(literal) => emit(st, InstructionView::PushLiteral(literal)),
        ExprView::Global(symbol) => emit(st, InstructionView::PushGlobal(symbol)),
        ExprView::Local(local) => gen_local(locals, st, local),
        ExprView::Block(stmts, value) => finish_block_expr(
            gen_expr(locals, gen_stmts(locals, pushed_scopes(st), stmts), *value),
        ),
        ExprView::Function(params, body) => if st.function_depth >= usize::MAX {
            failed(st)
        } else {
            function_exit(
                st,
                gen_expr(locals, gen_params(locals, function_entry(st), params), *body),
                params.len() as usize,
            )
        },
        ExprView::Call(callee, args) => call_exit(
            gen_args(locals, pushed_temp(gen_expr(locals, st, *callee)), args),
            args.len() as int,
        ),
        ExprView::Unary(op, rhs) => emit(gen_expr(locals, st, *rhs), unary_instruction(op)),
        ExprView::Binary(op, lhs, rhs) => {
            let st1 = emit(
                gen_expr(locals, pushed_temp(gen_expr(locals, st, *lhs)), *rhs),
                binary_instruction(op),
            );
            with_frame(st1, st1.function.frame.popped(1))
        },
        ExprView::Cond(cond, then_expr, else_expr) => {
            let st1 = gen_expr(locals, st, *cond);
            let then_label = st1.function.blocks.len() as usize;
            let else_label = (then_label + 1) as usize;
            let join_label = (then_label + 2) as usize;
            let st2 = insert_block(insert_block(insert_block(st1)));
            let terminator = current_block(st2).terminator;
            let st3 = with_label(
                set_terminator(st2, Terminator::Branch(Label(then_label), Label(else_label))),
                then_label,
            );
            let st4 = with_label(
                set_terminator(gen_expr(locals, st3, *then_expr), Terminator::Jump(Label(join_label))),
                else_label,
            );
            let st5 = with_label(
                set_terminator(gen_expr(locals, st4, *else_expr), Terminator::Jump(Label(join_label))),
                join_label,
            );
            set_terminator(st5, terminator)
        },
    }
}

/// Compiles a program's statements from the initial state.
pub open spec fn gen_program(locals: Seq<Data>, stmts: Seq<StmtView>) -> GenState {
    gen_stmts(locals, initial_state(), stmts)
}

/// Declaring parameters only succeeds from a state that had not failed.
pub proof fn lemma_params_ok(locals: Seq<Data>, st: GenState, params: Seq<Local>)
    ensures
        gen_params(locals, st, params).ok ==> st.ok,
    decreases params.len(),
{
    if params.len() > 0 {
        lemma_params_ok(locals, st, params.drop_last());
    }
}

/// Declaring a prefix of the parameters succeeds where declaring them all
/// does.
pub proof fn lemma_params_prefix_ok(locals: Seq<Data>, st: GenState, params: Seq<Local>, k: int)
    requires
        0 <= k <= params.len(),
        gen_params(locals, st, params).ok,
    ensures
        gen_params(locals, st, params.take(k)).ok,
    decreases params.len(),
{
    if k < params.len() {
        lemma_params_ok(locals, gen_params(locals, st, params.drop_last()), seq![params.last()]);
        assert(params.drop_last().take(k) =~= params.take(k));
        lemma_params_prefix_ok(locals, st, params.drop_last(), k);
    } else {
        assert(params.take(k) =~= params);
    }
}

/// Compiling a sequence of statements only succeeds from a state that had
/// not failed.
pub proof fn lemma_stmts_ok(locals: Seq<Data>, st: GenState, stmts: Seq<StmtView>)
    ensures
        gen_stmts(locals, st, stmts).ok ==> st.ok,
    decreases stmts, 1int,
{
    if stmts.len() > 0 {
        let st1 = gen_stmts(locals, st, stmts.drop_last());
        lemma_stmt_ok(locals, st1, stmts.last());
        lemma_stmts_ok(locals, st, stmts.drop_last());
    }
}

/// Compiling a prefix of a sequence of statements succeeds where compiling
/// them all does.
pub proof fn lemma_stmts_prefix_ok(locals: Seq<Data>, st: GenState, stmts: Seq<StmtView>, k: int)
    requires
        0 <= k <= stmts.len(),
        gen_stmts(locals, st, stmts).ok,
    ensures
        gen_stmts(locals, st, stmts.take(k)).ok,
    decreases stmts.len(),
{
    if k < stmts.len() {
        lemma_stmt_ok(locals, gen_stmts(locals, st, stmts.drop_last()), stmts.last());
        assert(stmts.drop_last().take(k) =~= stmts.take(k));
        lemma_stmts_prefix_ok(locals, st, stmts.drop_last(), k);
    } else {
        assert(stmts.take(k) =~= stmts);
    }
}

/// Compiling arguments only succeeds from a state that had not failed.
pub proof fn lemma_args_ok(locals: Seq<Data>, st: GenState, args: Seq<ExprView>)
    ensures
        gen_args(locals, st, args).ok ==> st.ok,
    decreases args, 1int,
{
    if args.len() > 0 {
        let st1 = gen_args(locals, st, args.drop_last());
        lemma_expr_ok(locals, st1, args.last());
        lemma_args_ok(locals, st, args.drop_last());
    }
}

/// Compiling a prefix of the arguments succeeds where compiling them all
/// does.
pub proof fn lemma_args_prefix_ok(locals: Seq<Data>, st: GenState, args: Seq<ExprView>, k: int)
    requires
        0 <= k <= args.len(),
        gen_args(locals, st, args).ok,
    ensures
        gen_args(locals, st, args.take(k)).ok,
    decreases args.len(),
{
    if k < args.len() {
        lemma_expr_ok(locals, gen_args(locals, st, args.drop_last()), args.last());
        assert(args.drop_last().take(k) =~= args.take(k));
        lemma_args_prefix_ok(locals, st, args.drop_last(), k);
    } else {
        assert(args.take(k) =~= args);
    }
}

/// Compiling a statement only succeeds from a state that had not failed.
pub proof fn lemma_stmt_ok(locals: Seq<Data>, st: GenState, stmt: StmtView)
    ensures
        gen_stmt(locals, st, stmt).ok ==> st.ok,
    decreases stmt, 0int,
{
    match stmt {
        StmtView::Block(stmts) => lemma_stmts_ok(locals, pushed_scopes(st), stmts),
        StmtView::AssignGlobal(_, value) => lemma_expr_ok(locals, st, value),
        StmtView::DefineLocal(_, value) => lemma_expr_ok(locals, st, value),
        StmtView::Print(value) => lemma_expr_ok(locals, st, value),
        StmtView::Expr(value) => lemma_expr_ok(locals, st, value),
    }
}

/// Compiling an expression only succeeds from a state that had not failed.
pub proof fn lemma_expr_ok(locals: Seq<Data>, st: GenState, expr: ExprView)
    ensures
        gen_expr(locals, st, expr).ok ==> st.ok,
    decreases expr, 0int,
{
    match expr {
        ExprView::Block(stmts, value) => {
            let st1 = gen_stmts(locals, pushed_scopes(st), stmts);
            lemma_expr_ok(locals, st1, *value);
            lemma_stmts_ok(locals, pushed_scopes(st), stmts);
        },
        ExprView::Function(params, body) => {
            if st.function_depth < usize::MAX {
                let entry = function_entry(st);
                lemma_expr_ok(locals, gen_params(locals, entry, params), *body);
                lemma_params_ok(locals, entry, params);
            }
        },
        ExprView::Call(callee, args) => {
            let st1 = pushed_temp(gen_expr(locals, st, *callee));
            lemma_args_ok(locals, st1, args);
            lemma_expr_ok(locals, st, *callee);
        },
        ExprView::Unary(_, rhs) => lemma_expr_ok(locals, st, *rhs),
        ExprView::Binary(_, lhs, rhs) => {
            let st1 = pushed_temp(gen_expr(locals, st, *lhs));
            lemma_expr_ok(locals, st1, *rhs);
            lemma_expr_ok(locals, st, *lhs);
        },
        ExprView::Cond(cond, then_expr, else_expr) => {
            let st1 = gen_expr(locals, st, *cond);
            let then_label = st1.function.blocks.len() as usize;
            let else_label = (then_label + 1) as usize;
            let join_label = (then_label + 2) as usize;
            let st2 = insert_block(insert_block(insert_block(st1)));
            let st3 = with_label(
                set_terminator(st2, Terminator::Branch(Label(then_label), Label(else_label))),
                then_label,
            );
            let st4 = with_label(
                set_terminator(gen_expr(locals, st3, *then_expr), Terminator::Jump(Label(join_label))),
                else_label,
            );
            lemma_expr_ok(locals, st4, *else_expr);
            lemma_expr_ok(locals, st3, *then_expr);
            lemma_expr_ok(locals, st, *cond);
        },
        _ => {},
    }
}

/// Compiling a conditional only succeeds where compiling its condition
/// does.
pub proof fn lemma_cond_ok(
    locals: Seq<Data>,
    st: GenState,
    cond: ExprView,
    then_expr: ExprView,
    else_expr: ExprView,
)
    ensures
        gen_expr(
            locals,
            st,
            ExprView::Cond(Box::new(cond), Box::new(then_expr), Box::new(else_expr)),
        ).ok ==> gen_expr(locals, st, cond).ok,
{
    let st1 = gen_expr(locals, st, cond);
    let then_label = st1.function.blocks.len() as usize;
    let else_label = (then_label + 1) as usize;
    let join_label = (then_label + 2) as usize;
    let st2 = insert_block(insert_block(insert_block(st1)));
    let st3 = with_label(
        set_terminator(st2, Terminator::Branch(Label(then_label), Label(else_label))),
        then_label,
    );
    let st4 = with_label(
        set_terminator(gen_expr(locals, st3, then_expr), Terminator::Jump(Label(join_label))),
        else_label,
    );
    lemma_expr_ok(locals, st4, else_expr);
    lemma_expr_ok(locals, st3, then_expr);
}

} // verus!
