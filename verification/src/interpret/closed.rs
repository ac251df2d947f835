//! Running a closed graph never looks for a block that does not exist: the
//! functions that values hold are closed graphs, every pending return goes
//! to a block of the graph it returns to, and each step keeps it so.

use vstd::prelude::*;

use std::rc::Rc;

use crate::cfg::{
    block_closed_in, graph_closed, instruction_closed, instruction_view, lemma_blocks_closed_in,
    lemma_shared_function_view, targets_below, BlockView, Function, Instruction, Terminator,
};
use crate::symbols::Symbol;

use super::control::{current_graph, followed, ControlView};
use super::value::{literal_value, Value};
use super::{
    can_exit, can_interpret, can_terminate, exited, interpreted, pushed, terminated, truncated,
    Flow, InterpretError, InterpreterView,
};

verus! {

/// Whether the functions that a value holds, and those of the upvars it
/// captured, are closed graphs.
pub open spec fn value_closed(value: Value) -> bool
    decreases value,
{
    match value {
        Value::Function(function) => graph_closed(function.cfg@),
        Value::Closure(closure) => graph_closed(closure.function.cfg@) && upvars_closed(
            closure.upvars@,
        ),
        _ => true,
    }
}

/// Whether every upvar holds a closed value.
pub open spec fn upvars_closed(upvars: Seq<Rc<Value>>) -> bool
    decreases upvars,
{
    if upvars.len() == 0 {
        true
    } else {
        upvars_closed(upvars.drop_last()) && value_closed(*upvars.last())
    }
}

/// Whether every value holds closed graphs.
pub open spec fn values_closed(values: Seq<Value>) -> bool {
    forall|i: int| 0 <= i < values.len() ==> value_closed(#[trigger] values[i])
}

/// Whether every global variable holds closed graphs.
pub open spec fn globals_closed(globals: Map<Symbol, Value>) -> bool {
    forall|symbol: Symbol| globals.contains_key(symbol) ==> value_closed(#[trigger] globals[symbol])
}

/// Whether the values of an interpreter's stacks, and the upvar stacks that
/// its pending returns restore, hold closed graphs.
pub open spec fn state_closed(st: InterpreterView) -> bool {
    &&& values_closed(st.stack)
    &&& upvars_closed(st.upvars)
    &&& forall|i: int|
        0 <= i < st.returns.len() ==> (#[trigger] st.returns[i]).upvars is Some ==> upvars_closed(
            st.returns[i].upvars->0,
        )
}

/// The graph at a call depth: the program's at the top, else the graph of
/// the function called at that depth.
pub open spec fn graph_at(program: Seq<BlockView>, control: ControlView, depth: int) -> Seq<
    BlockView,
> {
    if depth == 0 {
        program
    } else {
        control.called[depth - 1].cfg@
    }
}

/// Whether a running machine only reaches blocks that exist: the program
/// and every called function are closed graphs, one return is pending per
/// call, each going to a block of the graph it returns to, and the values
/// hold closed graphs.
pub open spec fn machine_closed(
    program: Seq<BlockView>,
    control: ControlView,
    st: InterpreterView,
) -> bool {
    &&& graph_closed(program)
    &&& forall|i: int|
        0 <= i < control.called.len() ==> graph_closed((#[trigger] control.called[i]).cfg@)
    &&& control.called.len() == st.returns.len()
    &&& forall|i: int|
        0 <= i < st.returns.len() ==> (#[trigger] st.returns[i]).label.0 < graph_at(
            program,
            control,
            i,
        ).len()
    &&& state_closed(st)
}

/// Upvars are closed exactly when each of them is.
pub proof fn lemma_upvars_closed(upvars: Seq<Rc<Value>>)
    ensures
        upvars_closed(upvars) <==> forall|i: int|
            0 <= i < upvars.len() ==> value_closed(*#[trigger] upvars[i]),
    decreases upvars.len(),
{
    if upvars.len() > 0 {
        lemma_upvars_closed(upvars.drop_last());
        if upvars_closed(upvars) {
            assert forall|i: int| 0 <= i < upvars.len() implies value_closed(
                *#[trigger] upvars[i],
            ) by {
                if i < upvars.len() - 1 {
                    assert(upvars.drop_last()[i] == upvars[i]);
                }
            }
        }
        if forall|i: int| 0 <= i < upvars.len() ==> value_closed(*#[trigger] upvars[i]) {
            assert forall|i: int| 0 <= i < upvars.len() - 1 implies value_closed(
                *#[trigger] upvars.drop_last()[i],
            ) by {
                assert(upvars.drop_last()[i] == upvars[i]);
            }
            assert(value_closed(*upvars[upvars.len() - 1]));
        }
    }
}

/// A prefix of closed upvars is closed.
proof fn lemma_upvars_take(upvars: Seq<Rc<Value>>, len: int)
    requires
        upvars_closed(upvars),
        0 <= len <= upvars.len(),
    ensures
        upvars_closed(upvars.take(len)),
{
    lemma_upvars_closed(upvars);
    lemma_upvars_closed(upvars.take(len));
}

/// Pushing a closed value keeps a state closed.
pub proof fn lemma_push_keeps_closed(st: InterpreterView, value: Value)
    requires
        state_closed(st),
        value_closed(value),
    ensures
        state_closed(pushed(st, value)),
{
    assert forall|i: int| 0 <= i < st.stack.len() + 1 implies value_closed(
        #[trigger] st.stack.push(value)[i],
    ) by {
        if i < st.stack.len() {
            assert(st.stack.push(value)[i] == st.stack[i]);
        }
    }
}

/// Pushing the value of an upvar keeps a state closed.
proof fn lemma_push_upvar_keeps_closed(st: InterpreterView, offset: int)
    requires
        state_closed(st),
        0 <= offset < st.upvars.len(),
    ensures
        state_closed(pushed(st, *st.upvars[offset])),
{
    lemma_upvars_closed(st.upvars);
    assert(value_closed(*st.upvars[offset]));
    assert forall|i: int| 0 <= i < st.stack.len() + 1 implies value_closed(
        #[trigger] st.stack.push(*st.upvars[offset])[i],
    ) by {
        if i < st.stack.len() {
            assert(st.stack.push(*st.upvars[offset])[i] == st.stack[i]);
        }
    }
}

/// A native call's result, when closed, keeps a state closed in place of the
/// callee and its arguments.
pub proof fn lemma_native_result_keeps_closed(st: InterpreterView, arity: int, value: Value)
    requires
        state_closed(st),
        value_closed(value),
        0 <= arity + 1 <= st.stack.len(),
    ensures
        state_closed(
            pushed(
                InterpreterView { stack: st.stack.take(st.stack.len() - arity - 1), ..st },
                value,
            ),
        ),
{
    let kept = InterpreterView { stack: st.stack.take(st.stack.len() - arity - 1), ..st };
    assert forall|i: int| 0 <= i < kept.stack.len() implies value_closed(
        #[trigger] kept.stack[i],
    ) by {
        assert(kept.stack[i] == st.stack[i]);
    }
    lemma_push_keeps_closed(kept, value);
}

/// Interpreting an instruction of a closed graph keeps the state and the
/// globals closed.
pub proof fn lemma_instruction_keeps_closed(
    st: InterpreterView,
    globals: Map<Symbol, Value>,
    instruction: Instruction,
    after: InterpreterView,
    globals_after: Map<Symbol, Value>,
    result: Result<super::Action, InterpretError>,
)
    requires
        state_closed(st),
        globals_closed(globals),
        instruction_closed(instruction_view(instruction)),
        can_interpret(st, globals, instruction),
        interpreted(st, globals, instruction, after, globals_after, result),
    ensures
        state_closed(after),
        globals_closed(globals_after),
{
    let stack = st.stack;
    let top = stack.last();
    lemma_upvars_closed(st.upvars);
    assert(after.returns == st.returns);
    match instruction {
        Instruction::PushLiteral(literal) => lemma_push_keeps_closed(st, literal_value(literal)),
        Instruction::PushFunction(function) => {
            lemma_shared_function_view(function);
            lemma_push_keeps_closed(st, Value::Function(function));
        },
        Instruction::PushGlobal(symbol) => lemma_push_keeps_closed(st, globals[symbol]),
        Instruction::PushLocal(offset) => lemma_push_keeps_closed(st, stack[st.frame + offset]),
        Instruction::PushUpvar(offset) => lemma_push_upvar_keeps_closed(st, offset as int),
        Instruction::Pop(count) => {
            assert forall|i: int| 0 <= i < after.stack.len() implies value_closed(
                #[trigger] after.stack[i],
            ) by {
                assert(after.stack[i] == stack[i]);
            }
        },
        Instruction::Not => {
            assert forall|i: int| 0 <= i < stack.len() - 1 implies value_closed(
                #[trigger] stack.drop_last()[i],
            ) by {
                assert(stack.drop_last()[i] == stack[i]);
            }
            if top is Bool {
                lemma_push_keeps_closed(super::popped(st), Value::Bool(!(top->Bool_0)));
            }
        },
        Instruction::StoreGlobal(symbol) => {
            assert forall|s: Symbol| globals_after.contains_key(s) implies value_closed(
                #[trigger] globals_after[s],
            ) by {
                if s != symbol {
                    assert(globals_after[s] == globals[s]);
                }
            }
            assert forall|i: int| 0 <= i < after.stack.len() implies value_closed(
                #[trigger] after.stack[i],
            ) by {
                assert(after.stack[i] == stack[i]);
            }
        },
        Instruction::StoreLocal(offset) => {
            assert forall|i: int| 0 <= i < after.stack.len() implies value_closed(
                #[trigger] after.stack[i],
            ) by {
                if i != st.frame + offset {
                    assert(after.stack[i] == stack[i]);
                }
            }
        },
        Instruction::DefineUpvar => {
            assert(after.upvars.drop_last() == st.upvars);
            assert forall|i: int| 0 <= i < after.stack.len() implies value_closed(
                #[trigger] after.stack[i],
            ) by {
                assert(after.stack[i] == stack[i]);
            }
        },
        Instruction::PopUpvars(count) => {
            lemma_upvars_take(st.upvars, st.upvars.len() - count);
        },
        Instruction::IntoClosure => {
            assert forall|i: int| 0 <= i < after.stack.len() implies value_closed(
                #[trigger] after.stack[i],
            ) by {
                if i < after.stack.len() - 1 {
                    assert(after.stack[i] == after.stack.drop_last()[i]);
                    assert(stack.drop_last()[i] == stack[i]);
                }
            }
        },
        _ => {
            assert forall|i: int| 0 <= i < after.stack.len() implies value_closed(
                #[trigger] after.stack[i],
            ) by {
                assert(after.stack[i] == stack[i]);
            }
        },
    }
}

/// The function that a function or closure value calls.
pub open spec fn function_of(value: Value) -> Rc<Function> {
    match value {
        Value::Closure(closure) => closure.function,
        Value::Function(function) => function,
        _ => arbitrary(),
    }
}

/// The graph that runs in a closed machine is closed.
proof fn lemma_current_graph_closed(
    program: Seq<BlockView>,
    control: ControlView,
    st: InterpreterView,
)
    requires
        machine_closed(program, control, st),
    ensures
        graph_closed(current_graph(control, program)),
        current_graph(control, program) == graph_at(program, control, control.called.len() as int),
{
    if control.called.len() > 0 {
        assert(graph_closed(control.called[control.called.len() - 1].cfg@));
    }
}

/// The stack below a state's top value holds closed values.
proof fn lemma_popped_closed(st: InterpreterView)
    requires
        state_closed(st),
        st.stack.len() >= 1,
    ensures
        state_closed(super::popped(st)),
{
    assert forall|i: int| 0 <= i < st.stack.len() - 1 implies value_closed(
        #[trigger] st.stack.drop_last()[i],
    ) by {
        assert(st.stack.drop_last()[i] == st.stack[i]);
    }
}

/// A call that enters a function keeps the machine closed, and its first
/// block exists.
proof fn lemma_call_keeps_machine_closed(
    program: Seq<BlockView>,
    control: ControlView,
    st: InterpreterView,
    after: InterpreterView,
    function: Rc<Function>,
    return_label: crate::cfg::Label,
    upvars: Option<Seq<Rc<Value>>>,
)
    requires
        machine_closed(program, control, st),
        return_label.0 < current_graph(control, program).len(),
        graph_closed(function.cfg@),
        after.stack == st.stack,
        upvars_closed(after.upvars),
        upvars matches Some(saved) ==> upvars_closed(saved),
        after.returns == st.returns.push(
            super::ReturnView { label: return_label, frame: st.frame, upvars },
        ),
    ensures
        machine_closed(program, followed(control, Flow::Call(function)), after),
        followed(control, Flow::Call(function)).label.0 < current_graph(
            followed(control, Flow::Call(function)),
            program,
        ).len(),
{
    lemma_current_graph_closed(program, control, st);
    let next = followed(control, Flow::Call(function));
    let depth = control.called.len() as int;
    assert forall|i: int| 0 <= i < next.called.len() implies graph_closed(
        (#[trigger] next.called[i]).cfg@,
    ) by {
        if i < depth {
            assert(next.called[i] == control.called[i]);
        }
    }
    assert forall|i: int| 0 <= i < after.returns.len() implies (#[trigger] after.returns[i]).label.0
        < graph_at(program, next, i).len() by {
        if i < depth {
            assert(after.returns[i] == st.returns[i]);
        }
        if i > 0 {
            assert(next.called[i - 1] == control.called[i - 1]);
        }
    }
    assert forall|i: int|
        0 <= i < after.returns.len() && (#[trigger] after.returns[i]).upvars is Some implies upvars_closed(
            after.returns[i].upvars->0,
        ) by {
        if i < depth {
            assert(after.returns[i] == st.returns[i]);
        }
    }
    assert(next.called.last() == function);
}

/// Following a terminator of the running block keeps a closed machine
/// closed: unless the program halts or fails, the block that it runs next
/// exists, and a return only comes with a called function to leave. This
/// holds for frames at the callee and for frames just above it.
pub proof fn lemma_terminator_keeps_machine_closed(
    program: Seq<BlockView>,
    control: ControlView,
    st: InterpreterView,
    frames_above_callee: bool,
    after: InterpreterView,
    result: Result<Flow, InterpretError>,
)
    requires
        machine_closed(program, control, st),
        control.label.0 < current_graph(control, program).len(),
        ({
            let terminator = current_graph(control, program)[control.label.0 as int].terminator;
            if frames_above_callee {
                can_exit(st, terminator) && exited(st, terminator, after, result)
            } else {
                can_terminate(st, terminator) && terminated(st, terminator, after, result)
            }
        }),
    ensures
        result matches Ok(flow) ==> {
            &&& flow is Return ==> control.called.len() > 0
            &&& flow !is Halt ==> {
                &&& machine_closed(program, followed(control, flow), after)
                &&& followed(control, flow).label.0 < current_graph(
                    followed(control, flow),
                    program,
                ).len()
            }
        },
{
    let graph = current_graph(control, program);
    let count = graph.len() as int;
    lemma_current_graph_closed(program, control, st);
    lemma_blocks_closed_in(graph, count);
    let block = graph[control.label.0 as int];
    assert(block_closed_in(block, count));
    let terminator = block.terminator;
    assert(targets_below(terminator, count));
    match terminator {
        Terminator::Halt => {},
        Terminator::Jump(_) => {},
        Terminator::Branch(_, _) => {
            lemma_popped_closed(st);
        },
        Terminator::Call(arity, return_label) => {
            // In both conventions the callee lies just below the arguments.
            let callee = st.stack[st.stack.len() - arity - 1];
            assert(value_closed(callee));
            match callee {
                Value::Function(function) => {
                    if result is Ok {
                        lemma_call_keeps_machine_closed(
                            program,
                            control,
                            st,
                            after,
                            function,
                            return_label,
                            None,
                        );
                    }
                },
                Value::Closure(closure) => {
                    if result is Ok {
                        lemma_call_keeps_machine_closed(
                            program,
                            control,
                            st,
                            after,
                            function_of(callee),
                            return_label,
                            Some(st.upvars),
                        );
                    }
                },
                _ => {},
            }
        },
        Terminator::Return => {
            let depth = control.called.len() as int;
            let data = st.returns.last();
            let next = followed(control, result->Ok_0);
            assert(st.returns[depth - 1] == data);
            assert forall|i: int| 0 <= i < next.called.len() implies graph_closed(
                (#[trigger] next.called[i]).cfg@,
            ) by {
                assert(next.called[i] == control.called[i]);
            }
            assert forall|i: int| 0 <= i < after.returns.len() implies (
            #[trigger] after.returns[i]).label.0 < graph_at(program, next, i).len() by {
                assert(after.returns[i] == st.returns[i]);
                if i > 0 {
                    assert(next.called[i - 1] == control.called[i - 1]);
                }
            }
            assert forall|i: int|
                0 <= i < after.returns.len() && (#[trigger] after.returns[i]).upvars is Some implies upvars_closed(
                    after.returns[i].upvars->0,
                ) by {
                assert(after.returns[i] == st.returns[i]);
            }
            if depth > 1 {
                assert(next.called.last() == control.called[depth - 2]);
            }
            assert(data.label.0 < graph_at(program, control, depth - 1).len());
            let kept = truncated(st.stack.drop_last(), st.frame as int);
            assert forall|i: int| 0 <= i < kept.len() implies value_closed(#[trigger] kept[i]) by {
                assert(kept[i] == st.stack[i]);
            }
            assert forall|i: int| 0 <= i < after.stack.len() implies value_closed(
                #[trigger] after.stack[i],
            ) by {
                if i < kept.len() && !(frames_above_callee && i == kept.len() - 1) {
                    assert(after.stack[i] == kept[i]);
                }
            }
        },
    }
}

/// A machine starts closed: at the first block of a closed program, with
/// empty stacks and no call pending.
pub proof fn lemma_start_closed(program: Seq<BlockView>, control: ControlView, st: InterpreterView)
    requires
        graph_closed(program),
        control.called.len() == 0,
        control.label.0 == 0,
        st.stack.len() == 0,
        st.upvars.len() == 0,
        st.returns.len() == 0,
    ensures
        machine_closed(program, control, st),
        control.label.0 < current_graph(control, program).len(),
{
}

/// Assigning a closed value keeps the globals closed.
pub proof fn lemma_assign_keeps_globals_closed(
    globals: Map<Symbol, Value>,
    symbol: Symbol,
    value: Value,
)
    requires
        globals_closed(globals),
        value_closed(value),
    ensures
        globals_closed(globals.insert(symbol, value)),
{
    assert forall|s: Symbol| globals.insert(symbol, value).contains_key(s) implies value_closed(
        #[trigger] globals.insert(symbol, value)[s],
    ) by {
        if s != symbol {
            assert(globals.insert(symbol, value)[s] == globals[s]);
        }
    }
}

/// Every instruction of the block that runs in a closed machine pushes only
/// closed graphs.
pub proof fn lemma_running_block_closed(
    program: Seq<BlockView>,
    control: ControlView,
    st: InterpreterView,
)
    requires
        machine_closed(program, control, st),
        control.label.0 < current_graph(control, program).len(),
    ensures
        ({
            let instructions = current_graph(control, program)[control.label.0 as int].instructions;
            forall|j: int| 0 <= j < instructions.len() ==> instruction_closed(#[trigger] instructions[j])
        }),
{
    let graph = current_graph(control, program);
    lemma_current_graph_closed(program, control, st);
    lemma_blocks_closed_in(graph, graph.len() as int);
    let block = graph[control.label.0 as int];
    assert(block_closed_in(block, graph.len() as int));
    crate::cfg::lemma_instructions_closed(block.instructions);
}

/// Interpreting an instruction of the running block keeps a closed machine
/// closed, and the globals too.
pub proof fn lemma_instruction_keeps_machine_closed(
    program: Seq<BlockView>,
    control: ControlView,
    st: InterpreterView,
    globals: Map<Symbol, Value>,
    instruction: Instruction,
    after: InterpreterView,
    globals_after: Map<Symbol, Value>,
    result: Result<super::Action, InterpretError>,
)
    requires
        machine_closed(program, control, st),
        globals_closed(globals),
        instruction_closed(instruction_view(instruction)),
        can_interpret(st, globals, instruction),
        interpreted(st, globals, instruction, after, globals_after, result),
    ensures
        machine_closed(program, control, after),
        globals_closed(globals_after),
{
    lemma_instruction_keeps_closed(st, globals, instruction, after, globals_after, result);
    assert(after.returns == st.returns);
}

/// Pushing a closed value, as the result of an action, keeps a closed
/// machine closed.
pub proof fn lemma_push_keeps_machine_closed(
    program: Seq<BlockView>,
    control: ControlView,
    st: InterpreterView,
    value: Value,
)
    requires
        machine_closed(program, control, st),
        value_closed(value),
    ensures
        machine_closed(program, control, pushed(st, value)),
{
    lemma_push_keeps_closed(st, value);
}

/// A closed native call result in place of the callee and its arguments
/// keeps a closed machine closed.
pub proof fn lemma_native_result_keeps_machine_closed(
    program: Seq<BlockView>,
    control: ControlView,
    st: InterpreterView,
    arity: int,
    value: Value,
)
    requires
        machine_closed(program, control, st),
        value_closed(value),
        0 <= arity + 1 <= st.stack.len(),
    ensures
        machine_closed(
            program,
            control,
            pushed(
                InterpreterView { stack: st.stack.take(st.stack.len() - arity - 1), ..st },
                value,
            ),
        ),
{
    lemma_native_result_keeps_closed(st, arity, value);
}

} // verus!
