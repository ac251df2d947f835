//! The machine that runs a control flow graph: its value stack, stack
//! frames, upvars and calls. What needs floating-point arithmetic, the
//! equality of values, or output is handed back to the caller as an
//! [`Action`], and a call of a native function as a [`Flow`].

pub mod closed;
pub mod control;
pub mod errors;
pub mod meaning;
pub mod globals;
pub mod native;
pub mod value;

use vstd::prelude::*;

use std::rc::Rc;

use crate::cfg::{targets_below, Function, Instruction, Label, Terminator};
use crate::symbols::Symbol;

pub use self::errors::ErrorKind;
use self::globals::Globals;
use self::native::Native;
use self::value::{copy_upvars, literal_value, share, type_of, Closure, Value};

verus! {

/// An error caught while interpreting.
#[derive(Clone, Copy, Debug, PartialEq, Eq, Structural)]
pub struct InterpretError(pub ErrorKind);

/// An arithmetic operation on two numbers.
#[derive(Clone, Copy, Debug, PartialEq, Eq, Structural)]
pub enum Arithmetic {
    /// The left-hand side plus the right-hand side.
    Add,
    /// The left-hand side minus the right-hand side.
    Subtract,
    /// The left-hand side times the right-hand side.
    Multiply,
    /// The left-hand side divided by the right-hand side (which the
    /// interpreter has checked to be a normal number).
    Divide,
    /// The left-hand side raised to the power of the right-hand side.
    Power,
}

/// A comparison of two numbers.
#[derive(Clone, Copy, Debug, PartialEq, Eq, Structural)]
pub enum Comparison {
    /// The left-hand side is less than the right-hand side.
    Less,
    /// The left-hand side is less than or equal to the right-hand side.
    LessEqual,
    /// The left-hand side is greater than the right-hand side.
    Greater,
    /// The left-hand side is greater than or equal to the right-hand side.
    GreaterEqual,
}

/// What is left to do after an instruction: the caller does it, and pushes
/// the result where there is one.
pub enum Action {
    /// Nothing.
    Done,
    /// Print the value.
    Print(Value),
    /// Push the negation of the number (as `f64` bits).
    Negate(u64),
    /// Push the result of the operation on the left-hand and right-hand
    /// numbers (as `f64` bits).
    Arithmetic(Arithmetic, u64, u64),
    /// Push the Boolean result of comparing the left-hand and right-hand
    /// numbers (as `f64` bits).
    Compare(Comparison, u64, u64),
    /// Push whether the left-hand and right-hand values (of one type) are
    /// equal, or, if the flag is `false`, not equal.
    Equality(bool, Value, Value),
}

/// Control flow after interpreting a [`Terminator`].
pub enum Flow {
    /// Halts execution.
    Halt,
    /// Jumps to a [`Label`].
    Jump(Label),
    /// Calls a [`Function`].
    Call(Rc<Function>),
    /// Returns to a [`Label`] from a [`Function`].
    Return(Label),
    /// Calls a [`Native`] function with arguments and returns to a
    /// [`Label`]: the caller makes the call and hands its result to
    /// [`Interpreter::finish_native_call`].
    CallNative(Native, Vec<Value>, Label),
}

/// Data for returning from a function.
pub struct Return {
    /// The [`Label`] to return to.
    pub label: Label,
    /// The stack offset of the return stack frame.
    pub frame: usize,
    /// The optional stack of upvars to restore.
    pub upvars: Option<Vec<Rc<Value>>>,
}

/// The abstract value of a [`Return`].
pub struct ReturnView {
    pub label: Label,
    pub frame: usize,
    pub upvars: Option<Seq<Rc<Value>>>,
}

/// The abstract value of a [`Return`].
pub open spec fn return_view(r: Return) -> ReturnView {
    ReturnView {
        label: r.label,
        frame: r.frame,
        upvars: match r.upvars {
            Some(upvars) => Some(upvars@),
            None => None,
        },
    }
}

/// The abstract state of an [`Interpreter`].
pub struct InterpreterView {
    /// The value stack, bottom first.
    pub stack: Seq<Value>,
    /// The stack offset of the current stack frame.
    pub frame: usize,
    /// The upvar stack.
    pub upvars: Seq<Rc<Value>>,
    /// The data for returning from each active call, outermost first.
    pub returns: Seq<ReturnView>,
}

/// The state with a value pushed.
pub open spec fn pushed(st: InterpreterView, value: Value) -> InterpreterView {
    InterpreterView { stack: st.stack.push(value), ..st }
}

/// The state with the top value popped.
pub open spec fn popped(st: InterpreterView) -> InterpreterView {
    InterpreterView { stack: st.stack.drop_last(), ..st }
}

/// A sequence truncated to a length, if it is longer.
pub open spec fn truncated<T>(s: Seq<T>, len: int) -> Seq<T> {
    if len < s.len() {
        s.take(len)
    } else {
        s
    }
}

/// Whether two numbers can be popped without running out of values: the
/// left-hand side is only popped if the right-hand side is a number.
pub open spec fn can_pop_numbers(st: InterpreterView) -> bool {
    &&& st.stack.len() >= 1
    &&& st.stack.last() is Number ==> st.stack.len() >= 2
}

/// The result of popping two numbers: the state after, and either the
/// left-hand and right-hand numbers or the state after the failed pop.
pub open spec fn pop_numbers(st: InterpreterView) -> (InterpreterView, Option<(u64, u64)>) {
    let s1 = popped(st);
    match st.stack.last() {
        Value::Number(rhs) => {
            let s2 = popped(s1);
            match s1.stack.last() {
                Value::Number(lhs) => (s2, Some((lhs, rhs))),
                _ => (s2, None),
            }
        },
        _ => (s1, None),
    }
}

/// Whether an instruction can be interpreted without running out of values,
/// reading outside the stacks, or reading an undefined global.
pub open spec fn can_interpret(
    st: InterpreterView,
    globals: Map<Symbol, Value>,
    instruction: Instruction,
) -> bool {
    match instruction {
        Instruction::PushLiteral(_) | Instruction::PushFunction(_) => true,
        Instruction::PushGlobal(symbol) => globals.contains_key(symbol),
        Instruction::PushLocal(offset) => st.frame + offset < st.stack.len(),
        Instruction::PushUpvar(offset) => offset < st.upvars.len(),
        Instruction::Pop(count) => count <= st.stack.len(),
        Instruction::PopUpvars(count) => count <= st.upvars.len(),
        Instruction::Equal | Instruction::NotEqual => st.stack.len() >= 2,
        Instruction::Add | Instruction::Subtract | Instruction::Multiply | Instruction::Divide
        | Instruction::Power | Instruction::Less | Instruction::LessEqual | Instruction::Greater
        | Instruction::GreaterEqual => can_pop_numbers(st),
        Instruction::StoreLocal(offset) => st.stack.len() >= 1 && st.frame + offset
            < st.stack.len() - 1,
        Instruction::IntoClosure => st.stack.len() >= 1 && st.stack.last() is Function,
        _ => st.stack.len() >= 1,
    }
}

/// Whether the `f64` with these bits is a normal number: its exponent field
/// is neither all zeros (a zero or a subnormal number) nor all ones (an
/// infinity or a NaN). A division by a number that is not normal is refused
/// as a division by zero.
pub open spec fn is_normal_bits(bits: u64) -> bool {
    let exponent = (bits >> 52u64) & 0x7ffu64;
    exponent != 0 && exponent != 0x7ffu64
}

/// Returns whether the `f64` with these bits is a normal number.
pub fn is_normal_number(bits: u64) -> (normal: bool)
    ensures
        normal == is_normal_bits(bits),
{
    let exponent = (bits >> 52u64) & 0x7ffu64;
    exponent != 0 && exponent != 0x7ffu64
}

/// The arithmetic operation of an instruction.
pub open spec fn arithmetic_of(instruction: Instruction) -> Option<Arithmetic> {
    match instruction {
        Instruction::Add => Some(Arithmetic::Add),
        Instruction::Subtract => Some(Arithmetic::Subtract),
        Instruction::Multiply => Some(Arithmetic::Multiply),
        Instruction::Divide => Some(Arithmetic::Divide),
        Instruction::Power => Some(Arithmetic::Power),
        _ => None,
    }
}

/// The comparison of an instruction.
pub open spec fn comparison_of(instruction: Instruction) -> Option<Comparison> {
    match instruction {
        Instruction::Less => Some(Comparison::Less),
        Instruction::LessEqual => Some(Comparison::LessEqual),
        Instruction::Greater => Some(Comparison::Greater),
        Instruction::GreaterEqual => Some(Comparison::GreaterEqual),
        _ => None,
    }
}

/// What interpreting an instruction does: the state after, the globals
/// after, and the result.
pub open spec fn interpreted(
    st: InterpreterView,
    globals: Map<Symbol, Value>,
    instruction: Instruction,
    after: InterpreterView,
    globals_after: Map<Symbol, Value>,
    result: Result<Action, InterpretError>,
) -> bool {
    let top = st.stack.last();
    &&& !(instruction is StoreGlobal) ==> globals_after == globals
    &&& match instruction {
        Instruction::PushLiteral(literal) => after == pushed(st, literal_value(literal)) && result
            == Ok::<Action, InterpretError>(Action::Done),
        Instruction::PushFunction(function) => after == pushed(st, Value::Function(function))
            && result == Ok::<Action, InterpretError>(Action::Done),
        Instruction::PushGlobal(symbol) => after == pushed(st, globals[symbol]) && result == Ok::<
            Action,
            InterpretError,
        >(Action::Done),
        Instruction::PushLocal(offset) => after == pushed(st, st.stack[st.frame + offset])
            && result == Ok::<Action, InterpretError>(Action::Done),
        Instruction::PushUpvar(offset) => after == pushed(st, *st.upvars[offset as int])
            && result == Ok::<Action, InterpretError>(Action::Done),
        Instruction::Pop(count) => after == InterpreterView {
            stack: st.stack.take(st.stack.len() - count),
            ..st
        } && result == Ok::<Action, InterpretError>(Action::Done),
        Instruction::Print => after == popped(st) && result == Ok::<Action, InterpretError>(
            Action::Print(top),
        ),
        Instruction::Negate => after == popped(st) && result == match top {
            Value::Number(bits) => Ok::<Action, InterpretError>(Action::Negate(bits)),
            _ => Err(InterpretError(ErrorKind::InvalidType)),
        },
        Instruction::Not => match top {
            Value::Bool(value) => after == pushed(popped(st), Value::Bool(!value)) && result
                == Ok::<Action, InterpretError>(Action::Done),
            _ => after == popped(st) && result == Err::<Action, InterpretError>(
                InterpretError(ErrorKind::InvalidType),
            ),
        },
        Instruction::Equal | Instruction::NotEqual => {
            let lhs = st.stack[st.stack.len() - 2];
            &&& after == popped(popped(st))
            &&& result == if type_of(lhs) == type_of(top) {
                Ok::<Action, InterpretError>(
                    Action::Equality(instruction is Equal, lhs, top),
                )
            } else {
                Err(InterpretError(ErrorKind::InvalidType))
            }
        },
        Instruction::StoreGlobal(symbol) => after == popped(st) && globals_after == globals.insert(
            symbol,
            top,
        ) && result == Ok::<Action, InterpretError>(Action::Done),
        Instruction::StoreLocal(offset) => after == InterpreterView {
            stack: st.stack.drop_last().update(st.frame + offset, top),
            ..st
        } && result == Ok::<Action, InterpretError>(Action::Done),
        Instruction::DefineUpvar => {
            &&& after.stack == st.stack.drop_last()
            &&& after.frame == st.frame
            &&& after.returns == st.returns
            &&& after.upvars.len() == st.upvars.len() + 1
            &&& after.upvars.drop_last() == st.upvars
            &&& *after.upvars.last() == top
            &&& result == Ok::<Action, InterpretError>(Action::Done)
        },
        Instruction::PopUpvars(count) => after == InterpreterView {
            upvars: st.upvars.take(st.upvars.len() - count),
            ..st
        } && result == Ok::<Action, InterpretError>(Action::Done),
        Instruction::IntoClosure => {
            &&& after.stack.drop_last() == st.stack.drop_last()
            &&& after.stack.len() == st.stack.len()
            &&& after.frame == st.frame
            &&& after.upvars == st.upvars
            &&& after.returns == st.returns
            &&& after.stack.last() matches Value::Closure(closure) && top matches Value::Function(
                function,
            ) && closure.function == function && closure.upvars@ == st.upvars
            &&& result == Ok::<Action, InterpretError>(Action::Done)
        },
        _ => {
            let (st1, numbers) = pop_numbers(st);
            &&& after == st1
            &&& result == match numbers {
                Some((lhs, rhs)) => match arithmetic_of(instruction) {
                    Some(op) => if op is Divide && !is_normal_bits(rhs) {
                        Err::<Action, InterpretError>(InterpretError(ErrorKind::DivideByZero))
                    } else {
                        Ok::<Action, InterpretError>(Action::Arithmetic(op, lhs, rhs))
                    },
                    None => Ok(Action::Compare(comparison_of(instruction)->0, lhs, rhs)),
                },
                None => Err(InterpretError(ErrorKind::InvalidType)),
            }
        },
    }
}

/// What interpreting a terminator does: the state after, and the result.
pub open spec fn terminated(
    st: InterpreterView,
    terminator: Terminator,
    after: InterpreterView,
    result: Result<Flow, InterpretError>,
) -> bool {
    match terminator {
        Terminator::Halt => {
            &&& after == st
            &&& result matches Ok(Flow::Halt)
        },
        Terminator::Jump(label) => {
            &&& after == st
            &&& result matches Ok(Flow::Jump(target)) && target == label
        },
        Terminator::Branch(then_label, else_label) => {
            &&& after == popped(st)
            &&& match st.stack.last() {
                Value::Bool(value) => result matches Ok(Flow::Jump(target)) && target == if value {
                    then_label
                } else {
                    else_label
                },
                _ => result == Err::<Flow, InterpretError>(InterpretError(ErrorKind::InvalidType)),
            }
        },
        Terminator::Call(arity, return_label) => {
            let frame = st.stack.len() - arity - 1;
            match st.stack[frame] {
                Value::Function(function) => {
                    &&& after.stack == st.stack
                    &&& after.frame == frame
                    &&& after.upvars == st.upvars
                    &&& if arity == function.arity {
                        &&& after.returns == st.returns.push(
                            ReturnView { label: return_label, frame: st.frame, upvars: None },
                        )
                        &&& result matches Ok(Flow::Call(called)) && called == function
                    } else {
                        &&& after.returns == st.returns
                        &&& result == Err::<Flow, InterpretError>(
                            InterpretError(ErrorKind::IncorrectCallArity),
                        )
                    }
                },
                Value::Closure(closure) => {
                    &&& after.stack == st.stack
                    &&& after.frame == frame
                    &&& after.upvars == closure.upvars@
                    &&& if arity == closure.function.arity {
                        &&& after.returns == st.returns.push(
                            ReturnView {
                                label: return_label,
                                frame: st.frame,
                                upvars: Some(st.upvars),
                            },
                        )
                        &&& result matches Ok(Flow::Call(called)) && called == closure.function
                    } else {
                        &&& after.returns == st.returns
                        &&& result == Err::<Flow, InterpretError>(
                            InterpretError(ErrorKind::IncorrectCallArity),
                        )
                    }
                },
                Value::Native(native) => {
                    &&& after == st
                    &&& result matches Ok(Flow::CallNative(called, args, label)) && called == native
                        && args@ == st.stack.subrange(frame + 1, st.stack.len() as int) && label
                        == return_label
                },
                _ => {
                    &&& after == InterpreterView { frame: frame as usize, ..st }
                    &&& result == Err::<Flow, InterpretError>(
                        InterpretError(ErrorKind::CalledNonFunction),
                    )
                },
            }
        },
        Terminator::Return => {
            let data = st.returns.last();
            &&& after.stack == truncated(st.stack.drop_last(), st.frame as int).push(
                st.stack.last(),
            )
            &&& after.frame == data.frame
            &&& after.upvars == match data.upvars {
                Some(upvars) => upvars,
                None => st.upvars,
            }
            &&& after.returns == st.returns.drop_last()
            &&& result matches Ok(Flow::Return(label)) && label == data.label
        },
    }
}

/// Whether a terminator can be interpreted without running out of values or
/// of calls to return from.
pub open spec fn can_terminate(st: InterpreterView, terminator: Terminator) -> bool {
    match terminator {
        Terminator::Halt | Terminator::Jump(_) => true,
        Terminator::Branch(_, _) => st.stack.len() >= 1,
        Terminator::Call(arity, _) => arity + 1 <= st.stack.len(),
        Terminator::Return => st.stack.len() >= 1 && st.returns.len() >= 1,
    }
}

/// What interpreting a terminator does where a frame starts just above its
/// callee, as code compiled from [`crate::hir::Hir`] expects: the state after,
/// and the result. Halting, jumping and branching are as in [`terminated`].
pub open spec fn exited(
    st: InterpreterView,
    terminator: Terminator,
    after: InterpreterView,
    result: Result<Flow, InterpretError>,
) -> bool {
    match terminator {
        Terminator::Call(arity, return_label) => {
            let frame = st.stack.len() - arity;
            match st.stack[frame - 1] {
                Value::Function(function) => {
                    &&& after.stack == st.stack
                    &&& after.frame == frame
                    &&& after.upvars == st.upvars
                    &&& if arity == function.arity {
                        &&& after.returns == st.returns.push(
                            ReturnView { label: return_label, frame: st.frame, upvars: None },
                        )
                        &&& result matches Ok(Flow::Call(called)) && called == function
                    } else {
                        &&& after.returns == st.returns
                        &&& result == Err::<Flow, InterpretError>(
                            InterpretError(ErrorKind::IncorrectCallArity),
                        )
                    }
                },
                Value::Closure(closure) => {
                    &&& after.stack == st.stack
                    &&& after.frame == frame
                    &&& after.upvars == closure.upvars@
                    &&& if arity == closure.function.arity {
                        &&& after.returns == st.returns.push(
                            ReturnView {
                                label: return_label,
                                frame: st.frame,
                                upvars: Some(st.upvars),
                            },
                        )
                        &&& result matches Ok(Flow::Call(called)) && called == closure.function
                    } else {
                        &&& after.returns == st.returns
                        &&& result == Err::<Flow, InterpretError>(
                            InterpretError(ErrorKind::IncorrectCallArity),
                        )
                    }
                },
                Value::Native(native) => {
                    &&& after == st
                    &&& result matches Ok(Flow::CallNative(called, args, label)) && called == native
                        && args@ == st.stack.subrange(frame, st.stack.len() as int) && label
                        == return_label
                },
                _ => {
                    &&& after == InterpreterView { frame: frame as usize, ..st }
                    &&& result == Err::<Flow, InterpretError>(
                        InterpretError(ErrorKind::CalledNonFunction),
                    )
                },
            }
        },
        Terminator::Return => {
            let data = st.returns.last();
            let kept = truncated(st.stack.drop_last(), st.frame as int);
            &&& after.stack == kept.update(kept.len() - 1, st.stack.last())
            &&& after.frame == data.frame
            &&& after.upvars == match data.upvars {
                Some(upvars) => upvars,
                None => st.upvars,
            }
            &&& after.returns == st.returns.drop_last()
            &&& result matches Ok(Flow::Return(label)) && label == data.label
        },
        _ => terminated(st, terminator, after, result),
    }
}

/// Whether a terminator can be interpreted where a frame starts just above
/// its callee: without running out of values or of calls to return from, and
/// with a callee below the frame that a return leaves.
pub open spec fn can_exit(st: InterpreterView, terminator: Terminator) -> bool {
    match terminator {
        Terminator::Call(arity, _) => arity + 1 <= st.stack.len(),
        Terminator::Return => {
            &&& st.stack.len() >= 2
            &&& st.frame >= 1
            &&& st.returns.len() >= 1
        },
        _ => can_terminate(st, terminator),
    }
}

/// A return goes back to where the call came from. After a call of a
/// function or closure, once the callee's body has left its frame, its upvar
/// stack and the stack below the callee as it found them and has returned
/// from its own calls, returning replaces the callee and its arguments with
/// the result, restores the caller's frame, upvars and pending returns, and
/// continues at the call's return label.
pub proof fn lemma_return_after_call(
    st: InterpreterView,
    arity: usize,
    return_label: Label,
    entered: InterpreterView,
    called: Result<Flow, InterpretError>,
    body_end: InterpreterView,
    after: InterpreterView,
    returned: Result<Flow, InterpretError>,
)
    requires
        can_terminate(st, Terminator::Call(arity, return_label)),
        terminated(st, Terminator::Call(arity, return_label), entered, called),
        called matches Ok(Flow::Call(_)),
        body_end.frame == entered.frame,
        body_end.upvars == entered.upvars,
        body_end.returns == entered.returns,
        body_end.stack.len() > entered.frame + 1,
        body_end.stack.take(entered.frame as int) == st.stack.take(entered.frame as int),
        terminated(body_end, Terminator::Return, after, returned),
    ensures
        after.stack == st.stack.take(st.stack.len() - arity - 1).push(body_end.stack.last()),
        after.frame == st.frame,
        after.upvars == st.upvars,
        after.returns == st.returns,
        returned matches Ok(Flow::Return(label)) && label == return_label,
{
    let callee = st.stack.len() - arity - 1;
    assert(entered.frame == callee);
    assert(body_end.stack.drop_last().take(callee) =~= st.stack.take(callee));
    assert(entered.returns.drop_last() =~= st.returns);
}

/// A return goes back to where the call came from, where a frame starts just
/// above its callee. After a call of a function or closure, once the callee's
/// body has left its frame, its upvar stack and the stack up to the callee as
/// it found them and has returned from its own calls, returning replaces the
/// callee and its arguments with the result, restores the caller's frame,
/// upvars and pending returns, and continues at the call's return label.
pub proof fn lemma_exit_return_after_call(
    st: InterpreterView,
    arity: usize,
    return_label: Label,
    entered: InterpreterView,
    called: Result<Flow, InterpretError>,
    body_end: InterpreterView,
    after: InterpreterView,
    returned: Result<Flow, InterpretError>,
)
    requires
        can_exit(st, Terminator::Call(arity, return_label)),
        exited(st, Terminator::Call(arity, return_label), entered, called),
        called matches Ok(Flow::Call(_)),
        body_end.frame == entered.frame,
        body_end.upvars == entered.upvars,
        body_end.returns == entered.returns,
        body_end.stack.len() > entered.frame,
        body_end.stack.take(entered.frame as int) == st.stack.take(entered.frame as int),
        exited(body_end, Terminator::Return, after, returned),
    ensures
        after.stack == st.stack.take(st.stack.len() - arity - 1).push(body_end.stack.last()),
        after.frame == st.frame,
        after.upvars == st.upvars,
        after.returns == st.returns,
        returned matches Ok(Flow::Return(label)) && label == return_label,
{
    let frame = st.stack.len() - arity;
    assert(entered.frame == frame);
    let kept = truncated(body_end.stack.drop_last(), frame as int);
    assert(kept =~= st.stack.take(frame as int));
    assert(after.stack =~= st.stack.take(st.stack.len() - arity - 1).push(body_end.stack.last()));
    assert(entered.returns.drop_last() =~= st.returns);
}

/// Control stays within a graph whose labels name its blocks: the block that
/// a jump or branch of one of its terminators goes to, the block where a
/// native call continues, and the return label that a call records, all
/// name blocks of that graph.
pub proof fn lemma_flow_stays_in_graph(
    st: InterpreterView,
    terminator: Terminator,
    count: int,
    after: InterpreterView,
    result: Result<Flow, InterpretError>,
)
    requires
        targets_below(terminator, count),
        terminated(st, terminator, after, result) || exited(st, terminator, after, result),
    ensures
        result matches Ok(Flow::Jump(label)) ==> label.0 < count,
        result matches Ok(Flow::CallNative(_, _, label)) ==> label.0 < count,
        result matches Ok(Flow::Call(_)) ==> after.returns.last().label.0 < count,
{
}

/// A structure which interprets a control flow graph.
pub struct Interpreter {
    /// The stack of [`Value`]s.
    stack: Vec<Value>,
    /// The stack offset to the current stack frame.
    frame: usize,
    /// The stack of upvars.
    upvars: Vec<Rc<Value>>,
    /// The stack of [`Return`]s.
    returns: Vec<Return>,
}

impl View for Interpreter {
    type V = InterpreterView;

    closed spec fn view(&self) -> InterpreterView {
        InterpreterView {
            stack: self.stack@,
            frame: self.frame,
            upvars: self.upvars@,
            returns: self.returns@.map_values(|r: Return| return_view(r)),
        }
    }
}

impl Interpreter {
    /// Creates a new `Interpreter` with empty stacks.
    pub fn new() -> (interpreter: Self)
        ensures
            interpreter@ == (InterpreterView {
                stack: Seq::empty(),
                frame: 0,
                upvars: Seq::empty(),
                returns: Seq::empty(),
            }),
    {
        let interpreter = Interpreter {
            stack: Vec::new(),
            frame: 0,
            upvars: Vec::new(),
            returns: Vec::new(),
        };
        proof {
            assert(interpreter@.returns =~= Seq::<ReturnView>::empty());
        }
        interpreter
    }

    /// Returns the number of values on the stack.
    pub fn stack_len(&self) -> (len: usize)
        ensures
            len == self@.stack.len(),
    {
        self.stack.len()
    }

    /// Pushes a [`Value`] to the stack.
    pub fn push(&mut self, value: Value)
        ensures
            final(self)@ == pushed(old(self)@, value),
    {
        self.stack.push(value);
    }

    /// Pops a [`Value`] from the stack, which must not be empty.
    fn pop(&mut self) -> (value: Value)
        requires
            old(self)@.stack.len() >= 1,
        ensures
            value == old(self)@.stack.last(),
            final(self)@ == popped(old(self)@),
    {
        self.stack.pop().unwrap()
    }

    /// Pops a number from the stack and returns its bits. This function
    /// returns an [`InterpretError`] if the value is not a number.
    fn pop_number(&mut self) -> (number: Result<u64, InterpretError>)
        requires
            old(self)@.stack.len() >= 1,
        ensures
            final(self)@ == popped(old(self)@),
            number == match old(self)@.stack.last() {
                Value::Number(bits) => Ok::<u64, InterpretError>(bits),
                _ => Err(InterpretError(ErrorKind::InvalidType)),
            },
    {
        match self.pop() {
            Value::Number(bits) => Ok(bits),
            _ => Err(InterpretError(ErrorKind::InvalidType)),
        }
    }

    /// Pops a Boolean value from the stack. This function returns an
    /// [`InterpretError`] if the value is not a Boolean value.
    fn pop_bool(&mut self) -> (value: Result<bool, InterpretError>)
        requires
            old(self)@.stack.len() >= 1,
        ensures
            final(self)@ == popped(old(self)@),
            value == match old(self)@.stack.last() {
                Value::Bool(value) => Ok::<bool, InterpretError>(value),
                _ => Err(InterpretError(ErrorKind::InvalidType)),
            },
    {
        match self.pop() {
            Value::Bool(value) => Ok(value),
            _ => Err(InterpretError(ErrorKind::InvalidType)),
        }
    }

    /// Pops a right-hand side number, then a left-hand side number.
    fn pop_numbers(&mut self) -> (numbers: Result<(u64, u64), InterpretError>)
        requires
            can_pop_numbers(old(self)@),
        ensures
            final(self)@ == pop_numbers(old(self)@).0,
            numbers == match pop_numbers(old(self)@).1 {
                Some(pair) => Ok::<(u64, u64), InterpretError>(pair),
                None => Err(InterpretError(ErrorKind::InvalidType)),
            },
    {
        let rhs = self.pop_number()?;
        let lhs = self.pop_number()?;
        Ok((lhs, rhs))
    }

    /// Interprets an [`Instruction`] with [`Globals`] and returns what is
    /// left to do. This function returns an [`InterpretError`] if an error
    /// occurred.
    pub fn interpret_instruction(&mut self, instruction: &Instruction, globals: &mut Globals) -> (result: Result<Action, InterpretError>)
        requires
            old(globals).wf(),
            can_interpret(old(self)@, old(globals)@, *instruction),
        ensures
            final(globals).wf(),
            interpreted(
                old(self)@,
                old(globals)@,
                *instruction,
                final(self)@,
                final(globals)@,
                result,
            ),
    {
        match instruction {
            Instruction::PushLiteral(literal) => self.push(Value::from(*literal)),
            Instruction::PushFunction(function) => self.push(Value::Function(share(function))),
            Instruction::PushGlobal(symbol) => {
                let value = globals.read(*symbol).copy();
                self.push(value);
            },
            Instruction::PushLocal(offset) => {
                assert(self.stack.len() == self.stack@.len());
                let value = self.stack[self.frame + *offset].copy();
                self.push(value);
            },
            Instruction::PushUpvar(offset) => {
                let value = (*self.upvars[*offset]).copy();
                self.push(value);
            },
            Instruction::Pop(count) => {
                let len = self.stack.len() - *count;
                self.stack.truncate(len);
            },
            Instruction::Print => return Ok(Action::Print(self.pop())),
            Instruction::Negate => return Ok(Action::Negate(self.pop_number()?)),
            Instruction::Not => {
                let value = self.pop_bool()?;
                self.push(Value::Bool(!value));
            },
            Instruction::Add => {
                let (lhs, rhs) = self.pop_numbers()?;
                return Ok(Action::Arithmetic(Arithmetic::Add, lhs, rhs));
            },
            Instruction::Subtract => {
                let (lhs, rhs) = self.pop_numbers()?;
                return Ok(Action::Arithmetic(Arithmetic::Subtract, lhs, rhs));
            },
            Instruction::Multiply => {
                let (lhs, rhs) = self.pop_numbers()?;
                return Ok(Action::Arithmetic(Arithmetic::Multiply, lhs, rhs));
            },
            Instruction::Divide => {
                let (lhs, rhs) = self.pop_numbers()?;
                if !is_normal_number(rhs) {
                    return Err(InterpretError(ErrorKind::DivideByZero));
                }
                return Ok(Action::Arithmetic(Arithmetic::Divide, lhs, rhs));
            },
            Instruction::Power => {
                let (lhs, rhs) = self.pop_numbers()?;
                return Ok(Action::Arithmetic(Arithmetic::Power, lhs, rhs));
            },
            Instruction::Equal | Instruction::NotEqual => {
                let rhs = self.pop();
                let lhs = self.pop();
                if !lhs.matches_value_type(&rhs) {
                    return Err(InterpretError(ErrorKind::InvalidType));
                }
                let equal = match instruction {
                    Instruction::Equal => true,
                    _ => false,
                };
                return Ok(Action::Equality(equal, lhs, rhs));
            },
            Instruction::Less => {
                let (lhs, rhs) = self.pop_numbers()?;
                return Ok(Action::Compare(Comparison::Less, lhs, rhs));
            },
            Instruction::LessEqual => {
                let (lhs, rhs) = self.pop_numbers()?;
                return Ok(Action::Compare(Comparison::LessEqual, lhs, rhs));
            },
            Instruction::Greater => {
                let (lhs, rhs) = self.pop_numbers()?;
                return Ok(Action::Compare(Comparison::Greater, lhs, rhs));
            },
            Instruction::GreaterEqual => {
                let (lhs, rhs) = self.pop_numbers()?;
                return Ok(Action::Compare(Comparison::GreaterEqual, lhs, rhs));
            },
            Instruction::StoreGlobal(symbol) => {
                let value = self.pop();
                globals.assign(*symbol, value);
            },
            Instruction::StoreLocal(offset) => {
                let value = self.pop();
                assert(self.stack.len() == self.stack@.len());
                let index = self.frame + *offset;
                self.stack.set(index, value);
            },
            Instruction::DefineUpvar => {
                let value = self.pop();
                let ghost before = self.upvars@;
                self.upvars.push(Rc::new(value));
                proof {
                    assert(self.upvars@.drop_last() =~= before);
                }
            },
            Instruction::PopUpvars(count) => {
                let len = self.upvars.len() - *count;
                self.upvars.truncate(len);
            },
            Instruction::IntoClosure => {
                if let Value::Function(function) = self.pop() {
                    let closure = Closure { function, upvars: copy_upvars(&self.upvars) };
                    let ghost before = self.stack@;
                    self.push(Value::Closure(Rc::new(closure)));
                    proof {
                        assert(self.stack@.drop_last() =~= before);
                    }
                }
            },
        }
        Ok(Action::Done)
    }
    /// Interprets a [`Terminator`] and returns the [`Flow`] to follow. This
    /// function returns an [`InterpretError`] if an error occurred.
    pub fn interpret_terminator(&mut self, terminator: &Terminator) -> (result: Result<Flow, InterpretError>)
        requires
            can_terminate(old(self)@, *terminator),
        ensures
            terminated(old(self)@, *terminator, final(self)@, result),
    {
        let flow = match terminator {
            Terminator::Halt => Flow::Halt,
            Terminator::Jump(label) => Flow::Jump(*label),
            Terminator::Branch(then_label, else_label) => {
                let label = if self.pop_bool()? {
                    *then_label
                } else {
                    *else_label
                };
                Flow::Jump(label)
            },
            Terminator::Call(arity, return_label) => {
                let mut return_data = Return { label: *return_label, frame: self.frame, upvars: None };
                let arity = *arity;
                let frame = self.stack.len() - arity - 1;
                let function = match &self.stack[frame] {
                    Value::Function(function) => {
                        self.frame = frame;
                        share(function)
                    },
                    Value::Closure(closure) => {
                        self.frame = frame;
                        let mut upvars = copy_upvars(&closure.upvars);
                        std::mem::swap(&mut self.upvars, &mut upvars);
                        return_data.upvars = Some(upvars);
                        share(&closure.function)
                    },
                    Value::Native(native) => {
                        let native = *native;
                        let mut args: Vec<Value> = Vec::new();
                        let mut i = frame + 1;
                        while i < self.stack.len()
                            invariant
                                frame + 1 <= i <= self.stack.len(),
                                args@ == self.stack@.subrange(frame + 1, i as int),
                            decreases self.stack.len() - i,
                        {
                            args.push(self.stack[i].copy());
                            proof {
                                assert(args@ =~= self.stack@.subrange(frame + 1, i + 1));
                            }
                            i = i + 1;
                        }
                        return Ok(Flow::CallNative(native, args, *return_label));
                    },
                    _ => {
                        self.frame = frame;
                        return Err(InterpretError(ErrorKind::CalledNonFunction));
                    },
                };
                if arity != function.arity {
                    return Err(InterpretError(ErrorKind::IncorrectCallArity));
                }
                let ghost before = self.returns@;
                self.returns.push(return_data);
                proof {
                    assert(self@.returns =~= before.map_values(|r: Return| return_view(r)).push(
                        return_view(return_data),
                    ));
                }
                Flow::Call(function)
            },
            Terminator::Return => {
                let return_value = self.pop();
                let frame = self.frame;
                let ghost rest = self.stack@;
                self.stack.truncate(frame);
                proof {
                    assert(self.stack@ =~= truncated(rest, frame as int));
                }
                self.push(return_value);
                let ghost before = self.returns@;
                let return_data = self.returns.pop().unwrap();
                proof {
                    assert(self@.returns =~= before.map_values(|r: Return| return_view(r)).drop_last());
                }
                self.frame = return_data.frame;
                if let Some(upvars) = return_data.upvars {
                    self.upvars = upvars;
                }
                Flow::Return(return_data.label)
            },
        };
        Ok(flow)
    }

    /// Interprets a [`Terminator`] where a frame starts just above its callee,
    /// as code compiled from [`crate::hir::Hir`] expects, and returns the
    /// [`Flow`] to follow. This function returns an [`InterpretError`] if an
    /// error occurred.
    pub fn interpret_exit(&mut self, terminator: &Terminator) -> (result: Result<Flow, InterpretError>)
        requires
            can_exit(old(self)@, *terminator),
        ensures
            exited(old(self)@, *terminator, final(self)@, result),
    {
        let flow = match terminator {
            Terminator::Call(arity, return_label) => {
                let mut return_data = Return { label: *return_label, frame: self.frame, upvars: None };
                let arity = *arity;
                let frame = self.stack.len() - arity;
                let function = match &self.stack[frame - 1] {
                    Value::Function(function) => {
                        self.frame = frame;
                        share(function)
                    },
                    Value::Closure(closure) => {
                        self.frame = frame;
                        let mut upvars = copy_upvars(&closure.upvars);
                        std::mem::swap(&mut self.upvars, &mut upvars);
                        return_data.upvars = Some(upvars);
                        share(&closure.function)
                    },
                    Value::Native(native) => {
                        let native = *native;
                        let mut args: Vec<Value> = Vec::new();
                        let mut i = frame;
                        while i < self.stack.len()
                            invariant
                                frame <= i <= self.stack.len(),
                                args@ == self.stack@.subrange(frame as int, i as int),
                            decreases self.stack.len() - i,
                        {
                            args.push(self.stack[i].copy());
                            proof {
                                assert(args@ =~= self.stack@.subrange(frame as int, i + 1));
                            }
                            i = i + 1;
                        }
                        return Ok(Flow::CallNative(native, args, *return_label));
                    },
                    _ => {
                        self.frame = frame;
                        return Err(InterpretError(ErrorKind::CalledNonFunction));
                    },
                };
                if arity != function.arity {
                    return Err(InterpretError(ErrorKind::IncorrectCallArity));
                }
                let ghost before = self.returns@;
                self.returns.push(return_data);
                proof {
                    assert(self@.returns =~= before.map_values(|r: Return| return_view(r)).push(
                        return_view(return_data),
                    ));
                }
                Flow::Call(function)
            },
            Terminator::Return => {
                let return_value = self.pop();
                let frame = self.frame;
                let ghost rest = self.stack@;
                self.stack.truncate(frame);
                proof {
                    assert(self.stack@ =~= truncated(rest, frame as int));
                }
                let last = self.stack.len() - 1;
                self.stack.set(last, return_value);
                let ghost before = self.returns@;
                let return_data = self.returns.pop().unwrap();
                proof {
                    assert(self@.returns =~= before.map_values(|r: Return| return_view(r)).drop_last());
                }
                self.frame = return_data.frame;
                if let Some(upvars) = return_data.upvars {
                    self.upvars = upvars;
                }
                Flow::Return(return_data.label)
            },
            _ => return self.interpret_terminator(terminator),
        };
        Ok(flow)
    }

    /// Finishes a call of a native function with `arity` arguments: the
    /// callee and its arguments are replaced by the call's result.
    pub fn finish_native_call(&mut self, arity: usize, value: Value)
        requires
            arity + 1 <= old(self)@.stack.len(),
        ensures
            final(self)@ == pushed(
                InterpreterView {
                    stack: old(self)@.stack.take(old(self)@.stack.len() - arity - 1),
                    ..old(self)@
                },
                value,
            ),
    {
        let len = self.stack.len() - arity - 1;
        self.stack.truncate(len);
        self.push(value);
    }
    /// Returns whether an [`Instruction`] can be interpreted now with
    /// [`Globals`]: without running out of values, reading outside the
    /// stacks, or reading an undefined global.
    pub fn can_interpret_instruction(&self, instruction: &Instruction, globals: &Globals) -> (possible: bool)
        requires
            globals.wf(),
        ensures
            possible == can_interpret(self@, globals@, *instruction),
    {
        let len = self.stack.len();
        match instruction {
            Instruction::PushLiteral(_) | Instruction::PushFunction(_) => true,
            Instruction::PushGlobal(symbol) => globals.is_defined(*symbol),
            Instruction::PushLocal(offset) => self.frame < len && *offset < len - self.frame,
            Instruction::PushUpvar(offset) => *offset < self.upvars.len(),
            Instruction::Pop(count) => *count <= len,
            Instruction::PopUpvars(count) => *count <= self.upvars.len(),
            Instruction::Equal | Instruction::NotEqual => len >= 2,
            Instruction::Add | Instruction::Subtract | Instruction::Multiply | Instruction::Divide
            | Instruction::Power | Instruction::Less | Instruction::LessEqual | Instruction::Greater
            | Instruction::GreaterEqual => len >= 2 || (len == 1 && !matches!(
                self.stack[0],
                Value::Number(_)
            )),
            Instruction::StoreLocal(offset) => len >= 1 && self.frame < len - 1 && *offset < len - 1
                - self.frame,
            Instruction::IntoClosure => len >= 1 && matches!(self.stack[len - 1], Value::Function(_)),
            _ => len >= 1,
        }
    }

    /// Returns whether a [`Terminator`] can be interpreted now: without
    /// running out of values or of calls to return from.
    pub fn can_interpret_terminator(&self, terminator: &Terminator) -> (possible: bool)
        ensures
            possible == can_terminate(self@, *terminator),
    {
        let len = self.stack.len();
        match terminator {
            Terminator::Halt | Terminator::Jump(_) => true,
            Terminator::Branch(_, _) => len >= 1,
            Terminator::Call(arity, _) => *arity < len,
            Terminator::Return => len >= 1 && self.returns.len() >= 1,
        }
    }
    /// Returns whether a [`Terminator`] can be interpreted now where a frame
    /// starts just above its callee.
    pub fn can_interpret_exit(&self, terminator: &Terminator) -> (possible: bool)
        ensures
            possible == can_exit(self@, *terminator),
    {
        match terminator {
            Terminator::Call(arity, _) => *arity < self.stack.len(),
            Terminator::Return => self.stack.len() >= 2 && self.frame >= 1 && self.returns.len() >= 1,
            _ => self.can_interpret_terminator(terminator),
        }
    }
}

} // verus!
