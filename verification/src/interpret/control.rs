//! Where interpretation goes next: the functions called and not yet
//! returned from, and the label of the block to run.

use vstd::prelude::*;

use std::rc::Rc;

use crate::cfg::{block_view, BasicBlock, BlockView, Cfg, Function, Label};

use super::native::Native;
use super::value::Value;
use super::Flow;

verus! {

/// The position of interpretation: the functions called and not yet
/// returned from, innermost last, and the label of the block to run next in
/// the innermost one's graph (or the program's, at the top level).
pub struct Control {
    /// The called functions, outermost first.
    called: Vec<Rc<Function>>,
    /// The label of the next block.
    label: Label,
}

/// The abstract value of a [`Control`].
pub struct ControlView {
    pub called: Seq<Rc<Function>>,
    pub label: Label,
}

impl View for Control {
    type V = ControlView;

    closed spec fn view(&self) -> ControlView {
        ControlView { called: self.called@, label: self.label }
    }
}

/// The graph that runs at a position: the innermost called function's, or
/// the program's at the top level.
pub open spec fn current_graph(control: ControlView, program: Seq<BlockView>) -> Seq<BlockView> {
    if control.called.len() == 0 {
        program
    } else {
        control.called.last().cfg@
    }
}

/// The position after following a [`Flow`]: a jump goes to its label, a call
/// enters the function's first block, a return leaves the innermost function
/// for its label, and a native call continues at its return label.
pub open spec fn followed(control: ControlView, flow: Flow) -> ControlView {
    match flow {
        Flow::Halt => control,
        Flow::Jump(label) => ControlView { label, ..control },
        Flow::Call(function) => ControlView { called: control.called.push(function), label: Label(0) },
        Flow::Return(label) => ControlView { called: control.called.drop_last(), label },
        Flow::CallNative(_, _, label) => ControlView { label, ..control },
    }
}

/// What the driving loop does after following a [`Flow`].
pub enum Step {
    /// Stop: the program halted.
    Halt,
    /// Run the next block.
    Continue,
    /// Call the native function with the arguments, hand the result to
    /// [`super::Interpreter::finish_native_call`], and run the next block.
    CallNative(Native, Vec<Value>),
}

impl Control {
    /// Creates a new `Control` at the program's first block.
    pub fn new() -> (control: Self)
        ensures
            control@.called.len() == 0,
            control@.label == Label(0),
    {
        Control { called: Vec::new(), label: Label(0) }
    }

    /// Returns the number of called functions not yet returned from.
    pub fn depth(&self) -> (depth: usize)
        ensures
            depth == self@.called.len(),
    {
        self.called.len()
    }

    /// Returns whether the next block exists in the graph that runs.
    pub fn can_run(&self, program: &Cfg) -> (possible: bool)
        ensures
            possible == (self@.label.0 < current_graph(self@, program@).len()),
    {
        if self.called.len() == 0 {
            self.label.0 < program.len()
        } else {
            self.label.0 < self.called[self.called.len() - 1].cfg.len()
        }
    }

    /// Returns the next block to run, in the graph that runs.
    pub fn basic_block<'a>(&'a self, program: &'a Cfg) -> (block: &'a BasicBlock)
        requires
            self@.label.0 < current_graph(self@, program@).len(),
        ensures
            block_view(*block) == current_graph(self@, program@)[self@.label.0 as int],
    {
        if self.called.len() == 0 {
            program.basic_block(self.label)
        } else {
            self.called[self.called.len() - 1].cfg.basic_block(self.label)
        }
    }

    /// Follows a [`Flow`] and returns what the driving loop does next: a
    /// jump goes to its label, a call enters the function's first block, a
    /// return leaves the innermost function for its label, and a native
    /// call continues at its return label once the loop has made it.
    pub fn follow(&mut self, flow: Flow) -> (step: Step)
        requires
            flow is Return ==> old(self)@.called.len() > 0,
        ensures
            final(self)@ == followed(old(self)@, flow),
            match flow {
                Flow::Halt => step is Halt,
                Flow::CallNative(native, args, _) => step matches Step::CallNative(
                    called,
                    passed,
                ) && called == native && passed@ == args@,
                _ => step is Continue,
            },
    {
        match flow {
            Flow::Halt => Step::Halt,
            Flow::Jump(label) => {
                self.label = label;
                Step::Continue
            },
            Flow::Call(function) => {
                self.called.push(function);
                self.label = Label(0);
                Step::Continue
            },
            Flow::Return(label) => {
                self.called.pop();
                self.label = label;
                Step::Continue
            },
            Flow::CallNative(native, args, label) => {
                self.label = label;
                Step::CallNative(native, args)
            },
        }
    }
}

} // verus!
