//! Control flow graphs: basic blocks of stack machine instructions, each ended
//! by a terminator that says where control goes next.

use vstd::prelude::*;

use std::rc::Rc;

use crate::ast::Literal;
use crate::symbols::Symbol;

verus! {

/// A label for a [`BasicBlock`]: its index in its [`Cfg`].
#[derive(Clone, Copy, Debug, Default, PartialEq, Eq, Hash, Structural)]
pub struct Label(pub usize);

/// An identifier for an upvalue: its index in the table of upvalues.
#[derive(Clone, Copy, Debug, PartialEq, Eq, Hash, Structural)]
pub struct UpvalueId(pub usize);

/// A control flow graph.
#[derive(Debug)]
pub struct Cfg {
    /// The basic blocks, by [`Label`].
    basic_blocks: Vec<BasicBlock>,
}

/// A function.
#[derive(Debug)]
pub struct Function {
    /// The [`Cfg`].
    pub cfg: Cfg,
    /// The number of parameters.
    pub arity: usize,
}

/// A basic block.
#[derive(Debug)]
pub struct BasicBlock {
    /// The [`Instruction`]s.
    pub instructions: Vec<Instruction>,
    /// The [`Terminator`].
    pub terminator: Terminator,
}

/// An instruction which can appear in the middle of a [`BasicBlock`].
#[derive(Debug)]
pub enum Instruction {
    /// Pushes a [`Literal`] value to the stack.
    PushLiteral(Literal),
    /// Pushes a [`Function`] value to the stack.
    PushFunction(Rc<Function>),
    /// Loads a value from a global variable and pushes it to the stack.
    PushGlobal(Symbol),
    /// Loads a value from a stack frame offset and pushes it to the stack.
    PushLocal(usize),
    /// Loads a value from an upvar stack offset and pushes it to the stack.
    PushUpvar(usize),
    /// Pops a number of values from the stack and discards them.
    Pop(usize),
    /// Pops a value from the stack and prints it.
    Print,
    /// Pops a number value, negates it, and pushes the result.
    Negate,
    /// Pops a Boolean value, logically negates it, and pushes the result.
    Not,
    /// Pops two number values, adds them, and pushes the result.
    Add,
    /// Pops a subtrahend, then a minuend, and pushes their difference.
    Subtract,
    /// Pops two number values, multiplies them, and pushes the result.
    Multiply,
    /// Pops a divisor, then a dividend, and pushes their quotient.
    Divide,
    /// Pops an exponent, then a base, and pushes the power.
    Power,
    /// Pops two values, compares them as equal, and pushes the result.
    Equal,
    /// Pops two values, compares them as not equal, and pushes the result.
    NotEqual,
    /// Pops a right-hand side, then a left-hand side, and pushes whether the
    /// left is less than the right.
    Less,
    /// Pops a right-hand side, then a left-hand side, and pushes whether the
    /// left is less than or equal to the right.
    LessEqual,
    /// Pops a right-hand side, then a left-hand side, and pushes whether the
    /// left is greater than the right.
    Greater,
    /// Pops a right-hand side, then a left-hand side, and pushes whether the
    /// left is greater than or equal to the right.
    GreaterEqual,
    /// Pops a value from the stack and stores it in a global variable.
    StoreGlobal(Symbol),
    /// Pops a value from the stack and stores it at a stack frame offset.
    StoreLocal(usize),
    /// Pops a value from the stack and pushes it to the upvar stack.
    DefineUpvar,
    /// Pops a number of values from the upvar stack and discards them.
    PopUpvars(usize),
    /// Pops a [`Function`] value, converts it to a closure, and pushes the
    /// result.
    IntoClosure,
}

/// A [`BasicBlock`]'s terminator.
#[derive(Clone, Copy, Debug, PartialEq, Eq, Structural)]
pub enum Terminator {
    /// Halts execution.
    Halt,
    /// Unconditionally jumps to a [`Label`].
    Jump(Label),
    /// Pops a Boolean value and jumps to the first [`Label`] if it is `true`,
    /// or to the second if it is `false`.
    Branch(Label, Label),
    /// Performs a call with an arity and returns to a [`Label`].
    Call(usize, Label),
    /// Pops a value from the top of the stack and returns it.
    Return,
}

/// The abstract value of a [`Function`]: its basic blocks and its arity.
pub struct FunctionView {
    pub blocks: Seq<BlockView>,
    pub arity: usize,
}

/// The abstract value of a [`BasicBlock`].
pub struct BlockView {
    pub instructions: Seq<InstructionView>,
    pub terminator: Terminator,
}

/// The abstract value of an [`Instruction`]: the same instruction, with a
/// pushed function taken by its abstract value.
pub enum InstructionView {
    PushLiteral(Literal),
    PushFunction(FunctionView),
    PushGlobal(Symbol),
    PushLocal(usize),
    PushUpvar(usize),
    Pop(usize),
    Print,
    Negate,
    Not,
    Add,
    Subtract,
    Multiply,
    Divide,
    Power,
    Equal,
    NotEqual,
    Less,
    LessEqual,
    Greater,
    GreaterEqual,
    StoreGlobal(Symbol),
    StoreLocal(usize),
    DefineUpvar,
    PopUpvars(usize),
    IntoClosure,
}

/// An empty basic block that halts.
pub open spec fn empty_block() -> BlockView {
    BlockView { instructions: Seq::empty(), terminator: Terminator::Halt }
}

/// The abstract values of a sequence of basic blocks.
pub open spec fn blocks_view(blocks: Seq<BasicBlock>) -> Seq<BlockView>
    decreases blocks,
{
    if blocks.len() == 0 {
        Seq::empty()
    } else {
        blocks_view(blocks.drop_last()).push(block_view(blocks.last()))
    }
}

/// The abstract value of a basic block.
pub open spec fn block_view(block: BasicBlock) -> BlockView
    decreases block,
{
    BlockView {
        instructions: instructions_view(block.instructions@),
        terminator: block.terminator,
    }
}

/// The abstract values of a sequence of instructions.
pub open spec fn instructions_view(instructions: Seq<Instruction>) -> Seq<InstructionView>
    decreases instructions,
{
    if instructions.len() == 0 {
        Seq::empty()
    } else {
        instructions_view(instructions.drop_last()).push(
            instruction_view(instructions.last()),
        )
    }
}

/// The abstract value of a function.
pub closed spec fn function_view(function: Function) -> FunctionView
    decreases function,
{
    FunctionView { blocks: blocks_view(function.cfg.basic_blocks@), arity: function.arity }
}

/// The abstract value of an instruction.
pub open spec fn instruction_view(instruction: Instruction) -> InstructionView
    decreases instruction,
{
    match instruction {
        Instruction::PushLiteral(literal) => InstructionView::PushLiteral(literal),
        Instruction::PushFunction(function) => InstructionView::PushFunction(
            function_view(*function),
        ),
        Instruction::PushGlobal(symbol) => InstructionView::PushGlobal(symbol),
        Instruction::PushLocal(offset) => InstructionView::PushLocal(offset),
        Instruction::PushUpvar(offset) => InstructionView::PushUpvar(offset),
        Instruction::Pop(count) => InstructionView::Pop(count),
        Instruction::Print => InstructionView::Print,
        Instruction::Negate => InstructionView::Negate,
        Instruction::Not => InstructionView::Not,
        Instruction::Add => InstructionView::Add,
        Instruction::Subtract => InstructionView::Subtract,
        Instruction::Multiply => InstructionView::Multiply,
        Instruction::Divide => InstructionView::Divide,
        Instruction::Power => InstructionView::Power,
        Instruction::Equal => InstructionView::Equal,
        Instruction::NotEqual => InstructionView::NotEqual,
        Instruction::Less => InstructionView::Less,
        Instruction::LessEqual => InstructionView::LessEqual,
        Instruction::Greater => InstructionView::Greater,
        Instruction::GreaterEqual => InstructionView::GreaterEqual,
        Instruction::StoreGlobal(symbol) => InstructionView::StoreGlobal(symbol),
        Instruction::StoreLocal(offset) => InstructionView::StoreLocal(offset),
        Instruction::DefineUpvar => InstructionView::DefineUpvar,
        Instruction::PopUpvars(count) => InstructionView::PopUpvars(count),
        Instruction::IntoClosure => InstructionView::IntoClosure,
    }
}

/// The view of a sequence of blocks splits at its last block.
pub proof fn lemma_blocks_view_push(blocks: Seq<BasicBlock>, block: BasicBlock)
    ensures
        blocks_view(blocks.push(block)) == blocks_view(blocks).push(block_view(block)),
{
    assert(blocks.push(block).drop_last() =~= blocks);
}

/// The view of a sequence of blocks has one block per block.
pub proof fn lemma_blocks_view_len(blocks: Seq<BasicBlock>)
    ensures
        blocks_view(blocks).len() == blocks.len(),
    decreases blocks.len(),
{
    if blocks.len() > 0 {
        lemma_blocks_view_len(blocks.drop_last());
    }
}

/// The view of a sequence of blocks is taken block by block.
pub proof fn lemma_blocks_view_index(blocks: Seq<BasicBlock>, i: int)
    requires
        0 <= i < blocks.len(),
    ensures
        blocks_view(blocks)[i] == block_view(blocks[i]),
    decreases blocks.len(),
{
    lemma_blocks_view_len(blocks.drop_last());
    if i < blocks.len() - 1 {
        lemma_blocks_view_index(blocks.drop_last(), i);
    }
}

/// Replacing one block replaces its view.
pub proof fn lemma_blocks_view_update(blocks: Seq<BasicBlock>, i: int, block: BasicBlock)
    requires
        0 <= i < blocks.len(),
    ensures
        blocks_view(blocks.update(i, block)) == blocks_view(blocks).update(i, block_view(block)),
{
    let updated = blocks.update(i, block);
    lemma_blocks_view_len(blocks);
    lemma_blocks_view_len(updated);
    assert forall|j: int| 0 <= j < blocks.len() implies #[trigger] blocks_view(updated)[j]
        == blocks_view(blocks).update(i, block_view(block))[j] by {
        lemma_blocks_view_index(updated, j);
        lemma_blocks_view_index(blocks, j);
    }
    assert(blocks_view(updated) =~= blocks_view(blocks).update(i, block_view(block)));
}

/// Appending an instruction appends its view.
pub proof fn lemma_instructions_view_push(instructions: Seq<Instruction>, instruction: Instruction)
    ensures
        instructions_view(instructions.push(instruction)) == instructions_view(instructions).push(
            instruction_view(instruction),
        ),
{
    assert(instructions.push(instruction).drop_last() =~= instructions);
}

/// A function's view is made of its blocks' views and its arity.
pub proof fn lemma_function_view(cfg: Cfg, arity: usize)
    ensures
        function_view(Function { cfg, arity }) == (FunctionView { blocks: cfg@, arity }),
{
}

/// A shared function's view is made of its blocks' views and its arity.
pub proof fn lemma_shared_function_view(function: Rc<Function>)
    ensures
        function_view(*function) == (FunctionView { blocks: function.cfg@, arity: function.arity }),
{
}

/// A pushed function is viewed through its own view.
pub proof fn lemma_push_function_view(function: Function)
    ensures
        instruction_view(Instruction::PushFunction(Rc::new(function)))
            == InstructionView::PushFunction(function_view(function)),
{
}

/// Whether a terminator only names labels below `count`.
pub open spec fn targets_below(terminator: Terminator, count: int) -> bool {
    match terminator {
        Terminator::Halt | Terminator::Return => true,
        Terminator::Jump(label) => label.0 < count,
        Terminator::Branch(then_label, else_label) => then_label.0 < count && else_label.0
            < count,
        Terminator::Call(_, return_label) => return_label.0 < count,
    }
}

/// Whether the terminators of `blocks` only name labels below `count`, and
/// the functions that their instructions push are closed graphs.
pub open spec fn blocks_closed_in(blocks: Seq<BlockView>, count: int) -> bool
    decreases blocks,
{
    if blocks.len() == 0 {
        true
    } else {
        blocks_closed_in(blocks.drop_last(), count) && block_closed_in(blocks.last(), count)
    }
}

/// Whether a block's terminator only names labels below `count`, and the
/// functions that its instructions push are closed graphs.
pub open spec fn block_closed_in(block: BlockView, count: int) -> bool
    decreases block,
{
    targets_below(block.terminator, count) && instructions_closed(block.instructions)
}

/// Whether the functions that the instructions push are closed graphs.
pub open spec fn instructions_closed(instructions: Seq<InstructionView>) -> bool
    decreases instructions,
{
    if instructions.len() == 0 {
        true
    } else {
        instructions_closed(instructions.drop_last()) && instruction_closed(instructions.last())
    }
}

/// Whether the function that an instruction pushes, if any, is a closed
/// graph.
pub open spec fn instruction_closed(instruction: InstructionView) -> bool
    decreases instruction,
{
    match instruction {
        InstructionView::PushFunction(function) => function.blocks.len() >= 1 && blocks_closed_in(
            function.blocks,
            function.blocks.len() as int,
        ),
        _ => true,
    }
}

/// Whether a graph is closed: it has a first block, and every label that
/// its terminators name, and those of the functions it pushes, names a
/// block of its own graph.
pub open spec fn graph_closed(blocks: Seq<BlockView>) -> bool {
    &&& blocks.len() >= 1
    &&& blocks_closed_in(blocks, blocks.len() as int)
}

/// Blocks are closed in a graph exactly when each of them is.
pub proof fn lemma_blocks_closed_in(blocks: Seq<BlockView>, count: int)
    ensures
        blocks_closed_in(blocks, count) <==> forall|i: int|
            0 <= i < blocks.len() ==> block_closed_in(#[trigger] blocks[i], count),
    decreases blocks.len(),
{
    if blocks.len() > 0 {
        lemma_blocks_closed_in(blocks.drop_last(), count);
        if blocks_closed_in(blocks, count) {
            assert forall|i: int| 0 <= i < blocks.len() implies block_closed_in(
                #[trigger] blocks[i],
                count,
            ) by {
                if i < blocks.len() - 1 {
                    assert(blocks.drop_last()[i] == blocks[i]);
                }
            }
        }
        if forall|i: int| 0 <= i < blocks.len() ==> block_closed_in(#[trigger] blocks[i], count) {
            assert forall|i: int| 0 <= i < blocks.len() - 1 implies block_closed_in(
                #[trigger] blocks.drop_last()[i],
                count,
            ) by {
                assert(blocks.drop_last()[i] == blocks[i]);
            }
            assert(block_closed_in(blocks[blocks.len() - 1], count));
        }
    }
}

/// Instructions are closed exactly when each of them is.
pub proof fn lemma_instructions_closed(instructions: Seq<InstructionView>)
    ensures
        instructions_closed(instructions) <==> forall|i: int|
            0 <= i < instructions.len() ==> instruction_closed(#[trigger] instructions[i]),
    decreases instructions.len(),
{
    if instructions.len() > 0 {
        lemma_instructions_closed(instructions.drop_last());
        if instructions_closed(instructions) {
            assert forall|i: int| 0 <= i < instructions.len() implies instruction_closed(
                #[trigger] instructions[i],
            ) by {
                if i < instructions.len() - 1 {
                    assert(instructions.drop_last()[i] == instructions[i]);
                }
            }
        }
        if forall|i: int|
            0 <= i < instructions.len() ==> instruction_closed(#[trigger] instructions[i]) {
            assert forall|i: int| 0 <= i < instructions.len() - 1 implies instruction_closed(
                #[trigger] instructions.drop_last()[i],
            ) by {
                assert(instructions.drop_last()[i] == instructions[i]);
            }
            assert(instruction_closed(instructions[instructions.len() - 1]));
        }
    }
}

/// Blocks that are closed in a graph stay closed in a larger one.
pub proof fn lemma_blocks_closed_grow(blocks: Seq<BlockView>, count: int, larger: int)
    requires
        blocks_closed_in(blocks, count),
        count <= larger,
    ensures
        blocks_closed_in(blocks, larger),
    decreases blocks.len(),
{
    if blocks.len() > 0 {
        lemma_blocks_closed_grow(blocks.drop_last(), count, larger);
        let last = blocks.last();
        assert(block_closed_in(last, count));
        assert(targets_below(last.terminator, larger));
        assert(block_closed_in(last, larger));
    }
}

/// Replacing a block of a closed sequence with a closed block, or appending
/// one, keeps the sequence closed.
pub proof fn lemma_blocks_closed_update(blocks: Seq<BlockView>, count: int, i: int, block: BlockView)
    requires
        blocks_closed_in(blocks, count),
        block_closed_in(block, count),
        0 <= i <= blocks.len(),
    ensures
        blocks_closed_in(
            if i < blocks.len() {
                blocks.update(i, block)
            } else {
                blocks.push(block)
            },
            count,
        ),
{
    let out = if i < blocks.len() {
        blocks.update(i, block)
    } else {
        blocks.push(block)
    };
    lemma_blocks_closed_in(blocks, count);
    lemma_blocks_closed_in(out, count);
    assert forall|j: int| 0 <= j < out.len() implies block_closed_in(#[trigger] out[j], count) by {
        if j != i {
            assert(out[j] == blocks[j]);
        }
    }
}

/// Appending a closed instruction keeps instructions closed.
pub proof fn lemma_instructions_closed_push(
    instructions: Seq<InstructionView>,
    instruction: InstructionView,
)
    requires
        instructions_closed(instructions),
        instruction_closed(instruction),
    ensures
        instructions_closed(instructions.push(instruction)),
{
    assert(instructions.push(instruction).drop_last() =~= instructions);
}

/// The mnemonic of an instruction in pseudo-assembly.
pub open spec fn instruction_mnemonic(instruction: Instruction) -> Seq<char> {
    match instruction {
        Instruction::PushLiteral(_) => "push_literal"@,
        Instruction::PushFunction(_) => "push_function"@,
        Instruction::PushGlobal(_) => "push_global"@,
        Instruction::PushLocal(_) => "push_local"@,
        Instruction::PushUpvar(_) => "push_upvar"@,
        Instruction::Pop(_) => "pop"@,
        Instruction::Print => "print"@,
        Instruction::Negate => "negate"@,
        Instruction::Not => "not"@,
        Instruction::Add => "add"@,
        Instruction::Subtract => "subtract"@,
        Instruction::Multiply => "multiply"@,
        Instruction::Divide => "divide"@,
        Instruction::Power => "power"@,
        Instruction::Equal => "equal"@,
        Instruction::NotEqual => "not_equal"@,
        Instruction::Less => "less"@,
        Instruction::LessEqual => "less_equal"@,
        Instruction::Greater => "greater"@,
        Instruction::GreaterEqual => "greater_equal"@,
        Instruction::StoreGlobal(_) => "store_global"@,
        Instruction::StoreLocal(_) => "store_local"@,
        Instruction::DefineUpvar => "define_upvar"@,
        Instruction::PopUpvars(_) => "pop_upvars"@,
        Instruction::IntoClosure => "into_closure"@,
    }
}

/// The mnemonic of a terminator in pseudo-assembly.
pub open spec fn terminator_mnemonic(terminator: Terminator) -> Seq<char> {
    match terminator {
        Terminator::Halt => "halt"@,
        Terminator::Jump(_) => "jump"@,
        Terminator::Branch(_, _) => "branch"@,
        Terminator::Call(_, _) => "call"@,
        Terminator::Return => "return"@,
    }
}

impl Instruction {
    /// Returns the instruction's mnemonic in pseudo-assembly.
    pub fn mnemonic(&self) -> (name: &'static str)
        ensures
            name@ == instruction_mnemonic(*self),
    {
        match self {
            Instruction::PushLiteral(_) => "push_literal",
            Instruction::PushFunction(_) => "push_function",
            Instruction::PushGlobal(_) => "push_global",
            Instruction::PushLocal(_) => "push_local",
            Instruction::PushUpvar(_) => "push_upvar",
            Instruction::Pop(_) => "pop",
            Instruction::Print => "print",
            Instruction::Negate => "negate",
            Instruction::Not => "not",
            Instruction::Add => "add",
            Instruction::Subtract => "subtract",
            Instruction::Multiply => "multiply",
            Instruction::Divide => "divide",
            Instruction::Power => "power",
            Instruction::Equal => "equal",
            Instruction::NotEqual => "not_equal",
            Instruction::Less => "less",
            Instruction::LessEqual => "less_equal",
            Instruction::Greater => "greater",
            Instruction::GreaterEqual => "greater_equal",
            Instruction::StoreGlobal(_) => "store_global",
            Instruction::StoreLocal(_) => "store_local",
            Instruction::DefineUpvar => "define_upvar",
            Instruction::PopUpvars(_) => "pop_upvars",
            Instruction::IntoClosure => "into_closure",
        }
    }
}

impl Terminator {
    /// Returns the terminator's mnemonic in pseudo-assembly.
    pub fn mnemonic(&self) -> (name: &'static str)
        ensures
            name@ == terminator_mnemonic(*self),
    {
        match self {
            Terminator::Halt => "halt",
            Terminator::Jump(_) => "jump",
            Terminator::Branch(_, _) => "branch",
            Terminator::Call(_, _) => "call",
            Terminator::Return => "return",
        }
    }
}

/// Text padded with spaces at its end to a column width.
pub open spec fn padded(text: Seq<char>, width: nat) -> Seq<char> {
    if text.len() < width {
        text + Seq::new((width - text.len()) as nat, |i: int| ' ')
    } else {
        text
    }
}

/// An instruction as a line of pseudo-assembly, given the text of its
/// operand (a literal's value, a global's name, or an offset or count in
/// decimal): the mnemonic alone, or the mnemonic padded to 16 columns and
/// followed by the operand, in brackets for an offset and in parentheses for
/// a count. A pushed function is shown as `...`.
pub open spec fn instruction_text(instruction: Instruction, operand: Seq<char>) -> Seq<char> {
    let name = padded(instruction_mnemonic(instruction), 16);
    match instruction {
        Instruction::PushLiteral(_) | Instruction::PushGlobal(_) | Instruction::StoreGlobal(_) => name
            + operand,
        Instruction::PushFunction(_) => name + "..."@,
        Instruction::PushLocal(_) | Instruction::PushUpvar(_) | Instruction::StoreLocal(_) => name
            + "["@ + operand + "]"@,
        Instruction::Pop(_) | Instruction::PopUpvars(_) => name + "("@ + operand + ")"@,
        _ => instruction_mnemonic(instruction),
    }
}

/// Returns text padded with spaces at its end to a column width.
pub fn pad(text: &str, width: usize) -> (result: String)
    ensures
        result@ == padded(text@, width as nat),
{
    let mut result = String::from_str(text);
    let mut len = text.unicode_len();
    proof {
        reveal_strlit(" ");
        assert(text@ + Seq::new((len - text@.len()) as nat, |i: int| ' ') =~= text@);
    }
    while len < width
        invariant
            len >= text@.len(),
            len <= width || len == text@.len(),
            result@ == text@ + Seq::new((len - text@.len()) as nat, |i: int| ' '),
        decreases width - len,
    {
        result.append(" ");
        proof {
            reveal_strlit(" ");
            assert(result@ =~= text@ + Seq::new((len + 1 - text@.len()) as nat, |i: int| ' '));
        }
        len = len + 1;
    }
    proof {
        if text@.len() < width {
            assert(len == width);
        } else {
            assert(result@ =~= text@);
        }
    }
    result
}

impl Instruction {
    /// Returns the instruction as a line of pseudo-assembly, given the text
    /// of its operand.
    pub fn text(&self, operand: &str) -> (text: String)
        ensures
            text@ == instruction_text(*self, operand@),
    {
        let name = self.mnemonic();
        match self {
            Instruction::PushLiteral(_) | Instruction::PushGlobal(_) | Instruction::StoreGlobal(_) => {
                let mut text = pad(name, 16);
                text.append(operand);
                text
            },
            Instruction::PushFunction(_) => {
                let mut text = pad(name, 16);
                text.append("...");
                text
            },
            Instruction::PushLocal(_) | Instruction::PushUpvar(_) | Instruction::StoreLocal(_) => {
                let mut text = pad(name, 16);
                text.append("[");
                text.append(operand);
                text.append("]");
                text
            },
            Instruction::Pop(_) | Instruction::PopUpvars(_) => {
                let mut text = pad(name, 16);
                text.append("(");
                text.append(operand);
                text.append(")");
                text
            },
            _ => String::from_str(name),
        }
    }
}

impl View for Cfg {
    type V = Seq<BlockView>;

    closed spec fn view(&self) -> Seq<BlockView> {
        blocks_view(self.basic_blocks@)
    }
}

impl Cfg {
    /// Creates a new `Cfg` holding one empty main [`BasicBlock`], with the
    /// default [`Label`].
    pub fn new() -> (cfg: Self)
        ensures
            cfg@ == seq![empty_block()],
    {
        let mut cfg = Cfg { basic_blocks: Vec::new() };
        let main_label = cfg.insert_basic_block();
        proof {
            assert(cfg@ =~= seq![empty_block()]);
        }
        cfg
    }

    /// Inserts a new empty [`BasicBlock`] that halts into the `Cfg` and
    /// returns its [`Label`].
    pub fn insert_basic_block(&mut self) -> (label: Label)
        ensures
            final(self)@ == old(self)@.push(empty_block()),
            label.0 == old(self)@.len(),
    {
        let ghost before = self.basic_blocks@;
        let block = BasicBlock { instructions: Vec::new(), terminator: Terminator::Halt };
        self.basic_blocks.push(block);
        proof {
            lemma_blocks_view_push(before, block);
            lemma_blocks_view_len(before);
            assert(instructions_view(Seq::<Instruction>::empty()) =~= Seq::<InstructionView>::empty());
        }
        Label(self.basic_blocks.len() - 1)
    }

    /// Returns the number of [`BasicBlock`]s.
    pub fn len(&self) -> (len: usize)
        ensures
            len == self@.len(),
    {
        proof {
            lemma_blocks_view_len(self.basic_blocks@);
        }
        self.basic_blocks.len()
    }

    /// Returns a reference to a [`BasicBlock`] from its [`Label`].
    pub fn basic_block(&self, label: Label) -> (block: &BasicBlock)
        requires
            label.0 < self@.len(),
        ensures
            block_view(*block) == self@[label.0 as int],
    {
        proof {
            lemma_blocks_view_len(self.basic_blocks@);
            lemma_blocks_view_index(self.basic_blocks@, label.0 as int);
        }
        &self.basic_blocks[label.0]
    }

    /// Returns a mutable reference to a [`BasicBlock`] from its [`Label`].
    pub fn basic_block_mut(&mut self, label: Label) -> (block: &mut BasicBlock)
        requires
            label.0 < old(self)@.len(),
        ensures
            block_view(*block) == old(self)@[label.0 as int],
            final(self)@ == old(self)@.update(label.0 as int, block_view(*final(block))),
    {
        proof {
            lemma_blocks_view_len(self.basic_blocks@);
            lemma_blocks_view_index(self.basic_blocks@, label.0 as int);
        }
        let ghost before = self.basic_blocks@;
        let block = &mut self.basic_blocks[label.0];
        proof {
            lemma_blocks_view_update(before, label.0 as int, *final(block));
        }
        block
    }
}

} // verus!
