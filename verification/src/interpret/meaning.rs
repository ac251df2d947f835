//! What the operations that the interpreter hands back mean: each action is
//! named for the instruction that asked for it, takes its operands in the
//! order they were pushed, and computes the operator written in the source.

use vstd::prelude::*;

use crate::ast::{binary_symbol, BinOp};
use crate::cfg::{instruction_mnemonic, instruction_view, Instruction};
use crate::compilation::codegen::semantics::binary_instruction;
use crate::symbols::Symbol;

use super::value::Value;
use super::{
    can_interpret, interpreted, is_normal_bits, Action, Arithmetic, Comparison, InterpretError,
    InterpreterView,
};

verus! {

/// The name of the instruction that asks for an arithmetic operation.
pub open spec fn arithmetic_name(op: Arithmetic) -> Seq<char> {
    match op {
        Arithmetic::Add => "add"@,
        Arithmetic::Subtract => "subtract"@,
        Arithmetic::Multiply => "multiply"@,
        Arithmetic::Divide => "divide"@,
        Arithmetic::Power => "power"@,
    }
}

/// The name of the instruction that asks for a comparison.
pub open spec fn comparison_name(comparison: Comparison) -> Seq<char> {
    match comparison {
        Comparison::Less => "less"@,
        Comparison::LessEqual => "less_equal"@,
        Comparison::Greater => "greater"@,
        Comparison::GreaterEqual => "greater_equal"@,
    }
}

/// How an arithmetic operation is written in source code.
pub open spec fn arithmetic_symbol(op: Arithmetic) -> Seq<char> {
    match op {
        Arithmetic::Add => "+"@,
        Arithmetic::Subtract => "-"@,
        Arithmetic::Multiply => "*"@,
        Arithmetic::Divide => "/"@,
        Arithmetic::Power => "^"@,
    }
}

/// How a comparison is written in source code.
pub open spec fn comparison_symbol(comparison: Comparison) -> Seq<char> {
    match comparison {
        Comparison::Less => "<"@,
        Comparison::LessEqual => "<="@,
        Comparison::Greater => ">"@,
        Comparison::GreaterEqual => ">="@,
    }
}

/// Whether a comparison holds of two numbers.
pub open spec fn comparison_holds(comparison: Comparison, lhs: int, rhs: int) -> bool {
    match comparison {
        Comparison::Less => lhs < rhs,
        Comparison::LessEqual => lhs <= rhs,
        Comparison::Greater => lhs > rhs,
        Comparison::GreaterEqual => lhs >= rhs,
    }
}

/// How the operation that an action asks for is written in source code, if
/// it is a binary operation.
pub open spec fn action_symbol(action: Action) -> Option<Seq<char>> {
    match action {
        Action::Arithmetic(op, _, _) => Some(arithmetic_symbol(op)),
        Action::Compare(comparison, _, _) => Some(comparison_symbol(comparison)),
        Action::Equality(true, _, _) => Some("=="@),
        Action::Equality(false, _, _) => Some("!="@),
        _ => None,
    }
}

/// The operator written with a comparison's symbol is the one that holds
/// exactly when the comparison does: `<` is less than, `<=` less than or
/// equal, `>` greater than, `>=` greater than or equal, and no two
/// comparisons are written alike.
pub proof fn lemma_comparison_symbols(comparison: Comparison, other: Comparison, lhs: int, rhs: int)
    ensures
        comparison_symbol(comparison) == "<"@ ==> (comparison_holds(comparison, lhs, rhs) <==> lhs
            < rhs),
        comparison_symbol(comparison) == "<="@ ==> (comparison_holds(comparison, lhs, rhs) <==> lhs
            <= rhs),
        comparison_symbol(comparison) == ">"@ ==> (comparison_holds(comparison, lhs, rhs) <==> lhs
            > rhs),
        comparison_symbol(comparison) == ">="@ ==> (comparison_holds(comparison, lhs, rhs) <==> lhs
            >= rhs),
        comparison_symbol(comparison) == comparison_symbol(other) ==> comparison == other,
{
    reveal_strlit("<");
    reveal_strlit("<=");
    reveal_strlit(">");
    reveal_strlit(">=");
    assert("<"@ =~= seq!['<']);
    assert("<="@ =~= seq!['<', '=']);
    assert(">"@ =~= seq!['>']);
    assert(">="@ =~= seq!['>', '=']);
    let a = comparison_symbol(comparison);
    let b = comparison_symbol(other);
    assert(a.len() != b.len() || a[0] != b[0] || comparison == other);
    match comparison {
        Comparison::Less => {
            assert(a[0] == '<' && a.len() == 1);
        },
        Comparison::LessEqual => {
            assert(a[0] == '<' && a.len() == 2);
        },
        Comparison::Greater => {
            assert(a[0] == '>' && a.len() == 1);
            assert(a != "<"@) by { assert(a[0] != "<"@[0]); }
        },
        Comparison::GreaterEqual => {
            assert(a[0] == '>' && a.len() == 2);
            assert(a != "<="@) by { assert(a[0] != "<="@[0]); }
        },
    }
    if comparison is Less {
        assert(a != ">"@) by { assert(a[0] != ">"@[0]); }
    }
    if comparison is LessEqual {
        assert(a != ">="@) by { assert(a[0] != ">="@[0]); }
    }
}

/// An action that an instruction hands back is the one the instruction is
/// named for, on the operands in the order they were pushed: the left-hand
/// side below the right-hand side on the stack. `less_equal` asks for a
/// less-or-equal comparison, `subtract` for a subtraction of the top value
/// from the one below it, `equal` for an equality test, and so on.
pub proof fn lemma_action_named_for_instruction(
    st: InterpreterView,
    globals: Map<Symbol, Value>,
    instruction: Instruction,
    after: InterpreterView,
    globals_after: Map<Symbol, Value>,
    result: Result<Action, InterpretError>,
)
    requires
        can_interpret(st, globals, instruction),
        interpreted(st, globals, instruction, after, globals_after, result),
    ensures
        result matches Ok(Action::Arithmetic(op, lhs, rhs)) ==> {
            &&& instruction_mnemonic(instruction) == arithmetic_name(op)
            &&& st.stack.len() >= 2
            &&& st.stack[st.stack.len() - 2] == Value::Number(lhs)
            &&& st.stack.last() == Value::Number(rhs)
        },
        result matches Ok(Action::Compare(comparison, lhs, rhs)) ==> {
            &&& instruction_mnemonic(instruction) == comparison_name(comparison)
            &&& st.stack.len() >= 2
            &&& st.stack[st.stack.len() - 2] == Value::Number(lhs)
            &&& st.stack.last() == Value::Number(rhs)
        },
        result matches Ok(Action::Equality(equal, lhs, rhs)) ==> {
            &&& instruction_mnemonic(instruction) == if equal {
                "equal"@
            } else {
                "not_equal"@
            }
            &&& st.stack.len() >= 2
            &&& st.stack[st.stack.len() - 2] == lhs
            &&& st.stack.last() == rhs
        },
{
    let s1 = super::popped(st);
    if st.stack.len() >= 2 {
        assert(s1.stack.last() == st.stack[st.stack.len() - 2]);
    }
}

/// Every binary operator compiles to an instruction that, run on two
/// numbers, asks for the operation written with that operator's symbol: the
/// comparison `>` for `>`, the subtraction `-` for `-`, and so on. It always
/// succeeds, but for a division by a number that is not normal.
pub proof fn lemma_binary_instruction_computes_operator(
    op: BinOp,
    st: InterpreterView,
    globals: Map<Symbol, Value>,
    instruction: Instruction,
    after: InterpreterView,
    globals_after: Map<Symbol, Value>,
    result: Result<Action, InterpretError>,
    lhs: u64,
    rhs: u64,
)
    requires
        instruction_view(instruction) == binary_instruction(op),
        st.stack.len() >= 2,
        st.stack[st.stack.len() - 2] == Value::Number(lhs),
        st.stack.last() == Value::Number(rhs),
        interpreted(st, globals, instruction, after, globals_after, result),
    ensures
        !(op is Divide && !is_normal_bits(rhs)) ==> {
            &&& result is Ok
            &&& action_symbol(result->Ok_0) == Some(binary_symbol(op))
        },
{
    let s1 = super::popped(st);
    assert(s1.stack.last() == st.stack[st.stack.len() - 2]);
    match op {
        BinOp::Add => assert(instruction is Add),
        BinOp::Subtract => assert(instruction is Subtract),
        BinOp::Multiply => assert(instruction is Multiply),
        BinOp::Divide => assert(instruction is Divide),
        BinOp::Power => assert(instruction is Power),
        BinOp::Equal => assert(instruction is Equal),
        BinOp::NotEqual => assert(instruction is NotEqual),
        BinOp::Less => assert(instruction is Less),
        BinOp::LessEqual => assert(instruction is LessEqual),
        BinOp::Greater => assert(instruction is Greater),
        BinOp::GreaterEqual => assert(instruction is GreaterEqual),
    }
}

} // verus!
