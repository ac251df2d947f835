use std::rc::Rc;

use clac::ast::{Ast, BinOp, Expr, Literal, UnOp};
use clac::cfg::{Function, Instruction, Label};
use clac::compilation::compile_ast;
use clac::interpret::control::{Control, Step};
use clac::interpret::globals::Globals;
use clac::interpret::native::{install_natives, Native};
use clac::interpret::value::Value;
use clac::interpret::{Action, Arithmetic, Comparison, ErrorKind, Flow, InterpretError, Interpreter};
use clac::symbols::{Symbol, Symbols};
use clac::hir::{Expr as H, Stmt};

fn num(value: f64) -> Expr {
    Expr::Literal(Literal::Number(value.to_bits()))
}

fn boolean(value: bool) -> Expr {
    Expr::Literal(Literal::Bool(value))
}

fn ident(id: usize) -> Expr {
    Expr::Ident(Symbol(id))
}

fn assign(target: Expr, source: Expr) -> Expr {
    Expr::Assign(Box::new(target), Box::new(source))
}

fn call(callee: Expr, args: Vec<Expr>) -> Expr {
    Expr::Call(Box::new(callee), args)
}

fn binary(op: BinOp, lhs: Expr, rhs: Expr) -> Expr {
    Expr::Binary(op, Box::new(lhs), Box::new(rhs))
}

fn show(value: &Value) -> String {
    match value {
        Value::Number(bits) => f64::from_bits(*bits).to_string(),
        Value::Bool(value) => value.to_string(),
        _ => "function".to_string(),
    }
}

fn equal(lhs: &Value, rhs: &Value) -> bool {
    match (lhs, rhs) {
        (Value::Number(l), Value::Number(r)) => f64::from_bits(*l) == f64::from_bits(*r),
        (Value::Bool(l), Value::Bool(r)) => l == r,
        (Value::Function(l), Value::Function(r)) => Rc::ptr_eq(l, r),
        (Value::Native(l), Value::Native(r)) => l == r,
        _ => false,
    }
}

fn perform(interpreter: &mut Interpreter, action: Action, output: &mut Vec<String>) -> Result<(), InterpretError> {
    match action {
        Action::Done => {},
        Action::Print(value) => output.push(show(&value)),
        Action::Negate(bits) => interpreter.push(Value::Number((-f64::from_bits(bits)).to_bits())),
        Action::Arithmetic(op, lhs, rhs) => {
            let (lhs, rhs) = (f64::from_bits(lhs), f64::from_bits(rhs));
            let result = match op {
                Arithmetic::Add => lhs + rhs,
                Arithmetic::Subtract => lhs - rhs,
                Arithmetic::Multiply => lhs * rhs,
                Arithmetic::Divide => lhs / rhs,
                Arithmetic::Power => lhs.powf(rhs),
            };
            interpreter.push(Value::Number(result.to_bits()));
        },
        Action::Compare(op, lhs, rhs) => {
            let (lhs, rhs) = (f64::from_bits(lhs), f64::from_bits(rhs));
            let result = match op {
                Comparison::Less => lhs < rhs,
                Comparison::LessEqual => lhs <= rhs,
                Comparison::Greater => lhs > rhs,
                Comparison::GreaterEqual => lhs >= rhs,
            };
            interpreter.push(Value::Bool(result));
        },
        Action::Equality(is_equal, lhs, rhs) => interpreter.push(Value::Bool(equal(&lhs, &rhs) == is_equal)),
    }
    Ok(())
}

fn run_cfg(cfg: &clac::cfg::Cfg, globals: &mut Globals, output: &mut Vec<String>) -> Result<(), InterpretError> {
    run_cfg_as(cfg, globals, output, false)
}

fn run_cfg_as(
    cfg: &clac::cfg::Cfg,
    globals: &mut Globals,
    output: &mut Vec<String>,
    frames_above_callee: bool,
) -> Result<(), InterpretError> {
    let mut interpreter = Interpreter::new();
    let mut control = Control::new();
    loop {
        assert!(control.can_run(cfg));
        let block = control.basic_block(cfg);
        for instruction in &block.instructions {
            assert!(interpreter.can_interpret_instruction(instruction, globals));
            let action = interpreter.interpret_instruction(instruction, globals)?;
            perform(&mut interpreter, action, output)?;
        }
        let flow = if frames_above_callee {
            assert!(interpreter.can_interpret_exit(&block.terminator));
            interpreter.interpret_exit(&block.terminator)?
        } else {
            assert!(interpreter.can_interpret_terminator(&block.terminator));
            interpreter.interpret_terminator(&block.terminator)?
        };
        if let Flow::Return(_) = flow {
            assert!(control.depth() > 0);
        }
        match control.follow(flow) {
            Step::Halt => return Ok(()),
            Step::Continue => {},
            Step::CallNative(native, args) => {
                native.check_args(&args)?;
                let result = match (native, &args[0]) {
                    (Native::Sqrt, Value::Number(bits)) => Value::Number(f64::from_bits(*bits).sqrt().to_bits()),
                    (_, value) => value.copy(),
                };
                interpreter.finish_native_call(args.len(), result);
            },
        }
    }
}

fn run_with(stmts: Vec<Expr>, globals: &mut Globals) -> (Vec<String>, Result<(), InterpretError>) {
    let cfg = compile_ast(&Ast(stmts), &globals.symbols()).expect("program should compile");
    let mut output = Vec::new();
    let result = run_cfg(&cfg, globals, &mut output);
    (output, result)
}

fn run(stmts: Vec<Expr>) -> (Vec<String>, Result<(), InterpretError>) {
    run_with(stmts, &mut Globals::new())
}

#[test]
fn arithmetic_is_evaluated_in_order() {
    let (output, result) = run(vec![binary(BinOp::Add, num(1.0), binary(BinOp::Multiply, num(2.0), num(3.0)))]);
    assert_eq!(result, Ok(()));
    assert_eq!(output, vec!["7"]);
}

#[test]
fn subtraction_and_power_take_the_left_operand_first() {
    let (output, _) = run(vec![
        binary(BinOp::Subtract, num(10.0), num(4.0)),
        binary(BinOp::Power, num(2.0), num(3.0)),
        Expr::Unary(UnOp::Negate, Box::new(num(2.5))),
    ]);
    assert_eq!(output, vec!["6", "8", "-2.5"]);
}

#[test]
fn comparisons_and_negation() {
    let (output, result) = run(vec![
        Expr::Unary(UnOp::Not, Box::new(binary(BinOp::Less, num(1.0), num(2.0)))),
        binary(BinOp::GreaterEqual, num(2.0), num(2.0)),
        binary(BinOp::Equal, boolean(true), boolean(true)),
        binary(BinOp::NotEqual, num(1.0), num(1.0)),
    ]);
    assert_eq!(result, Ok(()));
    assert_eq!(output, vec!["false", "true", "true", "false"]);
}

#[test]
fn adding_a_boolean_is_a_type_error() {
    let (output, result) = run(vec![binary(BinOp::Add, num(1.0), boolean(true))]);
    assert!(output.is_empty());
    assert_eq!(result, Err(InterpretError(ErrorKind::InvalidType)));
}

#[test]
fn comparing_values_of_different_types_is_a_type_error() {
    let (_, result) = run(vec![binary(BinOp::Equal, num(1.0), boolean(true))]);
    assert_eq!(result, Err(InterpretError(ErrorKind::InvalidType)));
}

#[test]
fn dividing_by_zero_is_an_error() {
    let (_, result) = run(vec![binary(BinOp::Divide, num(1.0), num(0.0))]);
    assert_eq!(result, Err(InterpretError(ErrorKind::DivideByZero)));
}

#[test]
fn globals_are_assigned_and_read() {
    let mut globals = Globals::new();
    let (output, result) = run_with(
        vec![assign(ident(0), num(2.0)), binary(BinOp::Multiply, ident(0), ident(0))],
        &mut globals,
    );
    assert_eq!(result, Ok(()));
    assert_eq!(output, vec!["4"]);
    assert!(globals.is_defined(Symbol(0)));
    assert_eq!(show(globals.read(Symbol(0))), "2");
    let (output, _) = run_with(vec![ident(0)], &mut globals);
    assert_eq!(output, vec!["2"]);
}

#[test]
fn block_value_is_kept_after_its_locals() {
    let (output, result) = run(vec![Expr::Block(vec![assign(ident(0), num(3.0)), ident(0)])]);
    assert_eq!(result, Ok(()));
    assert_eq!(output, vec!["3"]);
}

#[test]
fn conditional_takes_one_branch() {
    let (output, _) = run(vec![
        Expr::Cond(Box::new(boolean(true)), Box::new(num(1.0)), Box::new(num(2.0))),
        Expr::Cond(Box::new(boolean(false)), Box::new(num(1.0)), Box::new(num(2.0))),
    ]);
    assert_eq!(output, vec!["1", "2"]);
}

#[test]
fn branching_on_a_number_is_a_type_error() {
    let (_, result) = run(vec![Expr::Cond(Box::new(num(1.0)), Box::new(num(1.0)), Box::new(num(2.0)))]);
    assert_eq!(result, Err(InterpretError(ErrorKind::InvalidType)));
}

#[test]
fn function_call_returns_its_value() {
    let (output, result) = run(vec![assign(call(ident(0), vec![]), num(5.0)), call(ident(0), vec![])]);
    assert_eq!(result, Ok(()));
    assert_eq!(output, vec!["5"]);
}

#[test]
fn closure_reads_its_captured_upvar() {
    let (output, result) = run(vec![Expr::Block(vec![
        assign(ident(0), num(1.0)),
        assign(call(ident(1), vec![]), ident(0)),
        call(ident(1), vec![]),
    ])]);
    assert_eq!(result, Ok(()));
    assert_eq!(output, vec!["1"]);
}

#[test]
fn calling_a_number_is_an_error() {
    let (_, result) = run(vec![assign(ident(0), num(1.0)), call(ident(0), vec![])]);
    assert_eq!(result, Err(InterpretError(ErrorKind::CalledNonFunction)));
}

#[test]
fn calling_with_the_wrong_arity_is_an_error() {
    let (_, result) = run(vec![assign(call(ident(0), vec![]), num(5.0)), call(ident(0), vec![num(1.0)])]);
    assert_eq!(result, Err(InterpretError(ErrorKind::IncorrectCallArity)));
}

#[test]
fn natives_are_installed_under_their_names() {
    let mut globals = Globals::new();
    let mut symbols = Symbols::new();
    install_natives(&mut globals, &mut symbols);
    let sqrt = symbols.intern("sqrt");
    let dump = symbols.intern("__dump");
    assert!(matches!(globals.read(sqrt), Value::Native(Native::Sqrt)));
    assert!(matches!(globals.read(dump), Value::Native(Native::Dump)));
    assert_eq!(globals.symbols().len(), 2);
    let (output, result) = run_with(vec![call(Expr::Ident(sqrt), vec![num(16.0)])], &mut globals);
    assert_eq!(result, Ok(()));
    assert_eq!(output, vec!["4"]);
    let (_, result) = run_with(vec![call(Expr::Ident(sqrt), vec![boolean(true)])], &mut globals);
    assert_eq!(result, Err(InterpretError(ErrorKind::InvalidType)));
    let (_, result) = run_with(vec![call(Expr::Ident(sqrt), vec![])], &mut globals);
    assert_eq!(result, Err(InterpretError(ErrorKind::IncorrectCallArity)));
}

#[test]
fn globals_keep_one_entry_per_symbol() {
    let mut globals = Globals::new();
    globals.assign(Symbol(3), Value::Bool(true));
    globals.assign(Symbol(4), Value::Bool(false));
    globals.assign(Symbol(3), Value::Bool(false));
    assert_eq!(globals.symbols(), vec![Symbol(3), Symbol(4)]);
    assert!(matches!(globals.read(Symbol(3)), Value::Bool(false)));
    assert!(!globals.is_defined(Symbol(5)));
}

#[test]
fn instructions_move_values_between_stacks() {
    let mut interpreter = Interpreter::new();
    let mut globals = Globals::new();
    let push = |interpreter: &mut Interpreter, globals: &mut Globals, instruction: Instruction| {
        assert!(interpreter.can_interpret_instruction(&instruction, globals));
        assert!(matches!(interpreter.interpret_instruction(&instruction, globals), Ok(Action::Done)));
    };
    push(&mut interpreter, &mut globals, Instruction::PushLiteral(Literal::Number(7.0f64.to_bits())));
    push(&mut interpreter, &mut globals, Instruction::DefineUpvar);
    push(&mut interpreter, &mut globals, Instruction::PushUpvar(0));
    push(&mut interpreter, &mut globals, Instruction::PushLocal(0));
    assert!(!interpreter.can_interpret_instruction(&Instruction::PushLocal(2), &globals));
    push(&mut interpreter, &mut globals, Instruction::Pop(1));
    push(&mut interpreter, &mut globals, Instruction::StoreGlobal(Symbol(1)));
    assert_eq!(show(globals.read(Symbol(1))), "7");
    push(&mut interpreter, &mut globals, Instruction::PopUpvars(1));
    assert!(!interpreter.can_interpret_instruction(&Instruction::PushUpvar(0), &globals));
    assert!(!interpreter.can_interpret_instruction(&Instruction::Print, &globals));
    assert!(!interpreter.can_interpret_instruction(&Instruction::PushGlobal(Symbol(2)), &globals));
}

fn hir_num(value: f64) -> clac::hir::Expr {
    clac::hir::Expr::Literal(Literal::Number(value.to_bits()))
}

fn run_hir(
    stmts: Vec<clac::hir::Stmt>,
    decls: &clac::decl_table::DeclTable,
    globals: &mut Globals,
) -> (Vec<String>, Result<(), InterpretError>) {
    let cfg = clac::compiler::compile_hir(&clac::hir::Hir(stmts), decls);
    let mut output = Vec::new();
    let result = run_cfg_as(&cfg, globals, &mut output, true);
    (output, result)
}

#[test]
fn compiled_hir_call_reads_parameters_from_its_frame() {
    let mut decls = clac::decl_table::DeclTable::new();
    let p = decls.declare(1);
    let q = decls.declare(1);
    let subtract = H::Function(
        vec![p, q],
        Box::new(H::Binary(BinOp::Subtract, Box::new(H::Local(p)), Box::new(H::Local(q)))),
    );
    let stmts = vec![Stmt::Print(Box::new(H::Call(
        Box::new(subtract),
        vec![hir_num(10.0), hir_num(3.0)],
    )))];
    let (output, result) = run_hir(stmts, &decls, &mut Globals::new());
    assert_eq!(result, Ok(()));
    assert_eq!(output, vec!["7"]);
}

#[test]
fn compiled_hir_closure_reads_its_upvalue() {
    let mut decls = clac::decl_table::DeclTable::new();
    let x = decls.declare(0);
    decls.get_mut(x).is_upvalue = true;
    let stmts = vec![Stmt::Block(vec![
        Stmt::DefineLocal(x, Box::new(hir_num(2.0))),
        Stmt::Print(Box::new(H::Call(
            Box::new(H::Function(vec![], Box::new(H::Local(x)))),
            vec![],
        ))),
    ])];
    let (output, result) = run_hir(stmts, &decls, &mut Globals::new());
    assert_eq!(result, Ok(()));
    assert_eq!(output, vec!["2"]);
}

#[test]
fn compiled_hir_call_with_wrong_arity_fails() {
    let mut decls = clac::decl_table::DeclTable::new();
    let p = decls.declare(1);
    let stmts = vec![Stmt::Expr(Box::new(H::Call(
        Box::new(H::Function(vec![p], Box::new(H::Local(p)))),
        vec![],
    )))];
    let (_, result) = run_hir(stmts, &decls, &mut Globals::new());
    assert_eq!(result, Err(InterpretError(ErrorKind::IncorrectCallArity)));
}

#[test]
fn compiled_hir_calls_natives_and_rejects_non_functions() {
    let mut globals = Globals::new();
    let mut symbols = Symbols::new();
    install_natives(&mut globals, &mut symbols);
    let sqrt = symbols.intern("sqrt");
    let decls = clac::decl_table::DeclTable::new();
    let stmts = vec![Stmt::Print(Box::new(H::Call(Box::new(H::Global(sqrt)), vec![hir_num(16.0)])))];
    let (output, result) = run_hir(stmts, &decls, &mut globals);
    assert_eq!(result, Ok(()));
    assert_eq!(output, vec!["4"]);
    let stmts = vec![Stmt::Expr(Box::new(H::Call(Box::new(hir_num(1.0)), vec![])))];
    let (_, result) = run_hir(stmts, &decls, &mut globals);
    assert_eq!(result, Err(InterpretError(ErrorKind::CalledNonFunction)));
}

#[test]
fn compiled_hir_conditional_takes_the_chosen_branch() {
    let decls = clac::decl_table::DeclTable::new();
    let stmts = vec![
        Stmt::Print(Box::new(H::Cond(
            Box::new(H::Literal(Literal::Bool(false))),
            Box::new(hir_num(1.0)),
            Box::new(hir_num(2.0)),
        ))),
        Stmt::Print(Box::new(H::Unary(UnOp::Not, Box::new(H::Literal(Literal::Bool(false)))))),
    ];
    let (output, result) = run_hir(stmts, &decls, &mut Globals::new());
    assert_eq!(result, Ok(()));
    assert_eq!(output, vec!["2", "true"]);
}

#[test]
fn exit_returns_replace_the_callee_with_the_result() {
    let mut interpreter = Interpreter::new();
    let body = clac::cfg::Cfg::new();
    let function = Rc::new(Function { cfg: body, arity: 1 });
    interpreter.push(Value::Function(function));
    interpreter.push(Value::Number(5.0f64.to_bits()));
    assert!(interpreter.can_interpret_exit(&clac::cfg::Terminator::Call(1, Label(3))));
    assert!(matches!(interpreter.interpret_exit(&clac::cfg::Terminator::Call(1, Label(3))), Ok(Flow::Call(_))));
    let mut globals = Globals::new();
    let action = interpreter.interpret_instruction(&Instruction::PushLocal(0), &mut globals);
    assert!(matches!(action, Ok(Action::Done)));
    assert!(interpreter.can_interpret_exit(&clac::cfg::Terminator::Return));
    assert!(matches!(interpreter.interpret_exit(&clac::cfg::Terminator::Return), Ok(Flow::Return(Label(3)))));
    assert!(!interpreter.can_interpret_exit(&clac::cfg::Terminator::Return));
    let mut output = Vec::new();
    let action = interpreter.interpret_instruction(&Instruction::Print, &mut globals).unwrap();
    perform(&mut interpreter, action, &mut output).unwrap();
    assert_eq!(output, vec!["5"]);
}

#[test]
fn control_follows_calls_jumps_and_returns() {
    let program = clac::cfg::Cfg::new();
    let mut control = Control::new();
    assert_eq!(control.depth(), 0);
    assert!(control.can_run(&program));
    assert!(matches!(control.follow(Flow::Jump(Label(4))), Step::Continue));
    assert!(!control.can_run(&program));
    let mut body = clac::cfg::Cfg::new();
    body.insert_basic_block();
    let function = Rc::new(Function { cfg: body, arity: 0 });
    assert!(matches!(control.follow(Flow::Call(function)), Step::Continue));
    assert_eq!(control.depth(), 1);
    assert!(control.can_run(&program));
    assert!(matches!(control.follow(Flow::Jump(Label(1))), Step::Continue));
    assert!(control.can_run(&program));
    assert!(matches!(control.follow(Flow::Jump(Label(2))), Step::Continue));
    assert!(!control.can_run(&program));
    assert!(matches!(control.follow(Flow::Return(Label(0))), Step::Continue));
    assert_eq!(control.depth(), 0);
    assert!(control.can_run(&program));
    assert_eq!(control.basic_block(&program).terminator, clac::cfg::Terminator::Halt);
    match control.follow(Flow::CallNative(Native::Sqrt, vec![Value::Number(4.0f64.to_bits())], Label(0))) {
        Step::CallNative(native, args) => {
            assert!(native == Native::Sqrt);
            assert_eq!(args.len(), 1);
        },
        _ => panic!("expected a native call"),
    }
    assert!(matches!(control.follow(Flow::Halt), Step::Halt));
}

#[test]
fn dump_returns_its_function_argument() {
    let function = Value::Function(Rc::new(Function { cfg: clac::cfg::Cfg::new(), arity: 0 }));
    let result = clac::interpret::native::dump_result(&vec![function]);
    assert!(matches!(result, Ok(Value::Function(_))));
    let result = clac::interpret::native::dump_result(&vec![Value::Number(1.0f64.to_bits())]);
    assert!(matches!(result, Err(InterpretError(ErrorKind::InvalidType))));
    let result = clac::interpret::native::dump_result(&vec![]);
    assert!(matches!(result, Err(InterpretError(ErrorKind::IncorrectCallArity))));
}

#[test]
fn dividing_by_a_number_that_is_not_normal_fails() {
    let (_, result) = run(vec![binary(BinOp::Divide, num(1.0), num(f64::MIN_POSITIVE / 2.0))]);
    assert_eq!(result, Err(InterpretError(ErrorKind::DivideByZero)));
    let (_, result) = run(vec![binary(BinOp::Divide, num(1.0), num(f64::INFINITY))]);
    assert_eq!(result, Err(InterpretError(ErrorKind::DivideByZero)));
    let (output, result) = run(vec![binary(BinOp::Divide, num(1.0), num(4.0))]);
    assert_eq!(result, Ok(()));
    assert_eq!(output, vec!["0.25"]);
    assert!(clac::interpret::is_normal_number(1.0f64.to_bits()));
    assert!(!clac::interpret::is_normal_number(0.0f64.to_bits()));
    assert!(!clac::interpret::is_normal_number(f64::NAN.to_bits()));
}
