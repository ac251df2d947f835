use clac::ast::{Ast, BinOp, Expr, Literal, LogicOp};
use clac::cfg::{BasicBlock, Cfg, Instruction, Label, Terminator};
use clac::compilation::compile_ast;
use clac::compilation::lowering::errors::{ErrorKind, ExprArea};
use clac::symbols::Symbol;

fn num(value: f64) -> Expr {
    Expr::Literal(Literal::Number(value.to_bits()))
}

fn boolean(value: bool) -> Expr {
    Expr::Literal(Literal::Bool(value))
}

fn ident(id: usize) -> Expr {
    Expr::Ident(Symbol(id))
}

fn assign(target: Expr, source: Expr) -> Expr {
    Expr::Assign(Box::new(target), Box::new(source))
}

fn call(callee: Expr, args: Vec<Expr>) -> Expr {
    Expr::Call(Box::new(callee), args)
}

fn binary(op: BinOp, lhs: Expr, rhs: Expr) -> Expr {
    Expr::Binary(op, Box::new(lhs), Box::new(rhs))
}

fn compile(stmts: Vec<Expr>) -> Cfg {
    compile_ast(&Ast(stmts), &Vec::new()).expect("program should compile")
}

fn block(cfg: &Cfg, label: usize) -> &BasicBlock {
    cfg.basic_block(Label(label))
}

fn is_number(instruction: &Instruction, value: f64) -> bool {
    matches!(instruction, Instruction::PushLiteral(Literal::Number(bits)) if *bits == value.to_bits())
}

#[test]
fn new_cfg_has_one_halting_block() {
    let mut cfg = Cfg::new();
    assert_eq!(cfg.len(), 1);
    assert!(cfg.basic_block(Label(0)).instructions.is_empty());
    assert_eq!(cfg.basic_block(Label(0)).terminator, Terminator::Halt);
    assert_eq!(cfg.insert_basic_block(), Label(1));
    assert_eq!(cfg.len(), 2);
}

#[test]
fn top_level_expression_is_printed() {
    let cfg = compile(vec![binary(BinOp::Add, num(1.0), num(2.0))]);
    assert_eq!(cfg.len(), 1);
    let main = block(&cfg, 0);
    assert_eq!(main.instructions.len(), 4);
    assert!(is_number(&main.instructions[0], 1.0));
    assert!(is_number(&main.instructions[1], 2.0));
    assert!(matches!(main.instructions[2], Instruction::Add));
    assert!(matches!(main.instructions[3], Instruction::Print));
    assert_eq!(main.terminator, Terminator::Halt);
}

#[test]
fn block_value_replaces_its_locals() {
    // { x = 1; x }
    let cfg = compile(vec![Expr::Block(vec![assign(ident(0), num(1.0)), ident(0)])]);
    let main = block(&cfg, 0);
    assert_eq!(main.instructions.len(), 4);
    assert!(is_number(&main.instructions[0], 1.0));
    assert!(matches!(main.instructions[1], Instruction::PushLocal(0)));
    assert!(matches!(main.instructions[2], Instruction::StoreLocal(0)));
    assert!(matches!(main.instructions[3], Instruction::Print));
}

#[test]
fn block_statement_pops_its_locals() {
    // { x = 1; y = x; }
    let cfg = compile(vec![Expr::Block(vec![
        assign(ident(0), num(1.0)),
        assign(ident(1), ident(0)),
    ])]);
    let main = block(&cfg, 0);
    assert_eq!(main.instructions.len(), 3);
    assert!(is_number(&main.instructions[0], 1.0));
    assert!(matches!(main.instructions[1], Instruction::PushLocal(0)));
    assert!(matches!(main.instructions[2], Instruction::Pop(2)));
}

#[test]
fn global_function_is_defined_and_called() {
    // f(x) = x; f(2)
    let cfg = compile(vec![
        assign(call(ident(0), vec![ident(1)]), ident(1)),
        call(ident(0), vec![num(2.0)]),
    ]);
    assert_eq!(cfg.len(), 2);
    let main = block(&cfg, 0);
    assert_eq!(main.instructions.len(), 4);
    match &main.instructions[0] {
        Instruction::PushFunction(function) => {
            assert_eq!(function.arity, 1);
            assert_eq!(function.cfg.len(), 1);
            let body = function.cfg.basic_block(Label(0));
            assert_eq!(body.instructions.len(), 1);
            assert!(matches!(body.instructions[0], Instruction::PushLocal(0)));
            assert_eq!(body.terminator, Terminator::Return);
        },
        _ => panic!("expected a function"),
    }
    assert!(matches!(main.instructions[1], Instruction::StoreGlobal(Symbol(0))));
    assert!(matches!(main.instructions[2], Instruction::PushGlobal(Symbol(0))));
    assert!(is_number(&main.instructions[3], 2.0));
    assert_eq!(main.terminator, Terminator::Call(1, Label(1)));
    let after = block(&cfg, 1);
    assert_eq!(after.instructions.len(), 1);
    assert!(matches!(after.instructions[0], Instruction::Print));
    assert_eq!(after.terminator, Terminator::Halt);
}

#[test]
fn conditional_branches_and_joins() {
    let cfg = compile(vec![Expr::Cond(
        Box::new(boolean(true)),
        Box::new(num(1.0)),
        Box::new(num(2.0)),
    )]);
    assert_eq!(cfg.len(), 4);
    assert!(matches!(block(&cfg, 0).instructions[..], [Instruction::PushLiteral(Literal::Bool(true))]));
    assert_eq!(block(&cfg, 0).terminator, Terminator::Branch(Label(1), Label(2)));
    assert!(is_number(&block(&cfg, 1).instructions[0], 1.0));
    assert_eq!(block(&cfg, 1).terminator, Terminator::Jump(Label(3)));
    assert!(is_number(&block(&cfg, 2).instructions[0], 2.0));
    assert_eq!(block(&cfg, 2).terminator, Terminator::Jump(Label(3)));
    assert!(matches!(block(&cfg, 3).instructions[..], [Instruction::Print]));
    assert_eq!(block(&cfg, 3).terminator, Terminator::Halt);
}

#[test]
fn logical_and_checks_its_right_hand_side() {
    let cfg = compile(vec![Expr::Logic(LogicOp::And, Box::new(boolean(true)), Box::new(boolean(false)))]);
    assert_eq!(cfg.len(), 4);
    let then_block = block(&cfg, 1);
    assert!(matches!(
        then_block.instructions[..],
        [
            Instruction::PushLiteral(Literal::Bool(false)),
            Instruction::PushLiteral(Literal::Bool(true)),
            Instruction::Equal,
        ]
    ));
    assert!(matches!(block(&cfg, 2).instructions[..], [Instruction::PushLiteral(Literal::Bool(false))]));
}

#[test]
fn captured_local_becomes_an_upvar_and_a_closure() {
    // { a = 1; g() = a; g }
    let cfg = compile(vec![Expr::Block(vec![
        assign(ident(0), num(1.0)),
        assign(call(ident(1), vec![]), ident(0)),
        ident(1),
    ])]);
    let main = block(&cfg, 0);
    assert_eq!(main.instructions.len(), 8);
    assert!(is_number(&main.instructions[0], 1.0));
    assert!(matches!(main.instructions[1], Instruction::DefineUpvar));
    match &main.instructions[2] {
        Instruction::PushFunction(function) => {
            assert_eq!(function.arity, 0);
            let body = function.cfg.basic_block(Label(0));
            assert!(matches!(body.instructions[..], [Instruction::PushUpvar(0)]));
            assert_eq!(body.terminator, Terminator::Return);
        },
        _ => panic!("expected a function"),
    }
    assert!(matches!(main.instructions[3], Instruction::IntoClosure));
    assert!(matches!(main.instructions[4], Instruction::PushLocal(0)));
    assert!(matches!(main.instructions[5], Instruction::StoreLocal(0)));
    assert!(matches!(main.instructions[6], Instruction::PopUpvars(1)));
    assert!(matches!(main.instructions[7], Instruction::Print));
}

#[test]
fn upvar_parameter_is_copied_to_the_upvar_stack() {
    // f(x) = (() = x)
    let inner = Expr::Function(vec![], Box::new(ident(1)));
    let cfg = compile(vec![assign(call(ident(0), vec![ident(1)]), inner)]);
    match &block(&cfg, 0).instructions[0] {
        Instruction::PushFunction(function) => {
            let body = function.cfg.basic_block(Label(0));
            assert!(matches!(body.instructions[0], Instruction::PushLocal(0)));
            assert!(matches!(body.instructions[1], Instruction::DefineUpvar));
            assert!(matches!(body.instructions[2], Instruction::PushFunction(_)));
            assert!(matches!(body.instructions[3], Instruction::IntoClosure));
            assert!(matches!(body.instructions[4], Instruction::PopUpvars(1)));
            assert_eq!(body.instructions.len(), 5);
        },
        _ => panic!("expected a function"),
    }
}

#[test]
fn undefined_variable_is_an_error() {
    let error = compile_ast(&Ast(vec![ident(7)]), &Vec::new()).unwrap_err();
    assert_eq!(*(error.0).0, ErrorKind::UndefinedVariable(Symbol(7)));
}

#[test]
fn first_lowering_error_is_kept() {
    let error = compile_ast(&Ast(vec![ident(3), Expr::Tuple(vec![]), ident(4)]), &Vec::new())
        .unwrap_err();
    assert_eq!(*(error.0).0, ErrorKind::UndefinedVariable(Symbol(3)));
}

#[test]
fn statement_in_operand_is_an_error() {
    let error = compile_ast(
        &Ast(vec![binary(BinOp::Add, assign(ident(0), num(1.0)), num(2.0))]),
        &Vec::new(),
    )
    .unwrap_err();
    assert_eq!(*(error.0).0, ErrorKind::UsedStmt(ExprArea::Operand));
}

#[test]
fn known_globals_can_be_read() {
    let cfg = compile_ast(&Ast(vec![ident(5)]), &vec![Symbol(5)]).expect("program should compile");
    let main = block(&cfg, 0);
    assert!(matches!(main.instructions[..], [Instruction::PushGlobal(Symbol(5)), Instruction::Print]));
}

fn assert_closed(cfg: &Cfg) {
    let count = cfg.len();
    for label in 0..count {
        let block = cfg.basic_block(Label(label));
        match block.terminator {
            Terminator::Jump(target) => assert!(target.0 < count),
            Terminator::Branch(then_label, else_label) => {
                assert!(then_label.0 < count);
                assert!(else_label.0 < count);
            },
            Terminator::Call(_, return_label) => assert!(return_label.0 < count),
            Terminator::Halt | Terminator::Return => {},
        }
        for instruction in &block.instructions {
            if let Instruction::PushFunction(function) = instruction {
                assert_closed(&function.cfg);
            }
        }
    }
}

#[test]
fn every_label_names_a_block() {
    // f(n) = n < 1 ? 0 : n - 1; g() = { h(x) = x; h(f(2)) }; g() && true
    let cfg = compile(vec![
        assign(
            call(ident(0), vec![ident(1)]),
            Expr::Cond(
                Box::new(binary(BinOp::Less, ident(1), num(1.0))),
                Box::new(num(0.0)),
                Box::new(binary(BinOp::Subtract, ident(1), num(1.0))),
            ),
        ),
        assign(
            call(ident(2), vec![]),
            Expr::Block(vec![
                assign(call(ident(3), vec![ident(4)]), ident(4)),
                call(ident(3), vec![call(ident(0), vec![num(2.0)])]),
            ]),
        ),
        Expr::Logic(LogicOp::And, Box::new(call(ident(2), vec![])), Box::new(boolean(true))),
    ]);
    assert!(cfg.len() > 3);
    assert_closed(&cfg);
}

#[test]
fn operators_and_instructions_have_their_names() {
    assert_eq!(BinOp::Power.symbol(), "^");
    assert_eq!(BinOp::GreaterEqual.symbol(), ">=");
    assert_eq!(clac::ast::UnOp::Not.symbol(), "!");
    assert_eq!(LogicOp::Or.symbol(), "||");
    assert_eq!(Instruction::GreaterEqual.mnemonic(), "greater_equal");
    assert_eq!(Instruction::PopUpvars(2).mnemonic(), "pop_upvars");
    assert_eq!(Terminator::Call(1, Label(0)).mnemonic(), "call");
    assert_eq!(Terminator::Halt.mnemonic(), "halt");
}

#[test]
fn instructions_are_written_as_pseudo_assembly() {
    assert_eq!(Instruction::Pop(2).text("2"), "pop             (2)");
    assert_eq!(Instruction::PushLocal(1).text("1"), "push_local      [1]");
    assert_eq!(Instruction::StoreGlobal(Symbol(0)).text("x"), "store_global    x");
    assert_eq!(Instruction::Add.text(""), "add");
    assert_eq!(clac::cfg::pad("greater_equal", 16), "greater_equal   ");
    assert_eq!(clac::cfg::pad("abc", 2), "abc");
}

#[test]
fn variables_are_declared_in_any_scope_state() {
    use_scope_stack();
}

fn use_scope_stack() {
    let mut scopes = clac::lower::scopes::ScopeStack::new(clac::locals::LocalTable::new());
    scopes.push_block_scope();
    scopes.push_function_scope();
    scopes.pop_block_scope();
    // The function's own scope is closed, but the function depth stays.
    let declared = scopes.declare_variable(Symbol(7));
    let local = match declared {
        Some(clac::lower::scopes::Variable::Local(local)) => local,
        _ => panic!("expected a local"),
    };
    assert!(scopes.declare_variable(Symbol(7)).is_none());
    assert_eq!(scopes.variable(Symbol(7)), Some(clac::lower::scopes::Variable::Local(local)));
    assert_eq!(scopes.function_depth(), 1);
    scopes.pop_function_scope();
    assert!(scopes.is_global_scope());
    assert_eq!(scopes.declare_variable(Symbol(7)), Some(clac::lower::scopes::Variable::Global));
    let locals = scopes.into_locals();
    assert_eq!(locals.data(local).function_depth, 1);
}
