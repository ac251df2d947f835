use clac::ast::{BinOp, Literal};
use clac::cfg::{Cfg, Instruction, Label, Terminator};
use clac::compiler::compile_hir;
use clac::decl_table::DeclTable;
use clac::hir::{Expr, Hir, Stmt};

fn number(value: f64) -> Box<Expr> {
    Box::new(Expr::Literal(Literal::Number(value.to_bits())))
}

fn is_number(instruction: &Instruction, value: f64) -> bool {
    matches!(instruction, Instruction::PushLiteral(Literal::Number(bits)) if *bits == value.to_bits())
}

fn instructions(cfg: &Cfg, label: usize) -> &Vec<Instruction> {
    &cfg.basic_block(Label(label)).instructions
}

fn terminator(cfg: &Cfg, label: usize) -> Terminator {
    cfg.basic_block(Label(label)).terminator
}

#[test]
fn empty_hir_compiles_to_a_halting_block() {
    let cfg = compile_hir(&Hir(vec![]), &DeclTable::new());
    assert_eq!(cfg.len(), 1);
    assert!(instructions(&cfg, 0).is_empty());
    assert_eq!(terminator(&cfg, 0), Terminator::Halt);
}

#[test]
fn print_of_a_sum_compiles_in_postfix_order() {
    let hir = Hir(vec![Stmt::Print(Box::new(Expr::Binary(
        BinOp::Add,
        number(1.0),
        number(2.0),
    )))]);
    let cfg = compile_hir(&hir, &DeclTable::new());
    assert_eq!(cfg.len(), 1);
    let code = instructions(&cfg, 0);
    assert_eq!(code.len(), 4);
    assert!(is_number(&code[0], 1.0));
    assert!(is_number(&code[1], 2.0));
    assert!(matches!(code[2], Instruction::Add));
    assert!(matches!(code[3], Instruction::Print));
    assert_eq!(terminator(&cfg, 0), Terminator::Halt);
}

#[test]
fn expression_statement_pops_its_value() {
    let hir = Hir(vec![Stmt::Expr(number(3.0))]);
    let cfg = compile_hir(&hir, &DeclTable::new());
    let code = instructions(&cfg, 0);
    assert_eq!(code.len(), 2);
    assert!(is_number(&code[0], 3.0));
    assert!(matches!(code[1], Instruction::Pop(1)));
}

#[test]
fn conditional_splits_into_branches_that_join() {
    let hir = Hir(vec![Stmt::Print(Box::new(Expr::Cond(
        Box::new(Expr::Literal(Literal::Bool(true))),
        number(1.0),
        number(2.0),
    )))]);
    let cfg = compile_hir(&hir, &DeclTable::new());
    assert_eq!(cfg.len(), 4);
    let entry = instructions(&cfg, 0);
    assert_eq!(entry.len(), 1);
    assert!(matches!(entry[0], Instruction::PushLiteral(Literal::Bool(true))));
    assert_eq!(terminator(&cfg, 0), Terminator::Branch(Label(2), Label(3)));
    let join = instructions(&cfg, 1);
    assert_eq!(join.len(), 1);
    assert!(matches!(join[0], Instruction::Print));
    assert_eq!(terminator(&cfg, 1), Terminator::Halt);
    assert!(is_number(&instructions(&cfg, 2)[0], 1.0));
    assert_eq!(terminator(&cfg, 2), Terminator::Jump(Label(1)));
    assert!(is_number(&instructions(&cfg, 3)[0], 2.0));
    assert_eq!(terminator(&cfg, 3), Terminator::Jump(Label(1)));
}

#[test]
fn local_in_block_is_read_by_offset_and_dropped() {
    let mut decls = DeclTable::new();
    let x = decls.declare(0);
    let hir = Hir(vec![Stmt::Block(vec![
        Stmt::DefineLocal(x, number(5.0)),
        Stmt::Print(Box::new(Expr::Local(x))),
    ])]);
    let cfg = compile_hir(&hir, &decls);
    let code = instructions(&cfg, 0);
    assert_eq!(code.len(), 4);
    assert!(is_number(&code[0], 5.0));
    assert!(matches!(code[1], Instruction::PushLocal(0)));
    assert!(matches!(code[2], Instruction::Print));
    assert!(matches!(code[3], Instruction::Pop(1)));
}

#[test]
fn upvalue_in_block_is_defined_and_popped() {
    let mut decls = DeclTable::new();
    let x = decls.declare(0);
    decls.get_mut(x).is_upvalue = true;
    let hir = Hir(vec![Stmt::Block(vec![
        Stmt::DefineLocal(x, number(5.0)),
        Stmt::Print(Box::new(Expr::Local(x))),
    ])]);
    let cfg = compile_hir(&hir, &decls);
    let code = instructions(&cfg, 0);
    assert_eq!(code.len(), 5);
    assert!(is_number(&code[0], 5.0));
    assert!(matches!(code[1], Instruction::DefineUpvar));
    assert!(matches!(code[2], Instruction::PushUpvar(0)));
    assert!(matches!(code[3], Instruction::Print));
    assert!(matches!(code[4], Instruction::PopUpvars(1)));
}

#[test]
fn global_assignment_stores_the_value() {
    let hir = Hir(vec![Stmt::AssignGlobal(clac::symbols::Symbol(0), number(4.0))]);
    let cfg = compile_hir(&hir, &DeclTable::new());
    let code = instructions(&cfg, 0);
    assert_eq!(code.len(), 2);
    assert!(is_number(&code[0], 4.0));
    assert!(matches!(code[1], Instruction::StoreGlobal(_)));
}

#[test]
fn call_of_identity_function_returns_to_a_split_block() {
    let mut decls = DeclTable::new();
    let p = decls.declare(1);
    let hir = Hir(vec![Stmt::Print(Box::new(Expr::Call(
        Box::new(Expr::Function(vec![p], Box::new(Expr::Local(p)))),
        vec![Expr::Literal(Literal::Number(7.0f64.to_bits()))],
    )))]);
    let cfg = compile_hir(&hir, &decls);
    assert_eq!(cfg.len(), 2);
    let entry = instructions(&cfg, 0);
    assert_eq!(entry.len(), 2);
    match &entry[0] {
        Instruction::PushFunction(function) => {
            assert_eq!(function.arity, 1);
            assert_eq!(function.cfg.len(), 1);
            let body = &function.cfg.basic_block(Label(0)).instructions;
            assert_eq!(body.len(), 1);
            assert!(matches!(body[0], Instruction::PushLocal(0)));
            assert_eq!(function.cfg.basic_block(Label(0)).terminator, Terminator::Return);
        }
        _ => panic!("expected a function"),
    }
    assert!(is_number(&entry[1], 7.0));
    assert_eq!(terminator(&cfg, 0), Terminator::Call(1, Label(1)));
    let rest = instructions(&cfg, 1);
    assert_eq!(rest.len(), 1);
    assert!(matches!(rest[0], Instruction::Print));
    assert_eq!(terminator(&cfg, 1), Terminator::Halt);
}

fn assert_closed(cfg: &Cfg) {
    let count = cfg.len();
    for label in 0..count {
        let block = cfg.basic_block(Label(label));
        match block.terminator {
            Terminator::Jump(target) => assert!(target.0 < count),
            Terminator::Branch(then_label, else_label) => {
                assert!(then_label.0 < count);
                assert!(else_label.0 < count);
            },
            Terminator::Call(_, return_label) => assert!(return_label.0 < count),
            Terminator::Halt | Terminator::Return => {},
        }
        for instruction in &block.instructions {
            if let Instruction::PushFunction(function) = instruction {
                assert_closed(&function.cfg);
            }
        }
    }
}

#[test]
fn every_label_of_compiled_hir_names_a_block() {
    let mut decls = DeclTable::new();
    let p = decls.declare(1);
    let body = Expr::Cond(
        Box::new(Expr::Local(p)),
        Box::new(Expr::Call(Box::new(Expr::Global(clac::symbols::Symbol(0))), vec![])),
        number(1.0),
    );
    let hir = Hir(vec![Stmt::Print(Box::new(Expr::Call(
        Box::new(Expr::Function(vec![p], Box::new(body))),
        vec![Expr::Literal(Literal::Bool(true))],
    )))]);
    let cfg = compile_hir(&hir, &decls);
    assert_eq!(cfg.len(), 2);
    assert_closed(&cfg);
}
