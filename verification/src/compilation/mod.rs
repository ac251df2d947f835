pub mod codegen;
pub mod compilable;
pub mod ir;
pub mod lowering;

use vstd::prelude::*;

use crate::ast::{Ast, Expr};
use crate::cfg::Cfg;
use crate::locals::LocalTable;
use crate::symbols::Symbol;

use self::codegen::semantics::gen_program;
use self::compilable::lemma_lowered_program_compiles;
use self::ir::StmtView;
use self::lowering::semantics::{initial_scopes, lower_seq, seq_nesting, LowerState};
use self::lowering::{symbols_distinct, LoweringError};

verus! {

/// An error caught while compiling an [`Ast`] to a [`Cfg`].
#[derive(Debug)]
pub struct CompilationError(pub LoweringError);

/// The state after lowering a program with the symbols of the defined global
/// variables and a new table of locals, and the lowered statements.
pub open spec fn lowered(ast: Seq<Expr>, global_symbols: Seq<Symbol>) -> (LowerState, Seq<StmtView>) {
    lower_seq(
        LowerState { scopes: initial_scopes(Seq::empty(), global_symbols), error: None },
        ast,
    )
}

/// Compiles an [`Ast`] to a [`Cfg`] with the symbols of the defined global
/// variables. This function returns a [`CompilationError`] (the first error
/// found while lowering) if the [`Ast`] could not be lowered; every program
/// that lowers compiles.
pub fn compile_ast(ast: &Ast, global_symbols: &Vec<Symbol>) -> (res: Result<Cfg, CompilationError>)
    requires
        symbols_distinct(global_symbols@),
        seq_nesting(ast.0@) < usize::MAX,
    ensures
        ({
            let (st, stmts) = lowered(ast.0@, global_symbols@);
            match res {
                Ok(cfg) => {
                    &&& st.error is None
                    &&& cfg@ == gen_program(st.scopes.locals, stmts).function.blocks
                    &&& crate::cfg::graph_closed(cfg@)
                },
                Err(error) => st.error == Some(*(error.0).0),
            }
        }),
{
    let mut locals = LocalTable::new();
    let ir = match lowering::lower_ast(ast, global_symbols, &mut locals) {
        Ok(ir) => ir,
        Err(error) => return Err(CompilationError(error)),
    };
    proof {
        locals.lemma_len_bound();
        lemma_lowered_program_compiles(Seq::empty(), global_symbols@, ast.0@);
    }
    Ok(codegen::compile_ir(&ir, &locals))
}

} // verus!
