# clac

A small calculator language: a lexer, a lowering pass that resolves names
and scopes, compilers to a control flow graph of stack-machine instructions,
and the interpreter that runs it. The library under `src/` is written in
Verus; every function there carries a contract that Verus proves, but for
one trusted wrapper: `interpret::value::share`, whose body is `Rc::clone` and
whose contract (the copy equals the original) Verus takes on trust.

## Layout

- `src/lex`, `src/lexer`, `src/calc_lexer.rs`: lexers and their scanners.
- `src/symbols.rs`, `src/locals.rs`, `src/decl_table.rs`: interned names and
  the tables of declared locals.
- `src/lower`, `src/compilation/lowering`: name and scope resolution from the
  syntax tree, with an exact specification of the result and of the first
  error reported.
- `src/compilation/codegen`, `src/compiler`: code generation from the lowered
  program and from HIR to a `Cfg`, each specified step by step, with laws on
  what each construct does to the stacks.
- `src/compilation/compilable.rs`: every program that lowers without an error
  compiles.
- `src/cfg`: the control flow graph.
- `src/interpret`: the interpreter's state machine. Arithmetic on numbers,
  equality of values and output are handed back as actions.
- `app/`: the driving loop that performs those actions, printing, and error
  messages.
- `tests/`: scenarios run against the compiled library.
