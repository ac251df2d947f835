use vstd::prelude::*;

use crate::symbols::{lemma_symbol_of, symbol_of, Symbol, Symbols};

use super::globals::Globals;
use super::value::{type_of, Value, ValueType};
use super::{ErrorKind, InterpretError};

verus! {

/// A native function.
#[derive(Clone, Copy, Debug, PartialEq, Eq, Structural)]
pub enum Native {
    /// Prints `f`'s control flow graph as pseudo-assembly and returns `f`.
    ///
    /// Signature: `__dump(f: function) -> function`
    Dump,
    /// Returns the square root of `n`.
    ///
    /// Signature: `sqrt(n: number) -> number`
    Sqrt,
}

/// The type of argument that a native function takes.
pub open spec fn param_type(native: Native) -> ValueType {
    match native {
        Native::Dump => ValueType::Function,
        Native::Sqrt => ValueType::Number,
    }
}

/// The error of calling a native function with arguments, if any: each
/// takes one argument of its type.
pub open spec fn call_error(native: Native, args: Seq<Value>) -> Option<ErrorKind> {
    if args.len() != 1 {
        Some(ErrorKind::IncorrectCallArity)
    } else if type_of(args[0]) != param_type(native) {
        Some(ErrorKind::InvalidType)
    } else {
        None
    }
}

/// The name of a native function.
pub open spec fn native_name(native: Native) -> Seq<char> {
    match native {
        Native::Dump => "__dump"@,
        Native::Sqrt => "sqrt"@,
    }
}

impl Native {
    /// Returns the `Native`'s name.
    pub fn name(self) -> (name: &'static str)
        ensures
            name@ == native_name(self),
    {
        match self {
            Native::Dump => "__dump",
            Native::Sqrt => "sqrt",
        }
    }

    /// Checks the arguments of a call of the `Native`: one argument, of the
    /// type that the function takes.
    pub fn check_args(self, args: &Vec<Value>) -> (checked: Result<(), InterpretError>)
        ensures
            match call_error(self, args@) {
                None => checked is Ok,
                Some(kind) => checked == Err::<(), InterpretError>(InterpretError(kind)),
            },
    {
        if args.len() != 1 {
            return Err(InterpretError(ErrorKind::IncorrectCallArity));
        }
        let expected = match self {
            Native::Dump => ValueType::Function,
            Native::Sqrt => ValueType::Number,
        };
        if args[0].value_type() != expected {
            return Err(InterpretError(ErrorKind::InvalidType));
        }
        Ok(())
    }
}

/// Returns what a call of [`Native::Dump`] returns: its one argument, a
/// function, unchanged. The call fails as [`Native::check_args`] says. (What
/// it prints is left to the caller.)
pub fn dump_result(args: &Vec<Value>) -> (result: Result<Value, InterpretError>)
    ensures
        match call_error(Native::Dump, args@) {
            None => result == Ok::<Value, InterpretError>(args@[0]),
            Some(kind) => result == Err::<Value, InterpretError>(InterpretError(kind)),
        },
{
    Native::Dump.check_args(args)?;
    Ok(args[0].copy())
}

/// Installs the [`Native`] functions as global variables, under the
/// symbols of their names.
pub fn install_natives(globals: &mut Globals, symbols: &mut Symbols)
    requires
        old(symbols).wf(),
        old(globals).wf(),
    ensures
        final(symbols).wf(),
        final(globals).wf(),
        final(globals)@ == old(globals)@.insert(
            symbol_of(final(symbols)@, native_name(Native::Dump)),
            Value::Native(Native::Dump),
        ).insert(symbol_of(final(symbols)@, native_name(Native::Sqrt)), Value::Native(Native::Sqrt)),
{
    let dump = install_native(Native::Dump, globals, symbols);
    let ghost after_dump = symbols@;
    let sqrt = install_native(Native::Sqrt, globals, symbols);
    proof {
        assert(symbols@[dump.0 as int] == after_dump[dump.0 as int]);
        symbols.lemma_len_bound();
        lemma_symbol_of(symbols@, dump.0 as int);
        lemma_symbol_of(symbols@, sqrt.0 as int);
    }
}

/// Installs a [`Native`] function as a global variable, under the symbol of
/// its name, and returns the symbol.
fn install_native(native: Native, globals: &mut Globals, symbols: &mut Symbols) -> (symbol: Symbol)
    requires
        old(symbols).wf(),
        old(globals).wf(),
    ensures
        final(symbols).wf(),
        final(globals).wf(),
        symbol.0 < final(symbols)@.len(),
        final(symbols)@[symbol.0 as int] == native_name(native),
        final(symbols)@.len() >= old(symbols)@.len(),
        final(symbols)@.take(old(symbols)@.len() as int) == old(symbols)@,
        final(globals)@ == old(globals)@.insert(symbol, Value::Native(native)),
{
    let symbol = symbols.intern(native.name());
    proof {
        assert(old(symbols)@.take(old(symbols)@.len() as int) =~= old(symbols)@);
        assert(symbols@.take(old(symbols)@.len() as int) =~= old(symbols)@);
    }
    globals.assign(symbol, Value::Native(native));
    symbol
}

} // verus!
