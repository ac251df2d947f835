use vstd::prelude::*;

use std::rc::Rc;

use crate::ast::Literal;
use crate::cfg::Function;

use super::native::Native;

verus! {

/// A runtime value.
///
/// A number is held as the IEEE 754 bit pattern of its `f64` value: the
/// interpreter moves numbers around and checks their type, and the
/// arithmetic on them is done by the caller.
pub enum Value {
    /// A number, as the bits of an `f64`.
    Number(u64),
    /// A Boolean value.
    Bool(bool),
    /// A [`Function`].
    Function(Rc<Function>),
    /// A [`Closure`].
    Closure(Rc<Closure>),
    /// A [`Native`].
    Native(Native),
}

/// A [`Function`] with captured upvars.
pub struct Closure {
    /// The [`Function`].
    pub function: Rc<Function>,
    /// The upvars.
    pub upvars: Vec<Rc<Value>>,
}

/// A type of [`Value`].
#[derive(Clone, Copy, Debug, PartialEq, Eq, Structural)]
pub enum ValueType {
    /// A number.
    Number,
    /// A Boolean value.
    Bool,
    /// A [`Function`], [`Closure`], or [`Native`].
    Function,
}

/// The type of a value.
pub open spec fn type_of(value: Value) -> ValueType {
    match value {
        Value::Number(_) => ValueType::Number,
        Value::Bool(_) => ValueType::Bool,
        Value::Function(_) | Value::Closure(_) | Value::Native(_) => ValueType::Function,
    }
}

/// The value of a literal.
pub open spec fn literal_value(literal: Literal) -> Value {
    match literal {
        Literal::Number(bits) => Value::Number(bits),
        Literal::Bool(value) => Value::Bool(value),
    }
}

/// Makes another pointer to a shared value: `Rc::clone`, which points to the
/// same allocation and so to the same value.
#[verifier::external_body]
pub(crate) fn share<T>(rc: &Rc<T>) -> (shared: Rc<T>)
    ensures
        shared == *rc,
{
    Rc::clone(rc)
}

impl Value {
    /// Returns `true` if the `Value`'s [`ValueType`] matches another
    /// `Value`'s [`ValueType`].
    pub fn matches_value_type(&self, other: &Self) -> (matches: bool)
        ensures
            matches == (type_of(*self) == type_of(*other)),
    {
        self.value_type() == other.value_type()
    }

    /// Returns the `Value`'s [`ValueType`].
    pub fn value_type(&self) -> (value_type: ValueType)
        ensures
            value_type == type_of(*self),
    {
        match self {
            Value::Number(_) => ValueType::Number,
            Value::Bool(_) => ValueType::Bool,
            Value::Function(_) | Value::Closure(_) | Value::Native(_) => ValueType::Function,
        }
    }

    /// Returns a copy of the `Value`: shared values are shared again.
    pub fn copy(&self) -> (value: Self)
        ensures
            value == *self,
    {
        match self {
            Value::Number(bits) => Value::Number(*bits),
            Value::Bool(value) => Value::Bool(*value),
            Value::Function(function) => Value::Function(share(function)),
            Value::Closure(closure) => Value::Closure(share(closure)),
            Value::Native(native) => Value::Native(*native),
        }
    }
}

impl From<Literal> for Value {
    fn from(literal: Literal) -> (value: Self) {
        match literal {
            Literal::Number(bits) => Value::Number(bits),
            Literal::Bool(value) => Value::Bool(value),
        }
    }
}

impl vstd::std_specs::convert::FromSpecImpl<Literal> for Value {
    open spec fn obeys_from_spec() -> bool {
        true
    }

    open spec fn from_spec(literal: Literal) -> Value {
        literal_value(literal)
    }
}

/// Copies a sequence of shared values.
pub fn copy_upvars(upvars: &Vec<Rc<Value>>) -> (copy: Vec<Rc<Value>>)
    ensures
        copy@ == upvars@,
{
    let mut copy: Vec<Rc<Value>> = Vec::new();
    let mut i: usize = 0;
    while i < upvars.len()
        invariant
            i <= upvars.len(),
            copy@ == upvars@.take(i as int),
        decreases upvars.len() - i,
    {
        copy.push(share(&upvars[i]));
        proof {
            assert(copy@ =~= upvars@.take(i as int + 1));
        }
        i = i + 1;
    }
    proof {
        assert(upvars@.take(i as int) =~= upvars@);
    }
    copy
}

} // verus!
