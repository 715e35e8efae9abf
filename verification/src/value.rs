//! The dynamic values that may occupy a slot of the interpreter's operand
//! stack.
//!
//! Reference values (tables, functions, userdata, threads) are held by
//! identity: a slot stores an identifier into the owning state's heap, so two
//! slots holding the same identifier alias the same object, exactly as the
//! foreign runtime's reference semantics prescribe.  The floating-point
//! number representation is carried as its raw bit pattern, which keeps the
//! exact foreign representation without performing any host float arithmetic.

use vstd::prelude::*;

use crate::types::Type;

verus! {

/// One dynamically typed value, as visible through a stack slot.
#[derive(Debug)]
pub enum Value {
    /// The absence of a useful value.
    Nil,
    /// A boolean.
    Boolean(bool),
    /// An integer number (the foreign integer numeric subtype).
    Integer(i64),
    /// A floating-point number, by its exact bit pattern.
    Number(u64),
    /// An immutable string.
    Str(String),
    /// A table, by identity into the owning state's table heap.
    Table(usize),
    /// A registered native function, by its registration token.
    Function(u64),
    /// A full userdata object, by an opaque identity.
    Userdata(u64),
    /// A light userdata: a bare foreign address carried as a plain value.
    LightUserdata(u64),
    /// A cooperative sub-thread, by an opaque identity.
    Thread(u64),
}

/// Primitive (raw) equality of two values: no coercion between the numeric
/// subtypes, strings by contents, reference values by identity.
pub open spec fn spec_value_eq(a: Value, b: Value) -> bool {
    match (a, b) {
        (Value::Nil, Value::Nil) => true,
        (Value::Boolean(x), Value::Boolean(y)) => x == y,
        (Value::Integer(x), Value::Integer(y)) => x == y,
        (Value::Number(x), Value::Number(y)) => x == y,
        (Value::Str(x), Value::Str(y)) => x@ == y@,
        (Value::Table(x), Value::Table(y)) => x == y,
        (Value::Function(x), Value::Function(y)) => x == y,
        (Value::Userdata(x), Value::Userdata(y)) => x == y,
        (Value::LightUserdata(x), Value::LightUserdata(y)) => x == y,
        (Value::Thread(x), Value::Thread(y)) => x == y,
        _ => false,
    }
}

/// Whether a bit pattern encodes a floating-point not-a-number: all exponent
/// bits set with a non-zero mantissa.
pub open spec fn spec_is_nan_bits(b: u64) -> bool {
    b & 0x7ff0000000000000 == 0x7ff0000000000000 && b & 0x000fffffffffffff != 0
}

impl Value {
    /// The type tag of this value, as the foreign runtime reports it.
    pub open spec fn spec_tag(self) -> Type {
        match self {
            Value::Nil => Type::Nil,
            Value::Boolean(_) => Type::Boolean,
            Value::Integer(_) => Type::Number,
            Value::Number(_) => Type::Number,
            Value::Str(_) => Type::String,
            Value::Table(_) => Type::Table,
            Value::Function(_) => Type::Function,
            Value::Userdata(_) => Type::Userdata,
            Value::LightUserdata(_) => Type::LightUserdata,
            Value::Thread(_) => Type::Thread,
        }
    }

    /// Computes the type tag of this value.
    pub fn tag(&self) -> (t: Type)
        ensures
            t == self.spec_tag(),
    {
        match self {
            Value::Nil => Type::Nil,
            Value::Boolean(_) => Type::Boolean,
            Value::Integer(_) => Type::Number,
            Value::Number(_) => Type::Number,
            Value::Str(_) => Type::String,
            Value::Table(_) => Type::Table,
            Value::Function(_) => Type::Function,
            Value::Userdata(_) => Type::Userdata,
            Value::LightUserdata(_) => Type::LightUserdata,
            Value::Thread(_) => Type::Thread,
        }
    }

    /// Makes an equal copy of this value.
    pub fn duplicate(&self) -> (r: Value)
        ensures
            r == *self,
    {
        match self {
            Value::Nil => Value::Nil,
            Value::Boolean(b) => Value::Boolean(*b),
            Value::Integer(i) => Value::Integer(*i),
            Value::Number(n) => Value::Number(*n),
            Value::Str(s) => Value::Str(s.clone()),
            Value::Table(t) => Value::Table(*t),
            Value::Function(f) => Value::Function(*f),
            Value::Userdata(u) => Value::Userdata(*u),
            Value::LightUserdata(u) => Value::LightUserdata(*u),
            Value::Thread(t) => Value::Thread(*t),
        }
    }

    /// Decides primitive equality of two values.
    pub fn raw_eq(&self, other: &Value) -> (r: bool)
        ensures
            r == spec_value_eq(*self, *other),
    {
        match (self, other) {
            (Value::Nil, Value::Nil) => true,
            (Value::Boolean(x), Value::Boolean(y)) => x == y,
            (Value::Integer(x), Value::Integer(y)) => x == y,
            (Value::Number(x), Value::Number(y)) => x == y,
            (Value::Str(x), Value::Str(y)) => *x == *y,
            (Value::Table(x), Value::Table(y)) => x == y,
            (Value::Function(x), Value::Function(y)) => x == y,
            (Value::Userdata(x), Value::Userdata(y)) => x == y,
            (Value::LightUserdata(x), Value::LightUserdata(y)) => x == y,
            (Value::Thread(x), Value::Thread(y)) => x == y,
            _ => false,
        }
    }

    /// Whether this value is truthy under the foreign runtime's rules:
    /// everything is true but nil and false.
    pub open spec fn spec_truthy(self) -> bool {
        !(self is Nil || self == Value::Boolean(false))
    }
}

} // verus!
