//! Typed conversion between host values and stack slots.
//!
//! `ToLua` pushes exactly one value; `FromLua` reads a slot without
//! mutating anything, and reports absence rather than converting a slot of
//! the wrong dynamic type.  The push/read identity laws at the end state
//! that reading back a freshly pushed scalar gives an equal value.

use vstd::prelude::*;

use crate::state::Function;
use crate::state::Number;
use crate::state::spec_to_str_view;
use crate::state::State;
use crate::text::spec_dec_int;
use crate::types::Index;
use crate::value::Value;

verus! {

/// Trait for host types that can be pushed onto the operand stack.
///
/// An implementation pushes exactly one value — never a partial result —
/// and `pushes` pins down which stack values may stand for `self`.
pub trait ToLua {
    /// Whether `v` is the stack representation of `self`.
    spec fn pushes(&self, v: Value) -> bool;

    /// Pushes `self` onto the stack of `state` as one value.
    fn to_lua(&self, state: &mut State)
        requires
            old(state).wf(),
            old(state).top() < old(state).cap as int,
        ensures
            final(state).wf(),
            State::same_frame(*old(state), *final(state)),
            final(state).stack@.len() == old(state).stack@.len() + 1,
            final(state).stack@.drop_last() == old(state).stack@,
            self.pushes(final(state).stack@.last()),
    ;
}

/// Trait for host types that can be read off a stack slot.
///
/// Reading never mutates the state and never pops: disposing of the slot
/// afterwards is the caller's responsibility.
pub trait FromLua: Sized {
    /// Whether the stack value `v` can be read as a `Self`.
    spec fn readable(v: Value) -> bool;

    /// Whether `r` is a reading of the stack value `v`.
    spec fn reads(v: Value, r: Self) -> bool;

    /// Reads the slot at `index`, absent when the index holds no value or
    /// the value has the wrong dynamic type.
    fn from_lua(state: &mut State, index: Index) -> (r: Option<Self>)
        requires
            old(state).wf(),
        ensures
            *final(state) == *old(state),
            match r {
                Some(x) => old(state).spec_resolves(index as int) && Self::readable(
                    old(state).spec_slot(index as int),
                ) && Self::reads(old(state).spec_slot(index as int), x),
                None => !old(state).spec_resolves(index as int) || !Self::readable(
                    old(state).spec_slot(index as int),
                ),
            },
    ;
}

impl ToLua for &str {
    open spec fn pushes(&self, v: Value) -> bool {
        v matches Value::Str(t) && t@ == self@
    }

    fn to_lua(&self, state: &mut State) {
        state.push_string(self);
    }
}

impl ToLua for String {
    open spec fn pushes(&self, v: Value) -> bool {
        v matches Value::Str(t) && t@ == self@
    }

    fn to_lua(&self, state: &mut State) {
        state.push_string(self.as_str());
    }
}

impl ToLua for i64 {
    open spec fn pushes(&self, v: Value) -> bool {
        v == Value::Integer(*self)
    }

    fn to_lua(&self, state: &mut State) {
        state.push_integer(*self);
    }
}

impl ToLua for Number {
    open spec fn pushes(&self, v: Value) -> bool {
        v == Value::Number(self.bits)
    }

    fn to_lua(&self, state: &mut State) {
        state.push_number(*self);
    }
}

impl ToLua for bool {
    open spec fn pushes(&self, v: Value) -> bool {
        v == Value::Boolean(*self)
    }

    fn to_lua(&self, state: &mut State) {
        state.push_bool(*self);
    }
}

impl ToLua for Function {
    open spec fn pushes(&self, v: Value) -> bool {
        v == Value::Function(self.0)
    }

    fn to_lua(&self, state: &mut State) {
        state.push_fn(*self);
    }
}

impl<T: ToLua> ToLua for Option<T> {
    open spec fn pushes(&self, v: Value) -> bool {
        match self {
            Some(x) => x.pushes(v),
            None => v is Nil,
        }
    }

    fn to_lua(&self, state: &mut State) {
        match self {
            Some(x) => x.to_lua(state),
            None => state.push_nil(),
        }
    }
}

impl FromLua for String {
    open spec fn readable(v: Value) -> bool {
        spec_to_str_view(v) is Some
    }

    open spec fn reads(v: Value, r: Self) -> bool {
        spec_to_str_view(v) == Some(r@)
    }

    fn from_lua(state: &mut State, index: Index) -> (r: Option<Self>) {
        state.to_str(index)
    }
}

impl FromLua for i64 {
    open spec fn readable(v: Value) -> bool {
        v is Integer
    }

    open spec fn reads(v: Value, r: Self) -> bool {
        v == Value::Integer(r)
    }

    fn from_lua(state: &mut State, index: Index) -> (r: Option<Self>) {
        if state.is_integer(index) {
            state.to_integerx(index)
        } else {
            None
        }
    }
}

impl FromLua for Number {
    open spec fn readable(v: Value) -> bool {
        v is Number
    }

    open spec fn reads(v: Value, r: Self) -> bool {
        v == Value::Number(r.bits)
    }

    fn from_lua(state: &mut State, index: Index) -> (r: Option<Self>) {
        state.to_numberx(index)
    }
}

impl FromLua for bool {
    open spec fn readable(v: Value) -> bool {
        v is Boolean
    }

    open spec fn reads(v: Value, r: Self) -> bool {
        v == Value::Boolean(r)
    }

    fn from_lua(state: &mut State, index: Index) -> (r: Option<Self>) {
        if state.is_bool(index) {
            Some(state.to_bool(index))
        } else {
            None
        }
    }
}

impl FromLua for Function {
    open spec fn readable(v: Value) -> bool {
        v is Function
    }

    open spec fn reads(v: Value, r: Self) -> bool {
        v == Value::Function(r.0)
    }

    fn from_lua(state: &mut State, index: Index) -> (r: Option<Self>) {
        state.to_native_fn(index)
    }
}

impl State {
    /// Pushes the given value onto the stack.
    pub fn push<T: ToLua>(&mut self, value: T)
        requires
            old(self).wf(),
            old(self).top() < old(self).cap as int,
        ensures
            final(self).wf(),
            State::same_frame(*old(self), *final(self)),
            final(self).stack@.len() == old(self).stack@.len() + 1,
            final(self).stack@.drop_last() == old(self).stack@,
            value.pushes(final(self).stack@.last()),
    {
        value.to_lua(self);
    }

    /// Reads the value on top of the stack as a `T`, absent on an empty
    /// stack or a dynamic type mismatch; the value stays on the stack.
    pub fn to_type<T: FromLua>(&mut self) -> (r: Option<T>)
        requires
            old(self).wf(),
        ensures
            *final(self) == *old(self),
            match r {
                Some(x) => old(self).top() >= 1 && T::readable(old(self).stack@.last())
                    && T::reads(old(self).stack@.last(), x),
                None => old(self).top() == 0 || !T::readable(old(self).stack@.last()),
            },
    {
        T::from_lua(self, -1)
    }
}

/// Push/read identity for strings: a value pushed for a string text reads
/// back as exactly that text.
pub proof fn lemma_roundtrip_string(x: Seq<char>, v: Value)
    requires
        v matches Value::Str(t) && t@ == x,
    ensures
        <String as FromLua>::readable(v),
        forall|r: String| <String as FromLua>::reads(v, r) ==> r@ == x,
{
}

/// Push/read identity for integers: a pushed integer reads back equal.
pub proof fn lemma_roundtrip_integer(x: i64, v: Value)
    requires
        ToLua::pushes(&x, v),
    ensures
        <i64 as FromLua>::readable(v),
        forall|r: i64| <i64 as FromLua>::reads(v, r) ==> r == x,
{
}

/// Push/read identity for floats: a pushed float reads back with the very
/// same bit pattern — the exact foreign representation is preserved.
pub proof fn lemma_roundtrip_number(x: Number, v: Value)
    requires
        ToLua::pushes(&x, v),
    ensures
        <Number as FromLua>::readable(v),
        forall|r: Number| <Number as FromLua>::reads(v, r) ==> r == x,
{
}

/// Push/read identity for booleans.
pub proof fn lemma_roundtrip_bool(x: bool, v: Value)
    requires
        ToLua::pushes(&x, v),
    ensures
        <bool as FromLua>::readable(v),
        forall|r: bool| <bool as FromLua>::reads(v, r) ==> r == x,
{
}

/// Push/read identity for native-function tokens.
pub proof fn lemma_roundtrip_function(x: Function, v: Value)
    requires
        ToLua::pushes(&x, v),
    ensures
        <Function as FromLua>::readable(v),
        forall|r: Function| <Function as FromLua>::reads(v, r) ==> r == x,
{
}

} // verus!
