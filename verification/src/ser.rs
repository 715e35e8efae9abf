//! Support for serializing host data structures onto the operand stack:
//! the scalar range guards and the table builders that a serializer works
//! through.
//!
//! The foreign integer subtype is a signed 64-bit value, so an unsigned
//! integer beyond its range is rejected, never silently wrapped; and a
//! table can hold at most a 31-bit number of positional elements, so a
//! longer sequence is rejected as well.

use vstd::prelude::*;

use crate::state::State;
use crate::table::spec_valid_key;
use crate::text::push_char;
use crate::text::spec_dec_nat;
use crate::text::u64_to_string;
use crate::value::spec_value_eq;
use crate::value::Value;

verus! {

/// A serialization failure: a host-side message, an unsigned integer
/// beyond the signed range of the foreign integer type, or a table size
/// beyond the positional limit.
#[derive(Clone, Debug)]
pub enum Error {
    Custom(String),
    IntegerTooLarge(u64),
    TableSizeTooLarge(u64),
}

impl Error {
    /// Builds the host-side failure with a message.
    pub fn custom(msg: String) -> (r: Error)
        ensures
            r matches Error::Custom(m) && m@ == msg@,
    {
        Error::Custom(msg)
    }

    /// Renders the failure as a message.
    pub fn message(&self) -> (r: String)
        ensures
            self matches Error::Custom(m) ==> r@ == "custom serialization error: "@ + m@,
            self matches Error::IntegerTooLarge(v) ==> r@ == "integer "@ + spec_dec_nat(v as nat)
                + " is too large"@,
            self matches Error::TableSizeTooLarge(v) ==> r@ == "table size "@ + spec_dec_nat(
                v as nat,
            ) + " is too large"@,
    {
        match self {
            Error::Custom(m) => {
                let mut s = String::from_str("custom serialization error: ");
                s.append(m.as_str());
                s
            },
            Error::IntegerTooLarge(v) => {
                let mut s = String::from_str("integer ");
                let digits = u64_to_string(*v);
                s.append(digits.as_str());
                s.append(" is too large");
                s
            },
            Error::TableSizeTooLarge(v) => {
                let mut s = String::from_str("table size ");
                let digits = u64_to_string(*v);
                s.append(digits.as_str());
                s.append(" is too large");
                s
            },
        }
    }
}

impl State {
    /// Pushes an unsigned integer, rejecting exactly the values beyond
    /// the signed range of the foreign integer type: such a value is an
    /// error, never a silent wrap.
    pub fn push_ser_u64(&mut self, v: u64) -> (r: Result<(), Error>)
        requires
            old(self).wf(),
            old(self).top() < old(self).cap as int,
        ensures
            final(self).wf(),
            State::same_frame(*old(self), *final(self)),
            v <= i64::MAX as u64 ==> r is Ok && final(self).stack@ == old(self).stack@.push(
                Value::Integer(v as i64),
            ),
            v > i64::MAX as u64 ==> r == Err::<(), Error>(Error::IntegerTooLarge(v))
                && final(self).stack@ == old(self).stack@,
    {
        if v <= 0x7fffffffffffffff {
            self.push_integer(v as i64);
            Ok(())
        } else {
            Err(Error::IntegerTooLarge(v))
        }
    }

    /// Pushes a character as a one-character string.
    pub fn push_ser_char(&mut self, c: char) -> (r: Result<(), Error>)
        requires
            old(self).wf(),
            old(self).top() < old(self).cap as int,
        ensures
            final(self).wf(),
            State::same_frame(*old(self), *final(self)),
            r is Ok,
            final(self).stack@.len() == old(self).stack@.len() + 1,
            final(self).stack@.drop_last() == old(self).stack@,
            final(self).stack@.last() matches Value::Str(t) && t@ == seq![c],
    {
        let mut s = String::new();
        push_char(&mut s, c);
        proof {
            assert(s@ =~= seq![c]);
        }
        self.stack.push(Value::Str(s));
        proof {
            assert(self.stack@.drop_last() =~= old(self).stack@);
        }
        Ok(())
    }
}

/// Checks a sequence length hint against the positional limit of a table.
pub fn seq_prealloc(len: Option<usize>) -> (r: Result<i32, Error>)
    ensures
        len is None ==> r == Ok::<i32, Error>(0),
        (len matches Some(x) ==> if x <= i32::MAX as usize {
            r == Ok::<i32, Error>(x as i32)
        } else {
            r == Err::<i32, Error>(Error::IntegerTooLarge(x as u64))
        }),
{
    match len {
        None => Ok(0),
        Some(x) => {
            if x <= 0x7fffffff {
                Ok(x as i32)
            } else {
                Err(Error::IntegerTooLarge(x as u64))
            }
        },
    }
}

/// Checks a field-count hint against the positional limit of a table.
pub fn struct_prealloc(len: usize) -> (r: Result<i32, Error>)
    ensures
        len <= i32::MAX as usize ==> r == Ok::<i32, Error>(len as i32),
        len > i32::MAX as usize ==> r == Err::<i32, Error>(Error::TableSizeTooLarge(len as u64)),
{
    if len <= 0x7fffffff {
        Ok(len as i32)
    } else {
        Err(Error::TableSizeTooLarge(len as u64))
    }
}

/// Builds a positional table: elements are serialized one at a time onto
/// the stack and filed under consecutive one-based subscripts.
#[derive(Clone, Copy, Debug, PartialEq, Eq, Structural)]
pub struct SerializeSeq {
    /// The absolute stack position of the table being built.
    pub table_index: i32,
    /// The number of elements filed so far.
    pub current_subscript: i32,
}

impl SerializeSeq {
    /// Starts a positional table: pushes a fresh table and remembers its
    /// absolute stack position.
    pub fn new(state: &mut State, prealloc: i32) -> (r: SerializeSeq)
        requires
            old(state).wf(),
            old(state).top() < old(state).cap as int,
        ensures
            final(state).wf(),
            State::same_admin(*old(state), *final(state)),
            final(state).tables@.len() == old(state).tables@.len() + 1,
            forall|t: int|
                0 <= t < old(state).tables@.len() ==> final(state).tables@[t] == old(
                    state,
                ).tables@[t],
            forall|k: Value|
                final(state).tables@[old(state).tables@.len() as int].spec_get(k) is Nil,
            final(state).stack@ == old(state).stack@.push(
                Value::Table(old(state).tables@.len() as usize),
            ),
            r.table_index as int == old(state).top() + 1,
            r.current_subscript == 0,
    {
        state.create_table(prealloc, 0);
        SerializeSeq { table_index: state.get_top(), current_subscript: 0 }
    }

    /// Files the value on top of the stack under the next subscript,
    /// popping it.  A table that already holds the maximal number of
    /// positional elements rejects the element.
    pub fn element(&mut self, state: &mut State) -> (r: Result<(), Error>)
        requires
            old(state).wf(),
            old(self).current_subscript >= 0,
            1 <= old(self).table_index,
            old(self).table_index as int <= old(state).top() - 1,
            old(state).stack@[old(self).table_index - 1] is Table,
        ensures
            final(state).wf(),
            State::same_admin(*old(state), *final(state)),
            old(self).current_subscript == i32::MAX ==> r == Err::<(), Error>(
                Error::TableSizeTooLarge(old(self).current_subscript as u64),
            ) && *final(state) == *old(state) && *final(self) == *old(self),
            old(self).current_subscript < i32::MAX ==> ({
                let id = old(state).stack@[old(self).table_index - 1]->Table_0;
                let sub = old(self).current_subscript + 1;
                let v = old(state).stack@.last();
                &&& r is Ok
                &&& final(self).table_index == old(self).table_index
                &&& final(self).current_subscript == sub
                &&& final(state).stack@ == old(state).stack@.drop_last()
                &&& final(state).tables@.len() == old(state).tables@.len()
                &&& (forall|t: int|
                    0 <= t < old(state).tables@.len() && t != id ==> final(state).tables@[t] == old(
                        state,
                    ).tables@[t])
                &&& final(state).tables@[id as int].spec_get(Value::Integer(sub as i64)) == (
                if v is Nil {
                    Value::Nil
                } else {
                    v
                })
                &&& (forall|q: Value|
                    !spec_value_eq(q, Value::Integer(sub as i64))
                        ==> #[trigger] final(state).tables@[id as int].spec_get(q) == old(
                        state,
                    ).tables@[id as int].spec_get(q))
            }),
    {
        if self.current_subscript == i32::MAX {
            return Err(Error::TableSizeTooLarge(self.current_subscript as u64));
        }
        self.current_subscript = self.current_subscript + 1;
        state.raw_seti(self.table_index, self.current_subscript as i64);
        Ok(())
    }

    /// Finishes the table: it is already in place on the stack.
    pub fn end(self, state: &mut State)
        ensures
            *final(state) == *old(state),
    {
        let _ = self;
        let _ = state;
    }
}

/// Builds a keyed table: each entry's key and value are serialized onto
/// the stack in turn and filed together.
#[derive(Clone, Copy, Debug, PartialEq, Eq, Structural)]
pub struct SerializeMap {
    /// The absolute stack position of the table being built.
    pub table_index: i32,
}

impl SerializeMap {
    /// Starts a keyed table: pushes a fresh table and remembers its
    /// absolute stack position.
    pub fn new(state: &mut State, prealloc: i32) -> (r: SerializeMap)
        requires
            old(state).wf(),
            old(state).top() < old(state).cap as int,
        ensures
            final(state).wf(),
            State::same_admin(*old(state), *final(state)),
            final(state).tables@.len() == old(state).tables@.len() + 1,
            forall|t: int|
                0 <= t < old(state).tables@.len() ==> final(state).tables@[t] == old(
                    state,
                ).tables@[t],
            forall|k: Value|
                final(state).tables@[old(state).tables@.len() as int].spec_get(k) is Nil,
            final(state).stack@ == old(state).stack@.push(
                Value::Table(old(state).tables@.len() as usize),
            ),
            r.table_index as int == old(state).top() + 1,
    {
        state.create_table(0, prealloc);
        SerializeMap { table_index: state.get_top() }
    }

    /// Files the entry whose key and value sit on top of the stack,
    /// popping both.
    pub fn value(&self, state: &mut State) -> (r: Result<(), Error>)
        requires
            old(state).wf(),
            1 <= self.table_index,
            self.table_index as int <= old(state).top() - 2,
            old(state).stack@[self.table_index - 1] is Table,
            spec_valid_key(old(state).stack@[old(state).top() - 2]),
        ensures
            final(state).wf(),
            State::same_admin(*old(state), *final(state)),
            r is Ok,
            final(state).stack@ == old(state).stack@.subrange(0, old(state).top() - 2),
            ({
                let id = old(state).stack@[self.table_index - 1]->Table_0;
                let key = old(state).stack@[old(state).top() - 2];
                let v = old(state).stack@.last();
                &&& final(state).tables@.len() == old(state).tables@.len()
                &&& (forall|t: int|
                    0 <= t < old(state).tables@.len() && t != id ==> final(state).tables@[t] == old(
                        state,
                    ).tables@[t])
                &&& final(state).tables@[id as int].spec_get(key) == (if v is Nil {
                    Value::Nil
                } else {
                    v
                })
                &&& (forall|q: Value|
                    !spec_value_eq(q, key) ==> #[trigger] final(state).tables@[id as int].spec_get(
                        q,
                    ) == old(state).tables@[id as int].spec_get(q))
            }),
    {
        state.raw_set(self.table_index);
        Ok(())
    }
}

/// Builds a record table: each field's value is serialized onto the stack
/// and filed under the field's name.
#[derive(Clone, Copy, Debug, PartialEq, Eq, Structural)]
pub struct SerializeStruct {
    /// The absolute stack position of the table being built.
    pub table_index: i32,
}

impl SerializeStruct {
    /// Starts a record table: pushes a fresh table and remembers its
    /// absolute stack position.
    pub fn new(state: &mut State, fields: i32) -> (r: SerializeStruct)
        requires
            old(state).wf(),
            old(state).top() < old(state).cap as int,
        ensures
            final(state).wf(),
            State::same_admin(*old(state), *final(state)),
            final(state).tables@.len() == old(state).tables@.len() + 1,
            forall|t: int|
                0 <= t < old(state).tables@.len() ==> final(state).tables@[t] == old(
                    state,
                ).tables@[t],
            forall|k: Value|
                final(state).tables@[old(state).tables@.len() as int].spec_get(k) is Nil,
            final(state).stack@ == old(state).stack@.push(
                Value::Table(old(state).tables@.len() as usize),
            ),
            r.table_index as int == old(state).top() + 1,
    {
        state.create_table(0, fields);
        SerializeStruct { table_index: state.get_top() }
    }

    /// Files the value on top of the stack under a field name, popping it.
    pub fn field(&self, state: &mut State, key: &str) -> (r: Result<(), Error>)
        requires
            old(state).wf(),
            1 <= self.table_index,
            self.table_index as int <= old(state).top() - 1,
            old(state).stack@[self.table_index - 1] is Table,
        ensures
            final(state).wf(),
            State::same_admin(*old(state), *final(state)),
            r is Ok,
            final(state).stack@ == old(state).stack@.drop_last(),
            ({
                let id = old(state).stack@[self.table_index - 1]->Table_0;
                let v = old(state).stack@.last();
                &&& final(state).tables@.len() == old(state).tables@.len()
                &&& (forall|t: int|
                    0 <= t < old(state).tables@.len() && t != id ==> final(state).tables@[t] == old(
                        state,
                    ).tables@[t])
                &&& crate::state::spec_get_str(final(state).tables@[id as int], key@) == (
                if v is Nil {
                    Value::Nil
                } else {
                    v
                })
            }),
    {
        state.set_field(self.table_index, key);
        Ok(())
    }
}

} // verus!
