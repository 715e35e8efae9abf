//! Serializing host data structures onto the operand stack through a
//! serde serializer built over the library's verified table builders.

use std::collections::HashMap;
use std::time::Duration;

use lua::ser;
use lua::Number;
use lua::State;
use lua::ToLua;
use serde::Serialize;
use serde::Serializer;

pub struct Serde<'a, S: Serialize + ?Sized + 'a>(pub &'a S);

struct LuaSerializer<'a>(&'a mut State);

#[derive(Debug)]
struct Error(String);

impl std::fmt::Display for Error {
    fn fmt(&self, f: &mut std::fmt::Formatter<'_>) -> std::fmt::Result {
        f.write_str(&self.0)
    }
}

impl std::error::Error for Error {}

impl serde::ser::Error for Error {
    fn custom<T: std::fmt::Display>(msg: T) -> Self {
        Error(msg.to_string())
    }
}

fn lift(e: ser::Error) -> Error {
    Error(format!("{:?}", e))
}

struct SeqShim<'a> {
    state: &'a mut State,
    inner: ser::SerializeSeq,
}

struct MapShim<'a> {
    state: &'a mut State,
    inner: ser::SerializeMap,
}

struct StructShim<'a> {
    state: &'a mut State,
    inner: ser::SerializeStruct,
}

impl<'a> serde::ser::SerializeSeq for SeqShim<'a> {
    type Ok = ();
    type Error = Error;

    fn serialize_element<T: ?Sized + Serialize>(&mut self, value: &T) -> Result<(), Error> {
        value.serialize(LuaSerializer(self.state))?;
        self.inner.element(self.state).map_err(lift)
    }

    fn end(self) -> Result<(), Error> {
        self.inner.end(self.state);
        Ok(())
    }
}

impl<'a> serde::ser::SerializeMap for MapShim<'a> {
    type Ok = ();
    type Error = Error;

    fn serialize_key<T: ?Sized + Serialize>(&mut self, key: &T) -> Result<(), Error> {
        key.serialize(LuaSerializer(self.state))
    }

    fn serialize_value<T: ?Sized + Serialize>(&mut self, value: &T) -> Result<(), Error> {
        value.serialize(LuaSerializer(self.state))?;
        self.inner.value(self.state).map_err(lift)
    }

    fn end(self) -> Result<(), Error> {
        Ok(())
    }
}

impl<'a> serde::ser::SerializeStruct for StructShim<'a> {
    type Ok = ();
    type Error = Error;

    fn serialize_field<T: ?Sized + Serialize>(
        &mut self,
        key: &'static str,
        value: &T,
    ) -> Result<(), Error> {
        value.serialize(LuaSerializer(self.state))?;
        self.inner.field(self.state, key).map_err(lift)
    }

    fn end(self) -> Result<(), Error> {
        Ok(())
    }
}

impl<'a> Serializer for LuaSerializer<'a> {
    type Ok = ();
    type Error = Error;
    type SerializeSeq = SeqShim<'a>;
    type SerializeTuple = serde::ser::Impossible<(), Error>;
    type SerializeTupleStruct = serde::ser::Impossible<(), Error>;
    type SerializeTupleVariant = serde::ser::Impossible<(), Error>;
    type SerializeMap = MapShim<'a>;
    type SerializeStruct = StructShim<'a>;
    type SerializeStructVariant = serde::ser::Impossible<(), Error>;

    fn serialize_bool(self, v: bool) -> Result<(), Error> {
        self.0.push_bool(v);
        Ok(())
    }

    fn serialize_i8(self, v: i8) -> Result<(), Error> {
        self.0.push_integer(v as i64);
        Ok(())
    }

    fn serialize_i16(self, v: i16) -> Result<(), Error> {
        self.0.push_integer(v as i64);
        Ok(())
    }

    fn serialize_i32(self, v: i32) -> Result<(), Error> {
        self.0.push_integer(v as i64);
        Ok(())
    }

    fn serialize_i64(self, v: i64) -> Result<(), Error> {
        self.0.push_integer(v);
        Ok(())
    }

    fn serialize_u8(self, v: u8) -> Result<(), Error> {
        self.0.push_integer(v as i64);
        Ok(())
    }

    fn serialize_u16(self, v: u16) -> Result<(), Error> {
        self.0.push_integer(v as i64);
        Ok(())
    }

    fn serialize_u32(self, v: u32) -> Result<(), Error> {
        self.0.push_integer(v as i64);
        Ok(())
    }

    fn serialize_u64(self, v: u64) -> Result<(), Error> {
        self.0.push_ser_u64(v).map_err(lift)
    }

    fn serialize_f32(self, v: f32) -> Result<(), Error> {
        self.0.push_number(Number { bits: (v as f64).to_bits() });
        Ok(())
    }

    fn serialize_f64(self, v: f64) -> Result<(), Error> {
        self.0.push_number(Number { bits: v.to_bits() });
        Ok(())
    }

    fn serialize_char(self, v: char) -> Result<(), Error> {
        self.0.push_ser_char(v).map_err(lift)
    }

    fn serialize_str(self, v: &str) -> Result<(), Error> {
        self.0.push_string(v);
        Ok(())
    }

    fn serialize_bytes(self, _v: &[u8]) -> Result<(), Error> {
        panic!("byte strings are not serialized");
    }

    fn serialize_none(self) -> Result<(), Error> {
        self.0.push_nil();
        Ok(())
    }

    fn serialize_some<T: ?Sized + Serialize>(self, value: &T) -> Result<(), Error> {
        value.serialize(self)
    }

    fn serialize_unit(self) -> Result<(), Error> {
        panic!("unit is not serialized");
    }

    fn serialize_unit_struct(self, _name: &'static str) -> Result<(), Error> {
        panic!("unit structs are not serialized");
    }

    fn serialize_unit_variant(
        self,
        _name: &'static str,
        _variant_index: u32,
        _variant: &'static str,
    ) -> Result<(), Error> {
        panic!("unit variants are not serialized");
    }

    fn serialize_newtype_struct<T: ?Sized + Serialize>(
        self,
        _name: &'static str,
        _value: &T,
    ) -> Result<(), Error> {
        panic!("newtype structs are not serialized");
    }

    fn serialize_newtype_variant<T: ?Sized + Serialize>(
        self,
        _name: &'static str,
        _variant_index: u32,
        _variant: &'static str,
        _value: &T,
    ) -> Result<(), Error> {
        panic!("newtype variants are not serialized");
    }

    fn serialize_seq(self, len: Option<usize>) -> Result<SeqShim<'a>, Error> {
        let prealloc = ser::seq_prealloc(len).map_err(lift)?;
        let inner = ser::SerializeSeq::new(self.0, prealloc);
        Ok(SeqShim { state: self.0, inner })
    }

    fn serialize_tuple(self, _len: usize) -> Result<Self::SerializeTuple, Error> {
        panic!("tuples are not serialized");
    }

    fn serialize_tuple_struct(
        self,
        _name: &'static str,
        _len: usize,
    ) -> Result<Self::SerializeTupleStruct, Error> {
        panic!("tuple structs are not serialized");
    }

    fn serialize_tuple_variant(
        self,
        _name: &'static str,
        _variant_index: u32,
        _variant: &'static str,
        _len: usize,
    ) -> Result<Self::SerializeTupleVariant, Error> {
        panic!("tuple variants are not serialized");
    }

    fn serialize_map(self, len: Option<usize>) -> Result<MapShim<'a>, Error> {
        let prealloc = len.map(|x| x as i32).unwrap_or(0);
        let inner = ser::SerializeMap::new(self.0, prealloc);
        Ok(MapShim { state: self.0, inner })
    }

    fn serialize_struct(
        self,
        _name: &'static str,
        len: usize,
    ) -> Result<StructShim<'a>, Error> {
        let fields = ser::struct_prealloc(len).map_err(lift)?;
        let inner = ser::SerializeStruct::new(self.0, fields);
        Ok(StructShim { state: self.0, inner })
    }

    fn serialize_struct_variant(
        self,
        _name: &'static str,
        _variant_index: u32,
        _variant: &'static str,
        _len: usize,
    ) -> Result<Self::SerializeStructVariant, Error> {
        panic!("struct variants are not serialized");
    }
}

impl<'a, T: Serialize + 'a> ToLua for Serde<'a, T> {
    fn pushes(&self, _v: lua::Value) -> bool {
        true
    }

    fn to_lua(&self, state: &mut State) {
        self.0
            .serialize(LuaSerializer(state))
            .expect("serialization error")
    }
}

#[test]
fn serialize_str() {
    let mut state = State::new();
    state.push(Serde(&"hello"));
}

#[test]
fn serialize_int() {
    let mut state = State::new();
    state.push(Serde(&1i8));
    state.push(Serde(&1i16));
    state.push(Serde(&1i32));
    state.push(Serde(&1i64));
    state.push(Serde(&1u8));
    state.push(Serde(&1u16));
    state.push(Serde(&1u32));
    state.push(Serde(&1u64));
}

#[test]
#[should_panic(expected = "IntegerTooLarge")]
fn serialize_big_int() {
    let mut state = State::new();
    state.push(Serde(&10000000000000000000u64));
}

#[test]
fn serialize_float() {
    let mut state = State::new();
    state.push(Serde(&1.0f32));
    state.push(Serde(&1.0f64));
}

#[test]
fn serialize_char() {
    let mut state = State::new();
    state.push(Serde(&'x'));
}

#[test]
fn serialize_option() {
    let mut state = State::new();
    state.push(Serde(&Some("hello")));
    state.push(Serde(&None::<&str>));
}

#[test]
fn serialize_list() {
    let mut state = State::new();
    let x: &[u32] = &[1, 2, 3];
    state.push(Serde(&x));
    let x = vec![1, 2, 3];
    state.push(Serde(&x));
}

#[test]
fn serialize_map() {
    let mut state = State::new();
    let x = vec![("x", 1), ("y", 2)].into_iter().collect::<HashMap<_, _>>();
    state.push(Serde(&x));
}

#[test]
fn serialize_struct() {
    let mut state = State::new();
    // Duration is serialized as a struct with two fields, so it can be
    // serialized without any derive machinery.
    state.push(Serde(&Duration::from_millis(12345)));
}

#[test]
fn serialize_list_contents() {
    let mut state = State::new();
    let x = vec![7i64, 8, 9];
    state.push(Serde(&x));
    assert_eq!(state.get_top(), 1);
    assert_eq!(state.geti(-1, 1), lua::Type::Number);
    assert_eq!(state.to_integer(-1), 7);
    state.pop(1);
    assert_eq!(state.geti(-1, 3), lua::Type::Number);
    assert_eq!(state.to_integer(-1), 9);
    state.pop(1);
    assert_eq!(state.geti(-1, 4), lua::Type::Nil);
    state.pop(2);
}

#[test]
fn serialize_u64_boundary() {
    let mut state = State::new();
    state.push(Serde(&(i64::MAX as u64)));
    assert_eq!(state.to_integer(-1), i64::MAX);
}
