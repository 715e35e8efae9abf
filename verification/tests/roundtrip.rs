//! Push/read identity of the typed conversion layer: pushing a host
//! scalar and reading it back gives an equal value, and the one documented
//! range coercion rejects instead of wrapping.

use lua::ser;
use lua::Function;
use lua::Number;
use lua::State;

#[test]
fn roundtrip_string() {
    let mut state = State::new();
    state.push(String::from("round trip"));
    let back: Option<String> = state.to_type();
    assert_eq!(back, Some(String::from("round trip")));
    assert_eq!(state.get_top(), 1);
}

#[test]
fn roundtrip_str_slice() {
    let mut state = State::new();
    state.push("slice");
    let back: Option<String> = state.to_type();
    assert_eq!(back, Some(String::from("slice")));
}

#[test]
fn roundtrip_integer() {
    let mut state = State::new();
    state.push(-77i64);
    let back: Option<i64> = state.to_type();
    assert_eq!(back, Some(-77));
}

#[test]
fn roundtrip_number_bits_exact() {
    let mut state = State::new();
    let n = Number { bits: 0x400921fb54442d18 };
    state.push(n);
    let back: Option<Number> = state.to_type();
    assert_eq!(back, Some(n));
}

#[test]
fn roundtrip_bool() {
    let mut state = State::new();
    state.push(true);
    let back: Option<bool> = state.to_type();
    assert_eq!(back, Some(true));
    state.push(false);
    let back: Option<bool> = state.to_type();
    assert_eq!(back, Some(false));
}

#[test]
fn roundtrip_function_token() {
    let mut state = State::new();
    state.push(Function(99));
    let back: Option<Function> = state.to_type();
    assert_eq!(back, Some(Function(99)));
}

#[test]
fn roundtrip_option() {
    let mut state = State::new();
    state.push(Some(5i64));
    let back: Option<i64> = state.to_type();
    assert_eq!(back, Some(5));
    state.push(None::<i64>);
    assert!(state.is_nil(-1));
}

#[test]
fn mismatched_read_is_absent() {
    let mut state = State::new();
    state.push(true);
    let as_int: Option<i64> = state.to_type();
    assert_eq!(as_int, None);
    // The typed read stays strict, as the conversion trait declares: a
    // numeral string is not an integer value.
    state.push("5");
    let as_int: Option<i64> = state.to_type();
    assert_eq!(as_int, None);
    state.pop(1);
    let as_num: Option<Number> = state.to_type();
    assert_eq!(as_num, None);
    // The failed reads left the slot alone.
    assert_eq!(state.get_top(), 1);
    assert!(state.is_bool(-1));
}

#[test]
fn read_from_empty_stack_is_absent() {
    let mut state = State::new();
    let back: Option<i64> = state.to_type();
    assert_eq!(back, None);
}

#[test]
fn unsigned_out_of_range_is_rejected_not_wrapped() {
    let mut state = State::new();
    let over = (i64::MAX as u64) + 1;
    let r = state.push_ser_u64(over);
    assert!(matches!(r, Err(ser::Error::IntegerTooLarge(v)) if v == over));
    assert_eq!(state.get_top(), 0);
    let fits = i64::MAX as u64;
    assert!(state.push_ser_u64(fits).is_ok());
    assert_eq!(state.to_integer(-1), i64::MAX);
}
