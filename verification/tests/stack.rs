//! The stack accessor layer: index resolution, shape changes and typed
//! queries over the modelled operand stack.

use lua::Number;
use lua::State;
use lua::Type;
use lua::REGISTRYINDEX;

#[test]
fn empty_state_has_empty_stack() {
    let state = State::new();
    assert_eq!(state.get_top(), 0);
    state.close();
}

#[test]
fn push_and_query_types() {
    let mut state = State::new();
    state.push_nil();
    state.push_bool(true);
    state.push_integer(42);
    state.push_number(Number { bits: 0 });
    state.push_string("hi");
    assert_eq!(state.get_top(), 5);
    assert_eq!(state.type_of(1), Some(Type::Nil));
    assert_eq!(state.type_of(2), Some(Type::Boolean));
    assert_eq!(state.type_of(3), Some(Type::Number));
    assert_eq!(state.type_of(4), Some(Type::Number));
    assert_eq!(state.type_of(5), Some(Type::String));
    assert_eq!(state.type_of(6), None);
    assert_eq!(state.type_of(-1), Some(Type::String));
    assert!(state.is_nil(1));
    assert!(state.is_bool(2));
    assert!(state.is_integer(3));
    assert!(state.is_number(3));
    assert!(state.is_number(4));
    assert!(!state.is_integer(4));
    assert!(state.is_string(5));
    assert!(state.is_string(3));
    assert!(!state.is_string(4));
    assert!(state.is_none(6));
    assert!(state.is_none_or_nil(1));
    assert!(state.is_none_or_nil(99));
}

#[test]
fn absolute_index_resolution() {
    let mut state = State::new();
    state.push_integer(1);
    state.push_integer(2);
    state.push_integer(3);
    assert_eq!(state.abs_index(-1), 3);
    assert_eq!(state.abs_index(-3), 1);
    assert_eq!(state.abs_index(2), 2);
    assert_eq!(state.abs_index(REGISTRYINDEX), REGISTRYINDEX);
    // Resolving twice in a row without a mutation gives the same result.
    let once = state.abs_index(-2);
    let again = state.abs_index(once);
    assert_eq!(once, 2);
    assert_eq!(again, once);
}

#[test]
fn set_top_pads_and_truncates() {
    let mut state = State::new();
    state.push_integer(10);
    state.set_top(3);
    assert_eq!(state.get_top(), 3);
    assert!(state.is_nil(2));
    assert!(state.is_nil(3));
    assert_eq!(state.to_integer(1), 10);
    state.set_top(-3);
    assert_eq!(state.get_top(), 1);
    state.set_top(0);
    assert_eq!(state.get_top(), 0);
}

#[test]
fn pop_removes_top_values() {
    let mut state = State::new();
    state.push_integer(1);
    state.push_integer(2);
    state.push_integer(3);
    state.pop(2);
    assert_eq!(state.get_top(), 1);
    assert_eq!(state.to_integer(-1), 1);
}

#[test]
fn push_value_duplicates_slot() {
    let mut state = State::new();
    state.push_string("dup");
    state.push_value(1);
    assert_eq!(state.get_top(), 2);
    assert!(state.raw_equal(1, 2));
}

#[test]
fn copy_and_replace() {
    let mut state = State::new();
    state.push_integer(1);
    state.push_integer(2);
    state.push_integer(3);
    state.copy(3, 1);
    assert_eq!(state.to_integer(1), 3);
    state.push_integer(9);
    state.replace(2);
    assert_eq!(state.get_top(), 3);
    assert_eq!(state.to_integer(2), 9);
}

#[test]
fn insert_moves_top_down() {
    let mut state = State::new();
    state.push_integer(1);
    state.push_integer(2);
    state.push_integer(3);
    state.insert(1);
    assert_eq!(state.to_integer(1), 3);
    assert_eq!(state.to_integer(2), 1);
    assert_eq!(state.to_integer(3), 2);
}

#[test]
fn remove_shifts_down() {
    let mut state = State::new();
    state.push_integer(1);
    state.push_integer(2);
    state.push_integer(3);
    state.remove(2);
    assert_eq!(state.get_top(), 2);
    assert_eq!(state.to_integer(1), 1);
    assert_eq!(state.to_integer(2), 3);
}

#[test]
fn rotate_moves_segment() {
    let mut state = State::new();
    for i in 1..=5 {
        state.push_integer(i);
    }
    state.rotate(2, 1);
    assert_eq!(state.to_integer(2), 5);
    assert_eq!(state.to_integer(3), 2);
    assert_eq!(state.to_integer(4), 3);
    assert_eq!(state.to_integer(5), 4);
    state.rotate(2, -1);
    for i in 1..=5 {
        assert_eq!(state.to_integer(i), i as i64);
    }
}

#[test]
fn check_stack_reports_headroom() {
    let mut state = State::new();
    assert!(state.check_stack(10));
    assert!(state.check_stack(lua::MAXSTACK as i32));
    state.push_integer(1);
    assert!(!state.check_stack(lua::MAXSTACK as i32));
}

#[test]
fn truthiness() {
    let mut state = State::new();
    state.push_bool(false);
    state.push_nil();
    state.push_integer(0);
    state.push_string("");
    assert!(!state.to_bool(1));
    assert!(!state.to_bool(2));
    assert!(state.to_bool(3));
    assert!(state.to_bool(4));
    assert!(!state.to_bool(9));
}

#[test]
fn numeric_accessors() {
    let mut state = State::new();
    state.push_integer(7);
    state.push_number(Number { bits: 0x3ff0000000000000 });
    assert_eq!(state.to_integerx(1), Some(7));
    // A float slot does not convert: widening it to an integer is the
    // runtime's float arithmetic, outside the model.
    assert_eq!(state.to_integerx(2), None);
    assert_eq!(state.to_numberx(1), None);
    assert_eq!(state.to_numberx(2), Some(Number { bits: 0x3ff0000000000000 }));
    assert_eq!(state.to_integer(2), 0);
    assert_eq!(state.to_number(1), Number { bits: 0 });
}

#[test]
fn lenient_reads_convert_numeral_strings() {
    let mut state = State::new();
    state.push_string("42");
    state.push_string("-17");
    state.push_string("not a number");
    // A numeral string reads as its integer, without mutating the slot.
    assert_eq!(state.to_integerx(1), Some(42));
    assert_eq!(state.to_integerx(2), Some(-17));
    assert_eq!(state.to_integerx(3), None);
    assert_eq!(state.to_integer(2), -17);
    assert!(state.is_string(1));
    assert!(state.is_number(1));
    assert!(state.is_number(2));
    assert!(!state.is_number(3));
    assert!(!state.is_integer(1));
    assert_eq!(state.check_integer(1), Ok(42));
    assert_eq!(state.opt_integer(1, 5), Ok(42));
}

#[test]
fn to_str_renders_integers_without_mutating() {
    let mut state = State::new();
    state.push_integer(-250);
    assert_eq!(state.to_str(-1), Some(String::from("-250")));
    // The slot keeps its numeric subtype: the read was non-destructive.
    assert!(state.is_integer(-1));
    state.push_string("abc");
    assert_eq!(state.to_str(-1), Some(String::from("abc")));
    state.push_bool(true);
    assert_eq!(state.to_str(-1), None);
}

#[test]
fn raw_len_of_strings() {
    let mut state = State::new();
    state.push_string("hello");
    assert_eq!(state.raw_len(-1), 5);
    state.push_string("");
    assert_eq!(state.raw_len(-1), 0);
    state.push_integer(5);
    assert_eq!(state.raw_len(-1), 0);
}

#[test]
fn raw_equal_compares_primitively() {
    let mut state = State::new();
    state.push_integer(3);
    state.push_integer(3);
    state.push_string("3");
    assert!(state.raw_equal(1, 2));
    assert!(!state.raw_equal(1, 3));
    assert!(!state.raw_equal(1, 9));
    state.push_string("3");
    assert!(state.raw_equal(3, 4));
}

#[test]
fn typenames() {
    let mut state = State::new();
    assert_eq!(state.typename_of(Type::Number), String::from("number"));
    assert_eq!(state.typename_of(Type::Absent), String::from("no value"));
    state.push_string("x");
    assert_eq!(state.typename_at(1), String::from("string"));
    assert_eq!(state.typename_at(5), String::from("no value"));
}

#[test]
fn xmove_transfers_top_values() {
    let mut a = State::new();
    let mut b = State::new();
    a.push_integer(1);
    a.push_string("x");
    a.push_integer(2);
    a.xmove(&mut b, 2);
    assert_eq!(a.get_top(), 1);
    assert_eq!(a.to_integer(1), 1);
    assert_eq!(b.get_top(), 2);
    assert_eq!(b.to_str(1), Some(String::from("x")));
    assert_eq!(b.to_integer(2), 2);
}
