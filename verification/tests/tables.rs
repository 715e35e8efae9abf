//! Tables, globals and the persistent reference registry of the model.

use lua::Function;
use lua::Reference;
use lua::State;
use lua::Type;
use lua::NOREF;
use lua::REFNIL;
use lua::REGISTRYINDEX;

#[test]
fn table_set_and_get_field() {
    let mut state = State::new();
    state.new_table();
    state.push_integer(5);
    state.set_field(-2, "answer");
    assert_eq!(state.get_top(), 1);
    assert_eq!(state.get_field(-1, "answer"), Type::Number);
    assert_eq!(state.to_integer(-1), 5);
    state.pop(1);
    assert_eq!(state.get_field(-1, "missing"), Type::Nil);
}

#[test]
fn table_assigning_nil_removes() {
    let mut state = State::new();
    state.new_table();
    state.push_string("v");
    state.set_field(-2, "k");
    assert_eq!(state.get_field(-1, "k"), Type::String);
    state.pop(1);
    state.push_nil();
    state.set_field(-2, "k");
    assert_eq!(state.get_field(-1, "k"), Type::Nil);
}

#[test]
fn table_integer_keys() {
    let mut state = State::new();
    state.new_table();
    state.push_string("first");
    state.seti(-2, 1);
    state.push_string("second");
    state.seti(-2, 2);
    assert_eq!(state.geti(-1, 1), Type::String);
    assert_eq!(state.to_str(-1), Some(String::from("first")));
    state.pop(1);
    assert_eq!(state.raw_len(-1), 2);
}

#[test]
fn raw_set_and_raw_get() {
    let mut state = State::new();
    state.new_table();
    state.push_string("key");
    state.push_integer(9);
    state.raw_set(-3);
    assert_eq!(state.get_top(), 1);
    state.push_string("key");
    assert_eq!(state.raw_get(-2), Type::Number);
    assert_eq!(state.to_integer(-1), 9);
}

#[test]
fn table_aliasing_is_by_identity() {
    let mut state = State::new();
    state.new_table();
    state.push_value(-1);
    // Both slots name the same table object.
    assert!(state.raw_equal(1, 2));
    state.push_integer(1);
    state.set_field(2, "shared");
    assert_eq!(state.get_field(1, "shared"), Type::Number);
}

#[test]
fn globals_roundtrip() {
    let mut state = State::new();
    state.push_integer(11);
    state.set_global("eleven");
    assert_eq!(state.get_top(), 0);
    assert_eq!(state.get_global("eleven"), Type::Number);
    assert_eq!(state.to_integer(-1), 11);
    state.pop(1);
    assert_eq!(state.get_global("nothing"), Type::Nil);
    state.pop(1);
    state.push_global_table();
    assert_eq!(state.get_field(-1, "eleven"), Type::Number);
}

#[test]
fn next_traverses_all_entries() {
    let mut state = State::new();
    state.new_table();
    state.push_integer(1);
    state.set_field(-2, "a");
    state.push_integer(2);
    state.set_field(-2, "b");
    let mut seen = Vec::new();
    state.push_nil();
    while state.next(-2) {
        let key = state.to_str(-2).expect("string key");
        let val = state.to_integer(-1);
        seen.push((key, val));
        state.pop(1);
    }
    assert_eq!(state.get_top(), 1);
    seen.sort();
    assert_eq!(
        seen,
        vec![(String::from("a"), 1), (String::from("b"), 2)]
    );
}

#[test]
fn get_subtable_creates_once() {
    let mut state = State::new();
    state.new_table();
    assert!(!state.get_subtable(-1, "sub"));
    state.push_integer(3);
    state.set_field(-2, "inner");
    state.pop(1);
    assert!(state.get_subtable(-1, "sub"));
    assert_eq!(state.get_field(-1, "inner"), Type::Number);
}

#[test]
fn set_fns_registers_functions() {
    let mut state = State::new();
    state.new_table();
    let fns = vec![
        (String::from("alpha"), Function(1)),
        (String::from("beta"), Function(2)),
    ];
    state.set_fns(&fns, 0);
    assert_eq!(state.get_top(), 1);
    assert_eq!(state.get_field(-1, "alpha"), Type::Function);
    state.pop(1);
    assert_eq!(state.get_field(-1, "beta"), Type::Function);
}

#[test]
fn set_fns_with_upvalues_pops_them() {
    let mut state = State::new();
    state.new_table();
    state.push_integer(10);
    state.push_integer(20);
    let fns = vec![(String::from("shared"), Function(5))];
    // The two upvalue slots above the table are consumed; the table stays.
    state.set_fns(&fns, 2);
    assert_eq!(state.get_top(), 1);
    assert!(state.is_table(-1));
    assert_eq!(state.get_field(-1, "shared"), Type::Function);
}

#[test]
fn new_lib_builds_table() {
    let mut state = State::new();
    let fns = vec![
        (String::from("f"), Function(10)),
        (String::from("g"), Function(20)),
    ];
    state.new_lib(&fns);
    assert_eq!(state.get_top(), 1);
    assert!(state.is_table(-1));
    assert_eq!(state.get_field(-1, "g"), Type::Function);
    assert_eq!(state.to_native_fn(-1), Some(Function(20)));
    state.pop(1);
    assert_eq!(state.get_field(-1, "h"), Type::Nil);
}

#[test]
fn new_lib_table_is_empty() {
    let mut state = State::new();
    let fns = vec![(String::from("f"), Function(1))];
    state.new_lib_table(&fns);
    assert!(state.is_table(-1));
    assert_eq!(state.get_field(-1, "f"), Type::Nil);
}

#[test]
fn references_pin_and_release() {
    let mut state = State::new();
    state.push_string("pinned");
    let r = state.reference(REGISTRYINDEX);
    assert!(r.value() >= 1);
    assert_eq!(state.get_top(), 0);
    assert_eq!(state.registry_geti(r.value() as i64), Type::String);
    assert_eq!(state.to_str(-1), Some(String::from("pinned")));
    state.pop(1);
    state.unreference(REGISTRYINDEX, r);
    assert_eq!(state.registry_geti(r.value() as i64), Type::Nil);
}

#[test]
fn reference_slots_recycle() {
    let mut state = State::new();
    state.push_integer(1);
    let r1 = state.reference(REGISTRYINDEX);
    state.push_integer(2);
    let r2 = state.reference(REGISTRYINDEX);
    assert_ne!(r1, r2);
    state.unreference(REGISTRYINDEX, r1);
    state.push_integer(3);
    let r3 = state.reference(REGISTRYINDEX);
    // The freed slot is reused.
    assert_eq!(r1, r3);
    assert_eq!(state.registry_geti(r2.value() as i64), Type::Number);
    assert_eq!(state.to_integer(-1), 2);
}

#[test]
fn reference_of_nil_is_the_sentinel() {
    let mut state = State::new();
    state.push_nil();
    let r = state.reference(REGISTRYINDEX);
    assert_eq!(r.value(), REFNIL);
    assert!(r.is_nil_ref());
    assert!(!r.is_no_ref());
    assert!(Reference(NOREF).is_no_ref());
}

#[test]
fn registry_preseeds_globals_slot() {
    let mut state = State::new();
    assert_eq!(state.registry_geti(lua::RIDX_GLOBALS), Type::Table);
    assert_eq!(state.registry_geti(lua::RIDX_MAINTHREAD), Type::Thread);
}
