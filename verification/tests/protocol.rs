//! The foreign protocol values and the call/load conventions: status and
//! tag decoding, the native-call trampoline, and the error-status
//! round trip of the load path.

use lua::trampoline;
use lua::Arithmetic;
use lua::CallFailure;
use lua::Comparison;
use lua::Function;
use lua::GcOption;
use lua::HookMask;
use lua::LoadOutcome;
use lua::State;
use lua::ThreadStatus;
use lua::Type;
use lua::MASKCALL;
use lua::MASKCOUNT;
use lua::MASKLINE;
use lua::MASKRET;

#[test]
fn status_codes_roundtrip() {
    let all = [
        ThreadStatus::Normal,
        ThreadStatus::Yield,
        ThreadStatus::RuntimeError,
        ThreadStatus::SyntaxError,
        ThreadStatus::MemoryError,
        ThreadStatus::GcError,
        ThreadStatus::MessageHandlerError,
        ThreadStatus::FileError,
    ];
    for s in all {
        assert_eq!(ThreadStatus::from_code(s.to_code()), Some(s));
    }
    assert_eq!(ThreadStatus::from_code(99), None);
    assert_eq!(ThreadStatus::from_code(-1), None);
}

#[test]
fn status_error_classification() {
    assert!(!ThreadStatus::Normal.is_err());
    assert!(!ThreadStatus::Yield.is_err());
    assert!(ThreadStatus::RuntimeError.is_err());
    assert!(ThreadStatus::SyntaxError.is_err());
    assert!(ThreadStatus::MemoryError.is_err());
    assert!(ThreadStatus::GcError.is_err());
    assert!(ThreadStatus::MessageHandlerError.is_err());
    assert!(ThreadStatus::FileError.is_err());
}

#[test]
fn type_codes_roundtrip_and_fail_closed() {
    let all = [
        Type::Absent,
        Type::Nil,
        Type::Boolean,
        Type::LightUserdata,
        Type::Number,
        Type::String,
        Type::Table,
        Type::Function,
        Type::Userdata,
        Type::Thread,
    ];
    for t in all {
        assert_eq!(Type::from_code(t.to_code()), Some(t));
    }
    // Unknown tags decode to nothing rather than aliasing a variant.
    assert_eq!(Type::from_code(9), None);
    assert_eq!(Type::from_code(-2), None);
    assert_eq!(Type::from_code(1000), None);
}

#[test]
fn operator_codes() {
    assert_eq!(Arithmetic::Add.to_code(), 0);
    assert_eq!(Arithmetic::BNot.to_code(), 13);
    assert_eq!(Comparison::Eq.to_code(), 0);
    assert_eq!(Comparison::Le.to_code(), 2);
    assert_eq!(GcOption::Stop.to_code(), 0);
    assert_eq!(GcOption::IsRunning.to_code(), 9);
}

#[test]
fn hook_masks() {
    let m = HookMask::from_bits_truncate(MASKCALL | MASKLINE | 0xffff_fff0);
    assert_eq!(m.bits(), MASKCALL | MASKLINE);
    assert!(m.contains(HookMask::from_bits_truncate(MASKCALL)));
    assert!(!m.contains(HookMask::from_bits_truncate(MASKCOUNT)));
    let u = m.union(HookMask::from_bits_truncate(MASKRET));
    assert_eq!(u.bits(), MASKCALL | MASKRET | MASKLINE);
    assert_eq!(HookMask::empty().bits(), 0);
}

#[test]
fn trampoline_roundtrip_single_integer() {
    let state = State::new();
    let (state, count) = trampoline::invoke_pushed_integer(state, 41);
    // Exactly one result, equal to the pushed integer.
    assert_eq!(count, 1);
    assert_eq!(state.get_top(), 1);
    assert_eq!(state.to_integer(-1), 41);
}

#[test]
fn trampoline_applies_result_count() {
    let state = State::new();
    let out = trampoline::call_native(state, |mut s: State| {
        s.push_integer(1);
        s.push_integer(2);
        s.push_integer(3);
        (s, 2)
    });
    let (state, count) = out.expect("the protocol was respected");
    assert_eq!(count, 2);
    assert_eq!(state.get_top(), 2);
    assert_eq!(state.to_integer(1), 2);
    assert_eq!(state.to_integer(2), 3);
}

#[test]
fn trampoline_rejects_overreported_count() {
    let state = State::new();
    let out = trampoline::call_native(state, |mut s: State| {
        s.push_integer(1);
        (s, 5)
    });
    assert!(out.is_none());
}

#[test]
fn load_failure_reports_syntax_error_with_message() {
    let mut state = State::new();
    // The parse verdict comes from the runtime's loader; applying a syntax
    // failure must surface the error status and leave the message on the
    // stack.
    let st = state.finish_load(LoadOutcome::Syntax(String::from(
        "unexpected symbol near '<'",
    )));
    assert_eq!(st, ThreadStatus::SyntaxError);
    assert!(st.is_err());
    let msg = state.to_str(-1).expect("message on the stack");
    assert!(!msg.is_empty());
    assert_eq!(msg, String::from("unexpected symbol near '<'"));
}

#[test]
fn load_success_pushes_chunk() {
    let mut state = State::new();
    let st = state.finish_load(LoadOutcome::Loaded(Function(5)));
    assert_eq!(st, ThreadStatus::Normal);
    assert!(!st.is_err());
    assert!(state.is_fn(-1));
    assert!(state.is_native_fn(-1));
    assert_eq!(state.to_native_fn(-1), Some(Function(5)));
}

#[test]
fn load_memory_failure() {
    let mut state = State::new();
    let st = state.finish_load(LoadOutcome::Memory(String::from("not enough memory")));
    assert_eq!(st, ThreadStatus::MemoryError);
    assert_eq!(state.to_str(-1), Some(String::from("not enough memory")));
}

#[test]
fn protected_call_failures_carry_messages() {
    let mut state = State::new();
    let st = state.finish_protected_call(None);
    assert_eq!(st, ThreadStatus::Normal);
    assert_eq!(state.get_top(), 0);
    let st = state.finish_protected_call(Some((
        CallFailure::Runtime,
        String::from("attempt to call a nil value"),
    )));
    assert_eq!(st, ThreadStatus::RuntimeError);
    assert_eq!(
        state.to_str(-1),
        Some(String::from("attempt to call a nil value"))
    );
    state.pop(1);
    let st = state.finish_protected_call(Some((CallFailure::Gc, String::from("gc"))));
    assert_eq!(st, ThreadStatus::GcError);
    let st = state.finish_protected_call(Some((
        CallFailure::MessageHandler,
        String::from("error in error handling"),
    )));
    assert_eq!(st, ThreadStatus::MessageHandlerError);
    let st = state.finish_protected_call(Some((CallFailure::Memory, String::from("oom"))));
    assert_eq!(st, ThreadStatus::MemoryError);
}

#[test]
fn push_fn_and_closure_token() {
    let mut state = State::new();
    state.push_fn(Function(123));
    assert!(state.is_fn(-1));
    assert_eq!(state.to_native_fn(-1), Some(Function(123)));
    assert_eq!(state.to_native_fn(-2), None);
}

#[test]
fn push_closure_consumes_upvalues() {
    let mut state = State::new();
    state.push_integer(1);
    state.push_integer(2);
    state.push_closure(Function(77), 2);
    assert_eq!(state.get_top(), 1);
    assert_eq!(state.to_native_fn(-1), Some(Function(77)));
}
