//! The argument-unpacking protocol and the checked-argument helpers.

use lua::ArgError;
use lua::ArgKind;
use lua::ArgValue;
use lua::State;

#[test]
fn unpack_reports_expected_count_when_short() {
    let mut state = State::new();
    state.push_string("only one");
    let declared = vec![ArgKind::Str, ArgKind::Int];
    let r = state.convert_arguments(&declared);
    match r {
        Err(ArgError::TooFew { expected }) => {
            assert_eq!(expected, 2);
        }
        other => panic!("expected a count mismatch, got {:?}", other),
    }
    let e = ArgError::TooFew { expected: 2 };
    assert_eq!(e.message(), String::from("2 argument(s) expected"));
    // Nothing was consumed.
    assert_eq!(state.get_top(), 1);
}

#[test]
fn unpack_reports_first_mismatch_position() {
    let mut state = State::new();
    state.push_bool(true);
    state.push_integer(5);
    let declared = vec![ArgKind::Str, ArgKind::Int];
    let r = state.convert_arguments(&declared);
    match r {
        Err(ArgError::Mismatch { position, expected }) => {
            assert_eq!(position, 1);
            assert_eq!(expected, ArgKind::Str);
        }
        other => panic!("expected a mismatch at position 1, got {:?}", other),
    }
    assert_eq!(state.get_top(), 2);
}

#[test]
fn unpack_reports_mismatch_for_non_numeric_text() {
    let mut state = State::new();
    state.push_string("not-a-number");
    state.push_integer(5);
    let declared = vec![ArgKind::Int, ArgKind::Int];
    let r = state.convert_arguments(&declared);
    match r {
        Err(ArgError::Mismatch { position, expected }) => {
            assert_eq!(position, 1);
            assert_eq!(expected, ArgKind::Int);
            let e = ArgError::Mismatch { position, expected };
            assert_eq!(
                e.message(),
                String::from("bad argument #1 (integer expected)")
            );
        }
        other => panic!("expected a mismatch at position 1, got {:?}", other),
    }
}

#[test]
fn unpack_succeeds_and_preserves_depth() {
    let mut state = State::new();
    state.push_string("abc");
    state.push_integer(5);
    let depth_before = state.get_top();
    let declared = vec![ArgKind::Str, ArgKind::Int];
    let r = state.convert_arguments(&declared).expect("unpack should succeed");
    assert_eq!(r.len(), 2);
    assert!(matches!(&r[0], ArgValue::Str(s) if s == "abc"));
    assert!(matches!(&r[1], ArgValue::Int(5)));
    assert_eq!(state.get_top(), depth_before);
}

#[test]
fn unpack_ignores_values_below_the_declared_window() {
    let mut state = State::new();
    state.push_bool(false);
    state.push_string("abc");
    state.push_integer(5);
    let declared = vec![ArgKind::Str, ArgKind::Int];
    let r = state.convert_arguments(&declared).expect("unpack should succeed");
    assert!(matches!(&r[0], ArgValue::Str(s) if s == "abc"));
    assert!(matches!(&r[1], ArgValue::Int(5)));
}

#[test]
fn unpack_converts_integers_to_text() {
    let mut state = State::new();
    state.push_integer(12);
    let declared = vec![ArgKind::Str];
    let r = state.convert_arguments(&declared).expect("an integer reads as text");
    assert!(matches!(&r[0], ArgValue::Str(s) if s == "12"));
}

#[test]
fn check_helpers() {
    let mut state = State::new();
    state.push_integer(10);
    state.push_string("opt");
    assert_eq!(state.check_integer(1), Ok(10));
    assert!(matches!(
        state.check_integer(2),
        Err(ArgError::Mismatch { position: 2, expected: ArgKind::Int })
    ));
    assert_eq!(state.check_string(2), Ok(String::from("opt")));
    assert_eq!(state.opt_integer(3, 42), Ok(42));
    assert_eq!(state.opt_integer(1, 42), Ok(10));
    assert_eq!(state.opt_string(3, "fallback"), Ok(String::from("fallback")));
    assert_eq!(state.opt_string(2, "fallback"), Ok(String::from("opt")));
}

#[test]
fn arg_check_and_error() {
    let state = State::new();
    assert!(state.arg_check(true, 1, "never shown").is_ok());
    let e = state.arg_check(false, 3, "index out of range").unwrap_err();
    assert_eq!(
        e.message(),
        String::from("bad argument #3 (index out of range)")
    );
    let e2 = state.arg_error(1, "boom");
    assert!(matches!(e2, ArgError::WithMessage { position: 1, .. }));
}

#[test]
fn check_option_finds_and_rejects() {
    let mut state = State::new();
    state.push_string("two");
    let options = vec![
        String::from("one"),
        String::from("two"),
        String::from("three"),
    ];
    assert_eq!(state.check_option(1, None, &options), Ok(1));
    assert_eq!(state.check_option(2, Some("three"), &options), Ok(2));
    assert!(matches!(
        state.check_option(2, None, &options),
        Err(ArgError::Mismatch { position: 2, expected: ArgKind::Str })
    ));
    let mut state2 = State::new();
    state2.push_string("none-such");
    let e = state2.check_option(1, None, &options).unwrap_err();
    assert_eq!(
        e.message(),
        String::from("bad argument #1 (invalid option 'none-such')")
    );
}
