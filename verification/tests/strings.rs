//! Integer arithmetic, comparison, concatenation and substitution over
//! the modelled stack.

use lua::Arithmetic;
use lua::Comparison;
use lua::State;

#[test]
fn arith_wrapping_add_sub_mul() {
    let mut state = State::new();
    state.push_integer(i64::MAX);
    state.push_integer(1);
    state.arith(Arithmetic::Add);
    assert_eq!(state.to_integer(-1), i64::MIN);
    state.pop(1);
    state.push_integer(i64::MIN);
    state.push_integer(1);
    state.arith(Arithmetic::Sub);
    assert_eq!(state.to_integer(-1), i64::MAX);
    state.pop(1);
    state.push_integer(6);
    state.push_integer(7);
    state.arith(Arithmetic::Mul);
    assert_eq!(state.to_integer(-1), 42);
}

#[test]
fn arith_floor_division_and_remainder() {
    let mut state = State::new();
    state.push_integer(7);
    state.push_integer(2);
    state.arith(Arithmetic::IDiv);
    assert_eq!(state.to_integer(-1), 3);
    state.pop(1);
    state.push_integer(-7);
    state.push_integer(2);
    state.arith(Arithmetic::IDiv);
    // Flooring: the quotient of -7 by 2 is -4, not -3.
    assert_eq!(state.to_integer(-1), -4);
    state.pop(1);
    state.push_integer(-7);
    state.push_integer(2);
    state.arith(Arithmetic::Mod);
    // The remainder carries the divisor's sign: -7 mod 2 is 1.
    assert_eq!(state.to_integer(-1), 1);
    state.pop(1);
    state.push_integer(7);
    state.push_integer(3);
    state.arith(Arithmetic::Mod);
    assert_eq!(state.to_integer(-1), 1);
}

#[test]
fn arith_negative_divisors_floor() {
    let mut state = State::new();
    state.push_integer(7);
    state.push_integer(-2);
    state.arith(Arithmetic::IDiv);
    assert_eq!(state.to_integer(-1), -4);
    state.pop(1);
    state.push_integer(-7);
    state.push_integer(-2);
    state.arith(Arithmetic::IDiv);
    assert_eq!(state.to_integer(-1), 3);
    state.pop(1);
    state.push_integer(7);
    state.push_integer(-2);
    state.arith(Arithmetic::Mod);
    // The remainder carries the divisor's sign: 7 mod -2 is -1.
    assert_eq!(state.to_integer(-1), -1);
    state.pop(1);
    state.push_integer(-7);
    state.push_integer(-2);
    state.arith(Arithmetic::Mod);
    assert_eq!(state.to_integer(-1), -1);
    state.pop(1);
    // Dividing the smallest integer by minus one wraps to itself, with a
    // zero remainder.
    state.push_integer(i64::MIN);
    state.push_integer(-1);
    state.arith(Arithmetic::IDiv);
    assert_eq!(state.to_integer(-1), i64::MIN);
    state.pop(1);
    state.push_integer(i64::MIN);
    state.push_integer(-1);
    state.arith(Arithmetic::Mod);
    assert_eq!(state.to_integer(-1), 0);
    state.pop(1);
    state.push_integer(i64::MIN);
    state.push_integer(1);
    state.arith(Arithmetic::IDiv);
    assert_eq!(state.to_integer(-1), i64::MIN);
}

#[test]
fn arith_bitwise_and_shifts() {
    let mut state = State::new();
    state.push_integer(0b1100);
    state.push_integer(0b1010);
    state.arith(Arithmetic::BAnd);
    assert_eq!(state.to_integer(-1), 0b1000);
    state.pop(1);
    state.push_integer(0b1100);
    state.push_integer(0b1010);
    state.arith(Arithmetic::BOr);
    assert_eq!(state.to_integer(-1), 0b1110);
    state.pop(1);
    state.push_integer(0b1100);
    state.push_integer(0b1010);
    state.arith(Arithmetic::BXor);
    assert_eq!(state.to_integer(-1), 0b0110);
    state.pop(1);
    state.push_integer(1);
    state.push_integer(70);
    state.arith(Arithmetic::Shl);
    // A shift count beyond the word width gives zero.
    assert_eq!(state.to_integer(-1), 0);
    state.pop(1);
    state.push_integer(1);
    state.push_integer(3);
    state.arith(Arithmetic::Shl);
    assert_eq!(state.to_integer(-1), 8);
    state.pop(1);
    state.push_integer(-1);
    state.push_integer(1);
    state.arith(Arithmetic::Shr);
    // Shifts are logical, not arithmetic.
    assert_eq!(state.to_integer(-1), i64::MAX);
    state.pop(1);
    state.push_integer(8);
    state.push_integer(-2);
    state.arith(Arithmetic::Shr);
    // A negative count shifts the other way.
    assert_eq!(state.to_integer(-1), 32);
}

#[test]
fn arith_unary() {
    let mut state = State::new();
    state.push_integer(5);
    state.arith(Arithmetic::Unm);
    assert_eq!(state.to_integer(-1), -5);
    state.pop(1);
    state.push_integer(i64::MIN);
    state.arith(Arithmetic::Unm);
    // Negating the smallest integer wraps to itself.
    assert_eq!(state.to_integer(-1), i64::MIN);
    state.pop(1);
    state.push_integer(0);
    state.arith(Arithmetic::BNot);
    assert_eq!(state.to_integer(-1), -1);
}

#[test]
fn compare_integers_and_equality() {
    let mut state = State::new();
    state.push_integer(2);
    state.push_integer(3);
    assert!(state.compare(1, 2, Comparison::Lt));
    assert!(state.compare(1, 2, Comparison::Le));
    assert!(!state.compare(2, 1, Comparison::Lt));
    assert!(!state.compare(1, 2, Comparison::Eq));
    state.push_integer(3);
    assert!(state.compare(2, 3, Comparison::Eq));
    state.push_string("x");
    state.push_string("x");
    assert!(state.compare(4, 5, Comparison::Eq));
}

#[test]
fn concat_joins_strings_and_integers() {
    let mut state = State::new();
    state.push_string("value: ");
    state.push_integer(-3);
    state.push_string("!");
    state.concat(3);
    assert_eq!(state.get_top(), 1);
    assert_eq!(state.to_str(-1), Some(String::from("value: -3!")));
}

#[test]
fn concat_edge_counts() {
    let mut state = State::new();
    state.concat(0);
    assert_eq!(state.to_str(-1), Some(String::from("")));
    state.pop(1);
    state.push_integer(7);
    state.concat(1);
    // A single value is left untouched, still an integer.
    assert!(state.is_integer(-1));
}

#[test]
fn gsub_replaces_every_occurrence() {
    let mut state = State::new();
    let out = state.gsub("hello world, hello moon", "hello", "bye");
    assert_eq!(out, String::from("bye world, bye moon"));
    assert_eq!(state.to_str(-1), Some(String::from("bye world, bye moon")));
}

#[test]
fn gsub_scans_without_overlap() {
    let mut state = State::new();
    assert_eq!(state.gsub("aaaa", "aa", "b"), String::from("bb"));
    assert_eq!(state.gsub("abc", "z", "y"), String::from("abc"));
    assert_eq!(state.gsub("abc", "abc", ""), String::from(""));
    assert_eq!(state.gsub("", "x", "y"), String::from(""));
}

#[test]
fn len_pushes_length() {
    let mut state = State::new();
    state.push_string("four");
    state.len(-1);
    assert_eq!(state.to_integer(-1), 4);
    state.pop(2);
    state.new_table();
    state.push_string("x");
    state.seti(-2, 1);
    state.push_string("y");
    state.seti(-2, 2);
    assert_eq!(state.len_direct(-1), 2);
    state.len(-1);
    assert_eq!(state.to_integer(-1), 2);
}

#[test]
fn string_to_number_reads_decimals() {
    let mut state = State::new();
    assert_eq!(state.string_to_number("123"), 4);
    assert_eq!(state.to_integer(-1), 123);
    assert_eq!(state.string_to_number("-45"), 4);
    assert_eq!(state.to_integer(-1), -45);
    assert_eq!(state.string_to_number("+007"), 5);
    assert_eq!(state.to_integer(-1), 7);
    assert_eq!(state.string_to_number("9223372036854775807"), 20);
    assert_eq!(state.to_integer(-1), i64::MAX);
    assert_eq!(state.string_to_number("-9223372036854775808"), 21);
    assert_eq!(state.to_integer(-1), i64::MIN);
    let depth = state.get_top();
    // Rejections push nothing.
    assert_eq!(state.string_to_number(""), 0);
    assert_eq!(state.string_to_number("12x"), 0);
    assert_eq!(state.string_to_number("-"), 0);
    assert_eq!(state.string_to_number("9223372036854775808"), 0);
    assert_eq!(state.string_to_number("99999999999999999999999"), 0);
    assert_eq!(state.get_top(), depth);
}
