//! Arithmetic, comparison and concatenation over the integer numeric
//! subtype of the modelled stack.
//!
//! The foreign runtime defines integer arithmetic as wrapping two's
//! complement, division and remainder as flooring, and shifts as logical
//! shifts that fall to zero beyond the word width, with negative counts
//! shifting the other way.  Operations producing floats (true division and
//! exponentiation), float operands, and metamethod dispatch belong to the
//! runtime and stay outside the model.

use vstd::prelude::*;

use crate::state::State;
use crate::types::Arithmetic;
use crate::types::Comparison;
use crate::types::Index;
use crate::value::spec_value_eq;
use crate::value::Value;

verus! {

/// Whether the operation takes one operand rather than two.
pub open spec fn spec_unary(op: Arithmetic) -> bool {
    op is Unm || op is BNot
}

/// Whether the model can compute the operation on integers: everything
/// but the two float-producing operations.
pub open spec fn spec_integer_op(op: Arithmetic) -> bool {
    !(op is Div || op is Pow)
}

/// The magnitude of an integer, as an unbounded value.
pub open spec fn spec_abs64(x: i64) -> int {
    if x >= 0 {
        x as int
    } else {
        -(x as int)
    }
}

/// The flooring remainder of `a` by `b`: zero on exact division, else a
/// value carrying the divisor's sign whose magnitude is the remainder of
/// the magnitudes, complemented when the signs disagree.
pub open spec fn spec_imod(a: i64, b: i64) -> i64 {
    if b == -1 {
        0
    } else {
        let m = spec_abs64(a) % spec_abs64(b);
        if m == 0 {
            0
        } else if (a < 0) == (b < 0) {
            if b < 0 {
                (-m) as i64
            } else {
                m as i64
            }
        } else {
            if b < 0 {
                (b + m) as i64
            } else {
                (b - m) as i64
            }
        }
    }
}

/// The flooring quotient of `a` by `b`: the quotient of the magnitudes,
/// negated and lowered by one on an inexact division of disagreeing
/// signs.  Dividing the smallest integer by minus one wraps to itself, as
/// the runtime defines it.
pub open spec fn spec_idiv(a: i64, b: i64) -> i64 {
    if b == -1 {
        vstd::wrapping::i64_specs::wrapping_sub(0, a)
    } else {
        let uq = spec_abs64(a) / spec_abs64(b);
        let m = spec_abs64(a) % spec_abs64(b);
        if (a < 0) == (b < 0) {
            uq as i64
        } else if m == 0 {
            (-uq) as i64
        } else {
            (-uq - 1) as i64
        }
    }
}

/// A logical left shift: counts beyond the word width give zero, negative
/// counts shift right.
pub open spec fn spec_ishl(a: i64, n: i64) -> i64 {
    if n >= 64 || n <= -64 {
        0
    } else if n >= 0 {
        (((a as u64) << (n as u32)) as i64)
    } else {
        (((a as u64) >> ((-n) as u32)) as i64)
    }
}

/// A logical right shift: counts beyond the word width give zero, negative
/// counts shift left.
pub open spec fn spec_ishr(a: i64, n: i64) -> i64 {
    if n >= 64 || n <= -64 {
        0
    } else if n >= 0 {
        (((a as u64) >> (n as u32)) as i64)
    } else {
        (((a as u64) << ((-n) as u32)) as i64)
    }
}

/// The result of an integer operation; the second operand of a unary
/// operation is ignored.
pub open spec fn spec_integer_arith(op: Arithmetic, a: i64, b: i64) -> i64 {
    match op {
        Arithmetic::Add => vstd::wrapping::i64_specs::wrapping_add(a, b),
        Arithmetic::Sub => vstd::wrapping::i64_specs::wrapping_sub(a, b),
        Arithmetic::Mul => vstd::wrapping::i64_specs::wrapping_mul(a, b),
        Arithmetic::Mod => spec_imod(a, b),
        Arithmetic::IDiv => spec_idiv(a, b),
        Arithmetic::BAnd => a & b,
        Arithmetic::BOr => a | b,
        Arithmetic::BXor => a ^ b,
        Arithmetic::Shl => spec_ishl(a, b),
        Arithmetic::Shr => spec_ishr(a, b),
        Arithmetic::Unm => vstd::wrapping::i64_specs::wrapping_sub(0, a),
        Arithmetic::BNot => a ^ (-1i64),
        Arithmetic::Div => 0,
        Arithmetic::Pow => 0,
    }
}

/// Computes one integer operation.
pub fn integer_arith(op: Arithmetic, a: i64, b: i64) -> (r: i64)
    requires
        spec_integer_op(op),
        (op is Mod || op is IDiv) ==> b != 0,
    ensures
        r == spec_integer_arith(op, a, b),
{
    match op {
        Arithmetic::Add => a.wrapping_add(b),
        Arithmetic::Sub => a.wrapping_sub(b),
        Arithmetic::Mul => a.wrapping_mul(b),
        Arithmetic::Mod => imod(a, b),
        Arithmetic::IDiv => idiv(a, b),
        Arithmetic::BAnd => a & b,
        Arithmetic::BOr => a | b,
        Arithmetic::BXor => a ^ b,
        Arithmetic::Shl => ishl(a, b),
        Arithmetic::Shr => ishr(a, b),
        Arithmetic::Unm => 0i64.wrapping_sub(a),
        Arithmetic::BNot => a ^ (-1i64),
        Arithmetic::Div => 0,
        Arithmetic::Pow => 0,
    }
}

/// The magnitude of an integer, as an unsigned value.
fn magnitude(x: i64) -> (r: u64)
    ensures
        r as int == spec_abs64(x),
{
    if x >= 0 {
        x as u64
    } else {
        ((-(x + 1)) as u64) + 1
    }
}

/// The flooring remainder, computed on the magnitudes so that the sign
/// rules are explicit.
fn imod(a: i64, b: i64) -> (r: i64)
    requires
        b != 0,
    ensures
        r == spec_imod(a, b),
{
    if b == -1 {
        return 0;
    }
    let ua = magnitude(a);
    let ub = magnitude(b);
    let m = ua % ub;
    proof {
        assert(m as int == spec_abs64(a) % spec_abs64(b));
        assert((m as int) < spec_abs64(b));
    }
    if m == 0 {
        0
    } else if (a < 0) == (b < 0) {
        if b < 0 {
            -(m as i64)
        } else {
            m as i64
        }
    } else {
        if b < 0 {
            b + (m as i64)
        } else {
            b - (m as i64)
        }
    }
}

/// The flooring quotient, computed on the magnitudes so that the sign
/// rules are explicit.
fn idiv(a: i64, b: i64) -> (r: i64)
    requires
        b != 0,
    ensures
        r == spec_idiv(a, b),
{
    if b == -1 {
        return 0i64.wrapping_sub(a);
    }
    let ua = magnitude(a);
    let ub = magnitude(b);
    let uq = ua / ub;
    let m = ua % ub;
    proof {
        assert(uq as int == spec_abs64(a) / spec_abs64(b));
        assert(m as int == spec_abs64(a) % spec_abs64(b));
        assert(spec_abs64(b) >= 1);
        vstd::arithmetic::div_mod::lemma_div_is_ordered_by_denominator(
            spec_abs64(a),
            1,
            spec_abs64(b),
        );
        vstd::arithmetic::div_mod::lemma_div_basics(spec_abs64(a));
        assert(uq as int <= spec_abs64(a));
        if spec_abs64(b) >= 2 {
            vstd::arithmetic::div_mod::lemma_div_is_ordered_by_denominator(
                spec_abs64(a),
                2,
                spec_abs64(b),
            );
            assert(uq as int <= spec_abs64(a) / 2);
        }
    }
    if (a < 0) == (b < 0) {
        proof {
            if b < 0 {
                assert(spec_abs64(b) >= 2);
            }
        }
        uq as i64
    } else if m == 0 {
        if uq >= 0x8000000000000000 {
            i64::MIN
        } else {
            -(uq as i64)
        }
    } else {
        proof {
            if b > 0 {
                assert(a < 0);
                assert(spec_abs64(b) >= 2) by {
                    if b == 1 {
                        assert(spec_abs64(a) % 1 == 0);
                    }
                }
            } else {
                assert(spec_abs64(b) >= 2);
            }
        }
        -(uq as i64) - 1
    }
}

/// The logical left shift.
fn ishl(a: i64, n: i64) -> (r: i64)
    ensures
        r == spec_ishl(a, n),
{
    if n >= 64 || n <= -64 {
        0
    } else if n >= 0 {
        (((a as u64) << (n as u32)) as i64)
    } else {
        (((a as u64) >> ((-n) as u32)) as i64)
    }
}

/// The logical right shift.
fn ishr(a: i64, n: i64) -> (r: i64)
    ensures
        r == spec_ishr(a, n),
{
    if n >= 64 || n <= -64 {
        0
    } else if n >= 0 {
        (((a as u64) >> (n as u32)) as i64)
    } else {
        (((a as u64) << ((-n) as u32)) as i64)
    }
}

impl State {
    /// Performs an arithmetic operation on the integer value(s) on top of
    /// the stack: pops the operands (one for a unary operation, two
    /// otherwise) and pushes the result.  Float operands, the two
    /// float-producing operations and metamethod fallbacks are the
    /// runtime's work and are excluded by precondition, as is the zero
    /// divisor, which the runtime rejects by raising an error.
    pub fn arith(&mut self, op: Arithmetic)
        requires
            old(self).wf(),
            spec_integer_op(op),
            old(self).top() >= if spec_unary(op) {
                1int
            } else {
                2int
            },
            old(self).stack@.last() is Integer,
            !spec_unary(op) ==> old(self).stack@[old(self).top() - 2] is Integer,
            (op is Mod || op is IDiv) ==> old(self).stack@.last()->Integer_0 != 0,
        ensures
            final(self).wf(),
            State::same_frame(*old(self), *final(self)),
            spec_unary(op) ==> final(self).stack@ == old(self).stack@.drop_last().push(
                Value::Integer(
                    spec_integer_arith(op, old(self).stack@.last()->Integer_0, 0),
                ),
            ),
            !spec_unary(op) ==> final(self).stack@ == old(self).stack@.subrange(
                0,
                old(self).top() - 2,
            ).push(
                Value::Integer(
                    spec_integer_arith(
                        op,
                        old(self).stack@[old(self).top() - 2]->Integer_0,
                        old(self).stack@.last()->Integer_0,
                    ),
                ),
            ),
    {
        let unary = matches!(op, Arithmetic::Unm | Arithmetic::BNot);
        let top_val = match self.stack.pop().unwrap() {
            Value::Integer(i) => i,
            _ => 0,
        };
        if unary {
            let r = integer_arith(op, top_val, 0);
            self.stack.push(Value::Integer(r));
            proof {
                assert(self.stack@ =~= old(self).stack@.drop_last().push(
                    Value::Integer(
                        spec_integer_arith(op, old(self).stack@.last()->Integer_0, 0),
                    ),
                ));
            }
        } else {
            let below = match self.stack.pop().unwrap() {
                Value::Integer(i) => i,
                _ => 0,
            };
            let r = integer_arith(op, below, top_val);
            self.stack.push(Value::Integer(r));
            proof {
                assert(self.stack@ =~= old(self).stack@.subrange(0, old(self).top() - 2).push(
                    Value::Integer(
                        spec_integer_arith(
                            op,
                            old(self).stack@[old(self).top() - 2]->Integer_0,
                            old(self).stack@.last()->Integer_0,
                        ),
                    ),
                ));
            }
        }
    }

    /// Compares the values at the two indexes.  Equality is primitive
    /// value equality; the orderings are defined on two integers.  Mixed
    /// numeric comparisons, string ordering and metamethod dispatch stay
    /// with the runtime.
    pub fn compare(&self, idx1: Index, idx2: Index, op: Comparison) -> (r: bool)
        requires
            self.wf(),
            op is Eq || (self.spec_resolves(idx1 as int) && self.spec_slot(idx1 as int) is Integer
                && self.spec_resolves(idx2 as int) && self.spec_slot(idx2 as int) is Integer),
        ensures
            op is Eq ==> r == (self.spec_resolves(idx1 as int) && self.spec_resolves(idx2 as int)
                && spec_value_eq(self.spec_slot(idx1 as int), self.spec_slot(idx2 as int))),
            op is Lt ==> r == (self.spec_slot(idx1 as int)->Integer_0 < self.spec_slot(
                idx2 as int,
            )->Integer_0),
            op is Le ==> r == (self.spec_slot(idx1 as int)->Integer_0 <= self.spec_slot(
                idx2 as int,
            )->Integer_0),
    {
        match op {
            Comparison::Eq => self.raw_equal(idx1, idx2),
            Comparison::Lt => self.to_integer(idx1) < self.to_integer(idx2),
            Comparison::Le => self.to_integer(idx1) <= self.to_integer(idx2),
        }
    }
}

} // verus!
