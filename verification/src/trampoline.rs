//! The native-call trampoline: handing control to a registered host
//! function and interpreting the result count it reports.
//!
//! The foreign calling convention passes a bare instance handle to the
//! native function and reads its integer return as "this many of the
//! top-of-stack values are the results".  The verified dispatcher performs
//! exactly that protocol on the model: whatever stack the native function
//! left, the reported count selects its top values as results and
//! everything above the caller's frame base below them is discarded.  A
//! count exceeding what the function left is the one protocol violation a
//! native function can commit; it is detected and reported instead of
//! reaching an unchecked stack access.

use vstd::prelude::*;

use crate::state::State;
use crate::table::spec_valid_value;
use crate::value::Value;

verus! {

impl State {
    /// Applies the result protocol: keeps the first `base` values and the
    /// top `n` values, discarding everything between.
    pub fn take_results(self, base: usize, n: usize) -> (t: State)
        requires
            self.wf(),
            base + n <= self.stack@.len(),
        ensures
            t.wf(),
            State::same_frame(self, t),
            t.stack@ == self.stack@.subrange(0, base as int) + self.stack@.subrange(
                self.stack@.len() - n,
                self.stack@.len() as int,
            ),
    {
        let mut st = self;
        let len = st.stack.len();
        let mut picked: Vec<Value> = Vec::new();
        let mut i: usize = 0;
        while i < base
            invariant
                base + n <= len,
                len == st.stack@.len(),
                st == self,
                self.wf(),
                i <= base,
                picked@ == self.stack@.subrange(0, i as int),
            decreases base - i,
        {
            let v = st.stack[i].duplicate();
            picked.push(v);
            proof {
                assert(picked@ =~= self.stack@.subrange(0, i + 1));
            }
            i = i + 1;
        }
        let mut j: usize = 0;
        while j < n
            invariant
                base + n <= len,
                len == st.stack@.len(),
                st == self,
                self.wf(),
                j <= n,
                picked@ == self.stack@.subrange(0, base as int) + self.stack@.subrange(
                    len - n,
                    (len - n + j) as int,
                ),
            decreases n - j,
        {
            let v = st.stack[len - n + j].duplicate();
            picked.push(v);
            proof {
                assert(picked@ =~= self.stack@.subrange(0, base as int) + self.stack@.subrange(
                    len - n,
                    (len - n + j + 1) as int,
                ));
            }
            j = j + 1;
        }
        st.stack = picked;
        proof {
            assert(self.stack@.subrange(len - n, len as int) == self.stack@.subrange(
                self.stack@.len() - n,
                self.stack@.len() as int,
            ));
            assert forall|q: int| 0 <= q < st.stack@.len() implies spec_valid_value(
                #[trigger] st.stack@[q],
                st.tables@.len() as int,
            ) by {
                if q < base {
                    assert(st.stack@[q] == self.stack@[q]);
                } else {
                    assert(st.stack@[q] == self.stack@[len - n + (q - base)]);
                }
            }
        }
        st
    }
}

/// Dispatches a native function through the calling convention: runs it on
/// the instance, reads the result count it reports, and keeps exactly that
/// many top-of-stack values as the results above the caller's frame base.
/// Nothing is assumed about what the function did beyond its own contract;
/// a reported count larger than the stack it left is rejected as a
/// protocol violation.
pub fn call_native<F: Fn(State) -> (State, u32)>(s: State, f: F) -> (r: Option<(State, u32)>)
    requires
        s.wf(),
        call_requires(f, (s,)),
        forall|m: State, n: u32| #[trigger] call_ensures(f, (s,), (m, n)) ==> m.wf(),
    ensures
        match r {
            Some(out) => exists|mid: State, n: u32|
                {
                    &&& #[trigger] call_ensures(f, (s,), (mid, n))
                    &&& out.1 == n
                    &&& s.stack@.len() + n as int <= mid.stack@.len()
                    &&& out.0.stack@ == mid.stack@.subrange(0, s.stack@.len() as int)
                        + mid.stack@.subrange(
                        mid.stack@.len() - n as int,
                        mid.stack@.len() as int,
                    )
                    &&& out.0.wf()
                    &&& State::same_frame(mid, out.0)
                },
            None => exists|mid: State, n: u32|
                #[trigger] call_ensures(f, (s,), (mid, n)) && s.stack@.len() + n as int
                    > mid.stack@.len(),
        },
{
    let base = s.stack.len();
    let (mid, n) = f(s);
    let ghost gmid = mid;
    if (n as usize) <= mid.stack.len() && base <= mid.stack.len() - (n as usize) {
        let t = mid.take_results(base, n as usize);
        proof {
            assert(call_ensures(f, (s,), (gmid, n)));
            assert(s.stack@.len() + n as int <= gmid.stack@.len());
            assert(t.stack@ == gmid.stack@.subrange(0, s.stack@.len() as int)
                + gmid.stack@.subrange(
                gmid.stack@.len() - n as int,
                gmid.stack@.len() as int,
            ));
        }
        Some((t, n))
    } else {
        proof {
            assert(call_ensures(f, (s,), (gmid, n)));
            assert(s.stack@.len() + n as int > gmid.stack@.len());
        }
        None
    }
}

/// The trampoline round trip: dispatching a native function that pushes
/// one integer result and reports one result leaves exactly one new stack
/// value, equal to that integer, and the reported result count is one.
pub fn invoke_pushed_integer(s: State, k: i64) -> (r: (State, u32))
    requires
        s.wf(),
        s.top() < s.cap as int,
    ensures
        r.1 == 1,
        r.0.wf(),
        r.0.stack@ == s.stack@.push(Value::Integer(k)),
        State::same_frame(s, r.0),
{
    let f = |t: State| -> (out: (State, u32))
        requires
            t.wf(),
            t.top() < t.cap as int,
        ensures
            out.0.wf(),
            out.0.stack@ == t.stack@.push(Value::Integer(k)),
            out.1 == 1,
            State::same_frame(t, out.0),
        {
            let mut t2 = t;
            t2.push_integer(k);
            (t2, 1u32)
        };
    let ghost gs = s;
    match call_native(s, f) {
        Some(out) => {
            proof {
                let (mid, n) = choose|mid: State, n: u32|
                    {
                        &&& #[trigger] call_ensures(f, (gs,), (mid, n))
                        &&& out.1 == n
                        &&& gs.stack@.len() + n as int <= mid.stack@.len()
                        &&& out.0.stack@ == mid.stack@.subrange(0, gs.stack@.len() as int)
                            + mid.stack@.subrange(
                            mid.stack@.len() - n as int,
                            mid.stack@.len() as int,
                        )
                        &&& out.0.wf()
                        &&& State::same_frame(mid, out.0)
                    };
                assert(mid.stack@ == gs.stack@.push(Value::Integer(k)));
                assert(mid.stack@.subrange(0, gs.stack@.len() as int) =~= gs.stack@);
                assert(mid.stack@.subrange(
                    mid.stack@.len() - 1,
                    mid.stack@.len() as int,
                ) =~= seq![Value::Integer(k)]);
                assert(out.0.stack@ =~= gs.stack@.push(Value::Integer(k)));
            }
            out
        },
        None => {
            proof {
                let (mid, n) = choose|mid: State, n: u32|
                    #[trigger] call_ensures(f, (gs,), (mid, n)) && gs.stack@.len() + n as int
                        > mid.stack@.len();
                assert(mid.stack@.len() == gs.stack@.len() + 1 && n == 1);
                assert(false);
            }
            vstd::pervasive::unreached()
        },
    }
}

} // verus!
