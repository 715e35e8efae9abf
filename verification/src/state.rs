//! The modelled interpreter instance: an explicit operand stack, a table
//! heap, the persistent reference registry, the globals table and the
//! attached extra-data slot.
//!
//! Every operation resolves signed stack indexes at its own entry, checks
//! them against the current stack shape, and states its exact effect on the
//! model; an out-of-range index never reaches an unchecked access.

use vstd::prelude::*;

use crate::table::lemma_lookup_valid;
use crate::table::spec_lookup_entries;
use crate::table::spec_border;
use crate::table::spec_table_wf;
use crate::table::spec_valid_key;
use crate::table::spec_valid_value;
use crate::table::TableData;
use crate::text::char_count;
use crate::text::i64_to_string;
use crate::text::parse_int;
use crate::text::spec_parse_int;
use crate::text::spec_dec_int;
use crate::types::Index;
use crate::types::spec_type_name;
use crate::types::Type;
use crate::types::Reference;
use crate::types::MAXSTACK;
use crate::types::NOREF;
use crate::types::REFNIL;
use crate::types::REGISTRYINDEX;
use crate::value::spec_value_eq;
use crate::value::Value;

verus! {

/// A registered native function, by its registration token.  The token is
/// chosen by the host at registration time; the model never calls through
/// it, it only carries it.
#[derive(Clone, Copy, Debug, PartialEq, Eq, Structural)]
pub struct Function(pub u64);

/// A floating-point number of the foreign numeric type, by its exact bit
/// pattern.  Carrying the bits keeps the representation intact without any
/// host float arithmetic.
#[derive(Clone, Copy, Debug, PartialEq, Eq, Structural)]
pub struct Number {
    pub bits: u64,
}

/// A handle on host-owned extra data attached to an interpreter instance.
/// The handle has identity only; the host keeps the data itself and may
/// share one handle between a root and its sub-threads.
#[derive(Clone, Copy, Debug, PartialEq, Eq, Structural)]
pub struct Extra(pub u64);

/// Resolution of a signed stack index against a stack of `top` values:
/// positive indexes and pseudo-indexes stand as they are, other indexes
/// count down from the top.
pub open spec fn spec_abs_index(top: int, idx: int) -> int {
    if idx > 0 || idx <= REGISTRYINDEX as int {
        idx
    } else {
        top + idx + 1
    }
}

/// One interpreter instance, as visible to the binding layer.
///
/// A `State` value models one thread handle together with its view of the
/// instance-wide structures (table heap, registry, globals, extra data).
/// Handles must be used strictly sequentially; the model's value semantics
/// makes each handle's view explicit.
#[derive(Debug)]
pub struct State {
    /// The operand stack, bottom first.
    pub stack: Vec<Value>,
    /// The stack capacity granted to this instance.
    pub cap: usize,
    /// The table heap; `Value::Table(id)` indexes into it.
    pub tables: Vec<TableData>,
    /// The heap id of the globals table.
    pub globals: usize,
    /// The persistent reference registry; a free slot holds nothing.
    pub refs: Vec<Option<Value>>,
    /// The attached extra-data handle, if any.
    pub extra: Option<Extra>,
    /// Whether this handle owns the instance and tears it down on close.
    pub owned: bool,
    /// How many thread tokens this instance has handed out.
    pub threads_made: u64,
}

impl State {
    /// The number of values on the operand stack.
    pub open spec fn top(self) -> int {
        self.stack@.len() as int
    }

    /// Well-formedness: the stack fits its capacity, the globals id is
    /// live, and every value reachable from the stack, the heap or the
    /// registry refers only into the heap.
    pub open spec fn wf(self) -> bool {
        &&& self.stack@.len() <= self.cap
        &&& self.cap <= MAXSTACK
        &&& self.refs@.len() < 0x7fffffff
        &&& (self.globals as int) < self.tables@.len()
        &&& forall|i: int|
            0 <= i < self.stack@.len() ==> spec_valid_value(
                #[trigger] self.stack@[i],
                self.tables@.len() as int,
            )
        &&& forall|t: int|
            0 <= t < self.tables@.len() ==> spec_table_wf(
                #[trigger] self.tables@[t],
                self.tables@.len() as int,
            )
        &&& forall|r: int|
            0 <= r < self.refs@.len() ==> (#[trigger] self.refs@[r] matches Some(v)
                ==> spec_valid_value(v, self.tables@.len() as int))
    }

    /// Whether everything but the operand stack is unchanged between two
    /// model states.
    pub open spec fn same_frame(pre: State, post: State) -> bool {
        &&& post.cap == pre.cap
        &&& post.tables == pre.tables
        &&& post.globals == pre.globals
        &&& post.refs == pre.refs
        &&& post.extra == pre.extra
        &&& post.owned == pre.owned
        &&& post.threads_made == pre.threads_made
    }

    /// Whether `idx` resolves to a live stack slot.
    pub open spec fn spec_resolves(self, idx: int) -> bool {
        1 <= spec_abs_index(self.top(), idx) <= self.top()
    }

    /// The value in the slot that `idx` resolves to.
    pub open spec fn spec_slot(self, idx: int) -> Value {
        self.stack@[spec_abs_index(self.top(), idx) - 1]
    }

    /// Initializes a fresh, owning interpreter instance with an empty
    /// stack, an empty globals table, and the registry pre-seeded with the
    /// main-thread and globals slots.
    pub fn new() -> (r: State)
        ensures
            r.wf(),
            r.stack@.len() == 0,
            r.cap == MAXSTACK,
            r.owned,
            r.extra is None,
            r.tables@.len() == 1,
            r.globals == 0,
            forall|k: Value| r.tables@[0].spec_get(k) is Nil,
            r.refs@.len() == 2,
            r.refs@[0] == Some(Value::Thread(0)),
            r.refs@[1] == Some(Value::Table(0)),
            r.threads_made == 1,
    {
        let mut tables: Vec<TableData> = Vec::new();
        tables.push(TableData::new());
        let mut refs: Vec<Option<Value>> = Vec::new();
        refs.push(Some(Value::Thread(0)));
        refs.push(Some(Value::Table(0)));
        State {
            stack: Vec::new(),
            cap: MAXSTACK,
            tables,
            globals: 0,
            refs,
            extra: None,
            owned: true,
            threads_made: 1,
        }
    }

    /// Releases an owning handle, tearing the instance down.  A borrowed
    /// handle must never be closed; the foreign teardown call on one is a
    /// host-usage error.
    pub fn close(self)
        requires
            self.owned,
    {
    }

    /// Maps a signed index to its absolute form against the current top.
    /// The resolution is a pure function of the stack shape, so resolving
    /// twice without an intervening mutation gives the same result.
    pub fn abs_index(&self, idx: Index) -> (r: Index)
        requires
            self.wf(),
        ensures
            r as int == spec_abs_index(self.top(), idx as int),
    {
        if idx > 0 || idx <= REGISTRYINDEX {
            idx
        } else {
            let top: i64 = self.stack.len() as i64;
            (top + (idx as i64) + 1) as i32
        }
    }

    /// Resolves a signed index to a zero-based stack position, refusing
    /// anything that does not land on a live slot.
    fn resolve(&self, idx: Index) -> (r: Option<usize>)
        requires
            self.wf(),
        ensures
            match r {
                Some(p) => self.spec_resolves(idx as int) && p as int == spec_abs_index(
                    self.top(),
                    idx as int,
                ) - 1 && p < self.stack@.len(),
                None => !self.spec_resolves(idx as int),
            },
    {
        let a = self.abs_index(idx);
        if a >= 1 && (a as usize) <= self.stack.len() {
            Some((a as usize) - 1)
        } else {
            None
        }
    }

    /// The current stack top: the number of values on the stack.
    pub fn get_top(&self) -> (r: Index)
        requires
            self.wf(),
        ensures
            r as int == self.top(),
    {
        self.stack.len() as i32
    }

    /// Whether `n` further values fit in the granted stack capacity.  The
    /// model's capacity is fixed at construction, so this never grows the
    /// stack; it reports honestly whether the headroom exists.
    pub fn check_stack(&self, n: Index) -> (r: bool)
        requires
            self.wf(),
            n >= 0,
        ensures
            r == (self.top() + n as int <= self.cap as int),
    {
        let free: usize = self.cap - self.stack.len();
        (n as usize) <= free
    }

    /// Sets the stack top: positive `idx` pads with nil or truncates to
    /// that many values, non-positive `idx` counts down from the top.
    pub fn set_top(&mut self, idx: Index)
        requires
            old(self).wf(),
            0 <= spec_abs_index(old(self).top(), idx as int + 1) - 1 <= old(self).cap as int,
            idx > REGISTRYINDEX,
        ensures
            final(self).wf(),
            State::same_frame(*old(self), *final(self)),
            final(self).top() == spec_abs_index(old(self).top(), idx as int + 1) - 1,
            forall|i: int|
                0 <= i < final(self).top() && i < old(self).top() ==> final(self).stack@[i] == old(
                    self,
                ).stack@[i],
            forall|i: int|
                old(self).top() <= i < final(self).top() ==> final(self).stack@[i] is Nil,
    {
        let n: usize = if idx >= 0 {
            idx as usize
        } else {
            let a: i64 = (self.stack.len() as i64) + (idx as i64) + 1;
            a as usize
        };
        proof {
            assert(old(self).stack@.subrange(0, old(self).stack@.len() as int) =~= old(
                self,
            ).stack@);
        }
        while self.stack.len() > n
            invariant
                n <= old(self).cap,
                old(self).wf(),
                State::same_frame(*old(self), *self),
                self.stack@ == old(self).stack@.subrange(0, self.stack@.len() as int),
                self.stack@.len() <= old(self).stack@.len(),
                self.stack@.len() >= n || self.stack@ == old(self).stack@,
            decreases self.stack@.len(),
        {
            self.stack.pop();
            proof {
                assert(self.stack@ =~= old(self).stack@.subrange(0, self.stack@.len() as int));
            }
        }
        while self.stack.len() < n
            invariant
                n <= old(self).cap,
                old(self).wf(),
                State::same_frame(*old(self), *self),
                self.stack@.len() <= n,
                self.stack@.len() >= old(self).top() || self.stack@.len() >= n,
                forall|i: int|
                    0 <= i < self.stack@.len() && i < old(self).top() ==> self.stack@[i] == old(
                        self,
                    ).stack@[i],
                forall|i: int|
                    old(self).top() <= i < self.stack@.len() ==> self.stack@[i] is Nil,
                forall|i: int|
                    0 <= i < self.stack@.len() ==> spec_valid_value(
                        #[trigger] self.stack@[i],
                        self.tables@.len() as int,
                    ),
            decreases n - self.stack@.len(),
        {
            self.stack.push(Value::Nil);
        }
    }

    /// Removes the top `n` values.
    pub fn pop(&mut self, n: Index)
        requires
            old(self).wf(),
            0 <= n as int <= old(self).top(),
        ensures
            final(self).wf(),
            State::same_frame(*old(self), *final(self)),
            final(self).stack@ == old(self).stack@.subrange(0, old(self).top() - n as int),
    {
        let target: usize = self.stack.len() - (n as usize);
        proof {
            assert(old(self).stack@.subrange(0, old(self).stack@.len() as int) =~= old(
                self,
            ).stack@);
        }
        while self.stack.len() > target
            invariant
                target <= old(self).stack@.len(),
                old(self).wf(),
                State::same_frame(*old(self), *self),
                target <= self.stack@.len(),
                self.stack@.len() <= old(self).stack@.len(),
                self.stack@ == old(self).stack@.subrange(0, self.stack@.len() as int),
            decreases self.stack@.len(),
        {
            self.stack.pop();
            proof {
                assert(self.stack@ =~= old(self).stack@.subrange(0, self.stack@.len() as int));
            }
        }
    }

    /// Pushes one value; the internal primitive behind every typed push.
    fn push_slot(&mut self, v: Value)
        requires
            old(self).wf(),
            old(self).top() < old(self).cap as int,
            spec_valid_value(v, old(self).tables@.len() as int),
        ensures
            final(self).wf(),
            State::same_frame(*old(self), *final(self)),
            final(self).stack@ == old(self).stack@.push(v),
    {
        self.stack.push(v);
    }

    /// Pushes nil.
    pub fn push_nil(&mut self)
        requires
            old(self).wf(),
            old(self).top() < old(self).cap as int,
        ensures
            final(self).wf(),
            State::same_frame(*old(self), *final(self)),
            final(self).stack@ == old(self).stack@.push(Value::Nil),
    {
        self.push_slot(Value::Nil);
    }

    /// Pushes a boolean.
    pub fn push_bool(&mut self, b: bool)
        requires
            old(self).wf(),
            old(self).top() < old(self).cap as int,
        ensures
            final(self).wf(),
            State::same_frame(*old(self), *final(self)),
            final(self).stack@ == old(self).stack@.push(Value::Boolean(b)),
    {
        self.push_slot(Value::Boolean(b));
    }

    /// Pushes an integer number.
    pub fn push_integer(&mut self, i: i64)
        requires
            old(self).wf(),
            old(self).top() < old(self).cap as int,
        ensures
            final(self).wf(),
            State::same_frame(*old(self), *final(self)),
            final(self).stack@ == old(self).stack@.push(Value::Integer(i)),
    {
        self.push_slot(Value::Integer(i));
    }

    /// Pushes a floating-point number, given by its exact bit pattern.
    pub fn push_number(&mut self, n: Number)
        requires
            old(self).wf(),
            old(self).top() < old(self).cap as int,
        ensures
            final(self).wf(),
            State::same_frame(*old(self), *final(self)),
            final(self).stack@ == old(self).stack@.push(Value::Number(n.bits)),
    {
        self.push_slot(Value::Number(n.bits));
    }

    /// Pushes a copy of a string.  The push either completes whole or (by
    /// the capacity precondition) does not begin: no partially constructed
    /// value is ever left behind.
    pub fn push_string(&mut self, s: &str)
        requires
            old(self).wf(),
            old(self).top() < old(self).cap as int,
        ensures
            final(self).wf(),
            State::same_frame(*old(self), *final(self)),
            final(self).stack@.len() == old(self).stack@.len() + 1,
            final(self).stack@.drop_last() == old(self).stack@,
            final(self).stack@.last() matches Value::Str(t) && t@ == s@,
    {
        self.push_slot(Value::Str(s.to_owned()));
        proof {
            assert(self.stack@.drop_last() =~= old(self).stack@);
        }
    }

    /// Pushes a registered native function by its token.
    pub fn push_fn(&mut self, f: Function)
        requires
            old(self).wf(),
            old(self).top() < old(self).cap as int,
        ensures
            final(self).wf(),
            State::same_frame(*old(self), *final(self)),
            final(self).stack@ == old(self).stack@.push(Value::Function(f.0)),
    {
        self.push_slot(Value::Function(f.0));
    }

    /// Pushes a light userdata: a bare foreign address as a plain value.
    pub fn push_light_userdata(&mut self, p: u64)
        requires
            old(self).wf(),
            old(self).top() < old(self).cap as int,
        ensures
            final(self).wf(),
            State::same_frame(*old(self), *final(self)),
            final(self).stack@ == old(self).stack@.push(Value::LightUserdata(p)),
    {
        self.push_slot(Value::LightUserdata(p));
    }

    /// Pushes a copy of the value at `idx`.
    pub fn push_value(&mut self, idx: Index)
        requires
            old(self).wf(),
            old(self).top() < old(self).cap as int,
            old(self).spec_resolves(idx as int),
        ensures
            final(self).wf(),
            State::same_frame(*old(self), *final(self)),
            final(self).stack@ == old(self).stack@.push(old(self).spec_slot(idx as int)),
    {
        let p = self.resolve(idx).unwrap();
        let v = self.stack[p].duplicate();
        self.push_slot(v);
    }

    /// Copies the value at `from_idx` into the slot at `to_idx`, leaving
    /// the rest of the stack unchanged.
    pub fn copy(&mut self, from_idx: Index, to_idx: Index)
        requires
            old(self).wf(),
            old(self).spec_resolves(from_idx as int),
            old(self).spec_resolves(to_idx as int),
        ensures
            final(self).wf(),
            State::same_frame(*old(self), *final(self)),
            final(self).stack@ == old(self).stack@.update(
                spec_abs_index(old(self).top(), to_idx as int) - 1,
                old(self).spec_slot(from_idx as int),
            ),
    {
        let from = self.resolve(from_idx).unwrap();
        let to = self.resolve(to_idx).unwrap();
        let v = self.stack[from].duplicate();
        self.stack[to] = v;
    }

    /// Replaces the slot at `idx` with the top value, then pops the top.
    pub fn replace(&mut self, idx: Index)
        requires
            old(self).wf(),
            old(self).top() >= 1,
            old(self).spec_resolves(idx as int),
        ensures
            final(self).wf(),
            State::same_frame(*old(self), *final(self)),
            final(self).stack@ == old(self).stack@.update(
                spec_abs_index(old(self).top(), idx as int) - 1,
                old(self).stack@.last(),
            ).drop_last(),
    {
        self.copy(-1, idx);
        let ghost mid = self.stack@;
        self.pop(1);
        proof {
            assert(self.stack@ =~= mid.drop_last());
        }
    }

    /// Rotates the segment between `idx` and the top by `n` positions:
    /// toward the top for positive `n`, toward the bottom for negative.
    pub fn rotate(&mut self, idx: Index, n: i32)
        requires
            old(self).wf(),
            old(self).spec_resolves(idx as int),
            spec_abs_index(old(self).top(), idx as int) >= 1,
            -(old(self).top() - spec_abs_index(old(self).top(), idx as int) + 1) <= n as int <= (
            old(self).top() - spec_abs_index(old(self).top(), idx as int) + 1),
        ensures
            final(self).wf(),
            State::same_frame(*old(self), *final(self)),
            final(self).stack@.len() == old(self).stack@.len(),
            ({
                let a = spec_abs_index(old(self).top(), idx as int) - 1;
                let m = old(self).top() - a;
                let k = if n >= 0 {
                    m - n as int
                } else {
                    -(n as int)
                };
                (forall|j: int|
                    0 <= j < a ==> #[trigger] final(self).stack@[j] == old(self).stack@[j]) && (
                forall|j: int|
                    0 <= j < m ==> #[trigger] final(self).stack@[a + j] == old(self).stack@[a + ((k
                        + j) % m)])
            }),
    {
        let a = self.resolve(idx).unwrap();
        let m: usize = self.stack.len() - a;
        let k: usize = if n >= 0 {
            m - (n as usize)
        } else {
            (-(n as i64)) as usize
        };
        if m == 0 {
            return ;
        }
        let mut segment: Vec<Value> = Vec::new();
        let mut j: usize = 0;
        while j < m
            invariant
                *self == *old(self),
                a + m == self.stack@.len(),
                self.wf(),
                j <= m,
                segment@.len() == j,
                forall|t: int| 0 <= t < j ==> segment@[t] == self.stack@[a + t],
            decreases m - j,
        {
            let v = self.stack[a + j].duplicate();
            segment.push(v);
            j = j + 1;
        }
        let mut j: usize = 0;
        while j < m
            invariant
                a + m == self.stack@.len(),
                old(self).wf(),
                k <= m,
                segment@.len() == m,
                State::same_frame(*old(self), *self),
                self.stack@.len() == old(self).stack@.len(),
                forall|t: int| 0 <= t < m ==> #[trigger] segment@[t] == old(self).stack@[a + t],
                forall|t: int| 0 <= t < a ==> #[trigger] self.stack@[t] == old(self).stack@[t],
                j <= m,
                forall|t: int|
                    j <= t < m ==> #[trigger] self.stack@[a + t] == old(self).stack@[a + t],
                forall|t: int|
                    0 <= t < j ==> #[trigger] self.stack@[a + t] == segment@[((k + t) % (
                    m as int))],
                forall|t: int|
                    0 <= t < self.stack@.len() ==> spec_valid_value(
                        #[trigger] self.stack@[t],
                        self.tables@.len() as int,
                    ),
            decreases m - j,
        {
            let src: usize = if k + j >= m {
                k + j - m
            } else {
                k + j
            };
            proof {
                lemma_wrap_mod(k as int + j as int, m as int);
                assert((k + j) % (m as int) == src as int);
            }
            let v = segment[src].duplicate();
            self.stack[a + j] = v;
            j = j + 1;
        }
    }

    /// Moves the top value into position `idx`, shifting the values above
    /// up by one.
    pub fn insert(&mut self, idx: Index)
        requires
            old(self).wf(),
            old(self).top() >= 1,
            old(self).spec_resolves(idx as int),
            spec_abs_index(old(self).top(), idx as int) >= 1,
        ensures
            final(self).wf(),
            State::same_frame(*old(self), *final(self)),
            final(self).stack@.len() == old(self).stack@.len(),
            ({
                let a = spec_abs_index(old(self).top(), idx as int) - 1;
                (forall|j: int|
                    0 <= j < a ==> #[trigger] final(self).stack@[j] == old(self).stack@[j])
                    && final(self).stack@[a] == old(self).stack@.last() && (forall|j: int|
                    a < j < old(self).top() ==> #[trigger] final(self).stack@[j] == old(
                        self,
                    ).stack@[j - 1])
            }),
    {
        let ghost pre = self.stack@;
        let ghost a = spec_abs_index(old(self).top(), idx as int) - 1;
        let ghost m = old(self).top() - a;
        self.rotate(idx, 1);
        proof {
            let k = m - 1;
            lemma_wrap_mod(k, m);
            assert(self.stack@[a + 0] == pre[a + ((k + 0) % m)]);
            assert((k + 0) % m == m - 1);
            assert forall|j: int| a < j < pre.len() implies self.stack@[j] == pre[j - 1] by {
                let t = j - a;
                assert(self.stack@[a + t] == pre[a + ((k + t) % m)]);
                lemma_wrap_mod(k + t, m);
                assert((k + t) % m == t - 1);
            }
        }
    }

    /// Removes the value at `idx`, shifting the values above down by one.
    pub fn remove(&mut self, idx: Index)
        requires
            old(self).wf(),
            old(self).spec_resolves(idx as int),
            spec_abs_index(old(self).top(), idx as int) >= 1,
        ensures
            final(self).wf(),
            State::same_frame(*old(self), *final(self)),
            final(self).stack@ == old(self).stack@.remove(
                spec_abs_index(old(self).top(), idx as int) - 1,
            ),
    {
        let ghost pre = self.stack@;
        let ghost a = spec_abs_index(old(self).top(), idx as int) - 1;
        let ghost m = old(self).top() - a;
        self.rotate(idx, -1);
        let ghost mid = self.stack@;
        self.pop(1);
        proof {
            assert forall|j: int| 0 <= j < self.stack@.len() implies self.stack@[j] == pre.remove(
                a,
            )[j] by {
                assert(self.stack@[j] == mid[j]);
                if j < a {
                    assert(mid[j] == pre[j]);
                } else {
                    let t = j - a;
                    assert(mid[a + t] == pre[a + ((1 + t) % m)]);
                    lemma_wrap_mod(1 + t, m);
                    assert((1 + t) % m == t + 1);
                }
            }
            assert(self.stack@ =~= pre.remove(a));
        }
    }
}

impl State {
    /// The type tag at `idx`: nothing for an index that holds no value,
    /// matching the runtime's fail-closed tag decoding.
    pub fn type_of(&self, idx: Index) -> (r: Option<Type>)
        requires
            self.wf(),
        ensures
            r == if self.spec_resolves(idx as int) {
                Some(self.spec_slot(idx as int).spec_tag())
            } else {
                None::<Type>
            },
    {
        match self.resolve(idx) {
            Some(p) => Some(self.stack[p].tag()),
            None => None,
        }
    }

    /// The script-visible name of the type at `idx`; "no value" for an
    /// index holding none.
    pub fn typename_at(&self, idx: Index) -> (r: String)
        requires
            self.wf(),
        ensures
            r@ == spec_type_name(
                if self.spec_resolves(idx as int) {
                    self.spec_slot(idx as int).spec_tag()
                } else {
                    Type::Absent
                },
            ),
    {
        let t = match self.type_of(idx) {
            Some(t) => t,
            None => Type::Absent,
        };
        String::from_str(t.name())
    }

    /// The script-visible name of a type tag, as an owned string.
    pub fn typename_of(&self, tp: Type) -> (r: String)
        requires
            self.wf(),
        ensures
            r@ == spec_type_name(tp),
    {
        String::from_str(tp.name())
    }

    /// Whether the slot at `idx` holds a number of either numeric
    /// subtype, or a string the model reads as one (the decimal numeral
    /// grammar; the runtime's fuller grammar stays with the runtime).
    pub fn is_number(&self, idx: Index) -> (r: bool)
        requires
            self.wf(),
        ensures
            r == (self.spec_resolves(idx as int) && (self.spec_slot(idx as int) is Number
                || spec_to_integer(self.spec_slot(idx as int)) is Some)),
    {
        match self.resolve(idx) {
            Some(p) => match &self.stack[p] {
                Value::Integer(_) | Value::Number(_) => true,
                Value::Str(s) => parse_int(s.as_str()).is_some(),
                _ => false,
            },
            None => false,
        }
    }

    /// Whether the slot at `idx` holds a string, or an integer that the
    /// model can render as one.  A float slot also renders in the runtime,
    /// but its formatting needs float arithmetic, outside the model.
    pub fn is_string(&self, idx: Index) -> (r: bool)
        requires
            self.wf(),
        ensures
            r == (self.spec_resolves(idx as int) && (self.spec_slot(idx as int) is Str
                || self.spec_slot(idx as int) is Integer)),
    {
        match self.resolve(idx) {
            Some(p) => matches!(&self.stack[p], Value::Str(_) | Value::Integer(_)),
            None => false,
        }
    }

    /// Whether the slot at `idx` holds the integer numeric subtype.
    pub fn is_integer(&self, idx: Index) -> (r: bool)
        requires
            self.wf(),
        ensures
            r == (self.spec_resolves(idx as int) && self.spec_slot(idx as int) is Integer),
    {
        match self.resolve(idx) {
            Some(p) => matches!(&self.stack[p], Value::Integer(_)),
            None => false,
        }
    }

    /// Whether the slot at `idx` holds a function.
    pub fn is_fn(&self, idx: Index) -> (r: bool)
        requires
            self.wf(),
        ensures
            r == (self.spec_resolves(idx as int) && self.spec_slot(idx as int) is Function),
    {
        match self.resolve(idx) {
            Some(p) => matches!(&self.stack[p], Value::Function(_)),
            None => false,
        }
    }

    /// Whether the slot at `idx` holds a native function.  Every function
    /// value the model carries is a registered native one.
    pub fn is_native_fn(&self, idx: Index) -> (r: bool)
        requires
            self.wf(),
        ensures
            r == (self.spec_resolves(idx as int) && self.spec_slot(idx as int) is Function),
    {
        self.is_fn(idx)
    }

    /// Whether the slot at `idx` holds a table.
    pub fn is_table(&self, idx: Index) -> (r: bool)
        requires
            self.wf(),
        ensures
            r == (self.spec_resolves(idx as int) && self.spec_slot(idx as int) is Table),
    {
        match self.resolve(idx) {
            Some(p) => matches!(&self.stack[p], Value::Table(_)),
            None => false,
        }
    }

    /// Whether the slot at `idx` holds a full or light userdata.
    pub fn is_userdata(&self, idx: Index) -> (r: bool)
        requires
            self.wf(),
        ensures
            r == (self.spec_resolves(idx as int) && (self.spec_slot(idx as int) is Userdata
                || self.spec_slot(idx as int) is LightUserdata)),
    {
        match self.resolve(idx) {
            Some(p) => matches!(&self.stack[p], Value::Userdata(_) | Value::LightUserdata(_)),
            None => false,
        }
    }

    /// Whether the slot at `idx` holds a light userdata.
    pub fn is_light_userdata(&self, idx: Index) -> (r: bool)
        requires
            self.wf(),
        ensures
            r == (self.spec_resolves(idx as int) && self.spec_slot(idx as int) is LightUserdata),
    {
        match self.resolve(idx) {
            Some(p) => matches!(&self.stack[p], Value::LightUserdata(_)),
            None => false,
        }
    }

    /// Whether the slot at `idx` holds nil.
    pub fn is_nil(&self, idx: Index) -> (r: bool)
        requires
            self.wf(),
        ensures
            r == (self.spec_resolves(idx as int) && self.spec_slot(idx as int) is Nil),
    {
        match self.resolve(idx) {
            Some(p) => matches!(&self.stack[p], Value::Nil),
            None => false,
        }
    }

    /// Whether the slot at `idx` holds a boolean.
    pub fn is_bool(&self, idx: Index) -> (r: bool)
        requires
            self.wf(),
        ensures
            r == (self.spec_resolves(idx as int) && self.spec_slot(idx as int) is Boolean),
    {
        match self.resolve(idx) {
            Some(p) => matches!(&self.stack[p], Value::Boolean(_)),
            None => false,
        }
    }

    /// Whether the slot at `idx` holds a thread.
    pub fn is_thread(&self, idx: Index) -> (r: bool)
        requires
            self.wf(),
        ensures
            r == (self.spec_resolves(idx as int) && self.spec_slot(idx as int) is Thread),
    {
        match self.resolve(idx) {
            Some(p) => matches!(&self.stack[p], Value::Thread(_)),
            None => false,
        }
    }

    /// Whether `idx` holds no value at all.
    pub fn is_none(&self, idx: Index) -> (r: bool)
        requires
            self.wf(),
        ensures
            r == !self.spec_resolves(idx as int),
    {
        self.resolve(idx).is_none()
    }

    /// Whether `idx` holds no value or holds nil.
    pub fn is_none_or_nil(&self, idx: Index) -> (r: bool)
        requires
            self.wf(),
        ensures
            r == (!self.spec_resolves(idx as int) || self.spec_slot(idx as int) is Nil),
    {
        match self.resolve(idx) {
            Some(p) => matches!(&self.stack[p], Value::Nil),
            None => true,
        }
    }

    /// The truth value at `idx`: everything is true but nil, false and the
    /// absence of a value.
    pub fn to_bool(&self, idx: Index) -> (r: bool)
        requires
            self.wf(),
        ensures
            r == (self.spec_resolves(idx as int) && self.spec_slot(idx as int).spec_truthy()),
    {
        match self.resolve(idx) {
            Some(p) => !matches!(&self.stack[p], Value::Nil | Value::Boolean(false)),
            None => false,
        }
    }

    /// Reads the slot at `idx` as an integer, with the runtime's lenient
    /// string coercion: a value of the integer subtype converts as itself,
    /// a string converts through the decimal numeral grammar.  Whether a
    /// float with an exact integral value still converts is the runtime's
    /// float arithmetic, outside the model.
    pub fn to_integerx(&self, idx: Index) -> (r: Option<i64>)
        requires
            self.wf(),
        ensures
            r == if self.spec_resolves(idx as int) {
                spec_to_integer(self.spec_slot(idx as int))
            } else {
                None::<i64>
            },
    {
        match self.resolve(idx) {
            Some(p) => match &self.stack[p] {
                Value::Integer(i) => Some(*i),
                Value::Str(s) => parse_int(s.as_str()),
                _ => None,
            },
            None => None,
        }
    }

    /// Reads the slot at `idx` as an integer under the same lenient
    /// coercion, zero when nothing converts.
    pub fn to_integer(&self, idx: Index) -> (r: i64)
        requires
            self.wf(),
        ensures
            r == if self.spec_resolves(idx as int) && spec_to_integer(
                self.spec_slot(idx as int),
            ) is Some {
                spec_to_integer(self.spec_slot(idx as int))->0
            } else {
                0i64
            },
    {
        match self.to_integerx(idx) {
            Some(i) => i,
            None => 0,
        }
    }

    /// Reads the slot at `idx` as a float, strictly by its bit pattern:
    /// only a value of the float numeric subtype converts, and it converts
    /// exactly.  Widening an integer slot to the float representation is
    /// the runtime's numeric conversion, outside the model.
    pub fn to_numberx(&self, idx: Index) -> (r: Option<Number>)
        requires
            self.wf(),
        ensures
            r == if self.spec_resolves(idx as int) && self.spec_slot(idx as int) is Number {
                Some(Number { bits: self.spec_slot(idx as int)->Number_0 })
            } else {
                None::<Number>
            },
    {
        match self.resolve(idx) {
            Some(p) => match &self.stack[p] {
                Value::Number(b) => Some(Number { bits: *b }),
                _ => None,
            },
            None => None,
        }
    }

    /// Reads the slot at `idx` as a float, positive zero when it is not
    /// one.
    pub fn to_number(&self, idx: Index) -> (r: Number)
        requires
            self.wf(),
        ensures
            r == if self.spec_resolves(idx as int) && self.spec_slot(idx as int) is Number {
                Number { bits: self.spec_slot(idx as int)->Number_0 }
            } else {
                Number { bits: 0 }
            },
    {
        match self.to_numberx(idx) {
            Some(n) => n,
            None => Number { bits: 0 },
        }
    }

    /// Reads the slot at `idx` as a function token.
    pub fn to_native_fn(&self, idx: Index) -> (r: Option<Function>)
        requires
            self.wf(),
        ensures
            r == if self.spec_resolves(idx as int) && self.spec_slot(idx as int) is Function {
                Some(Function(self.spec_slot(idx as int)->Function_0))
            } else {
                None::<Function>
            },
    {
        match self.resolve(idx) {
            Some(p) => match &self.stack[p] {
                Value::Function(f) => Some(Function(*f)),
                _ => None,
            },
            None => None,
        }
    }

    /// Reads the slot at `idx` as an owned string, without mutating the
    /// slot: a string copies, an integer renders in decimal, anything else
    /// is absent.
    pub fn to_str(&self, idx: Index) -> (r: Option<String>)
        requires
            self.wf(),
        ensures
            match r {
                Some(t) => self.spec_resolves(idx as int) && spec_to_str_view(
                    self.spec_slot(idx as int),
                ) == Some(t@),
                None => !self.spec_resolves(idx as int) || spec_to_str_view(
                    self.spec_slot(idx as int),
                ) is None,
            },
    {
        match self.resolve(idx) {
            Some(p) => match &self.stack[p] {
                Value::Str(s) => Some(s.clone()),
                Value::Integer(i) => Some(i64_to_string(*i)),
                _ => None,
            },
            None => None,
        }
    }

    /// The raw length of the value at `idx`: the character length of a
    /// string, a border of a table's sequence part, zero for everything
    /// else.  The model measures strings in characters.
    pub fn raw_len(&self, idx: Index) -> (r: usize)
        requires
            self.wf(),
        ensures
            self.spec_resolves(idx as int) ==> (self.spec_slot(idx as int) matches Value::Str(s)
                ==> r == s@.len()),
            self.spec_resolves(idx as int) ==> (self.spec_slot(idx as int) matches Value::Table(t)
                ==> r == spec_border(self.tables@[t as int])),
            !(self.spec_resolves(idx as int) && (self.spec_slot(idx as int) is Str
                || self.spec_slot(idx as int) is Table)) ==> r == 0,
    {
        match self.resolve(idx) {
            Some(p) => match &self.stack[p] {
                Value::Str(s) => char_count(s.as_str()),
                Value::Table(t) => self.tables[*t].border(),
                _ => 0,
            },
            None => 0,
        }
    }

    /// Primitive equality of the values at the two indexes, false when
    /// either holds no value.
    pub fn raw_equal(&self, idx1: Index, idx2: Index) -> (r: bool)
        requires
            self.wf(),
        ensures
            r == (self.spec_resolves(idx1 as int) && self.spec_resolves(idx2 as int)
                && spec_value_eq(self.spec_slot(idx1 as int), self.spec_slot(idx2 as int))),
    {
        match (self.resolve(idx1), self.resolve(idx2)) {
            (Some(p), Some(q)) => self.stack[p].raw_eq(&self.stack[q]),
            _ => false,
        }
    }
}

/// The integer the model can read a value as, under the runtime's lenient
/// coercion: a value of the integer subtype as itself, a string through
/// the decimal numeral grammar.  A float with an exact integral value also
/// converts in the runtime, but deciding that needs float arithmetic, so
/// it stays outside the model.
pub open spec fn spec_to_integer(v: Value) -> Option<i64> {
    match v {
        Value::Integer(i) => Some(i),
        Value::Str(s) => spec_parse_int(s@),
        _ => None,
    }
}

/// The string the model can read a value as: a string's own contents, an
/// integer's decimal rendering.
pub open spec fn spec_to_str_view(v: Value) -> Option<Seq<char>> {
    match v {
        Value::Str(s) => Some(s@),
        Value::Integer(i) => Some(spec_dec_int(i as int)),
        _ => None,
    }
}


/// The final value under a query key after registering each `(name, fn)`
/// pair of `l` in order, starting from `dflt`: the last matching name wins.
pub open spec fn spec_fns_lookup(l: Seq<(String, Function)>, q: Value, dflt: Value) -> Value
    decreases l.len(),
{
    if l.len() == 0 {
        dflt
    } else if spec_value_eq(q, Value::Str(l.last().0)) {
        Value::Function(l.last().1.0)
    } else {
        spec_fns_lookup(l.drop_last(), q, dflt)
    }
}

/// Whether a value is the string key with the given text.
pub open spec fn spec_is_str_key(q: Value, k: Seq<char>) -> bool {
    q matches Value::Str(x) && x@ == k
}

/// Looks a string key up in an entry sequence by its text.
pub open spec fn spec_lookup_str(s: Seq<(Value, Value)>, k: Seq<char>) -> Value
    decreases s.len(),
{
    if s.len() == 0 {
        Value::Nil
    } else if spec_is_str_key(s[0].0, k) {
        s[0].1
    } else {
        spec_lookup_str(s.drop_first(), k)
    }
}

/// Reads a table under a string key given by its text; any string value
/// with that text reads the same entry.
pub open spec fn spec_get_str(t: TableData, k: Seq<char>) -> Value {
    spec_lookup_str(t.entries@, k)
}

/// A string-valued key looks up exactly the text-keyed entry.
proof fn lemma_lookup_str_key(s: Seq<(Value, Value)>, key: Value, k: Seq<char>)
    requires
        key matches Value::Str(sv) && sv@ == k,
    ensures
        spec_lookup_entries(s, key) == spec_lookup_str(s, k),
    decreases s.len(),
{
    if s.len() > 0 {
        assert(spec_value_eq(s[0].0, key) == spec_is_str_key(s[0].0, k));
        lemma_lookup_str_key(s.drop_first(), key, k);
    }
}

/// A string-valued key reads a table exactly as its text does.
proof fn lemma_get_str_key(t: TableData, key: Value, k: Seq<char>)
    requires
        key matches Value::Str(sv) && sv@ == k,
    ensures
        t.spec_get(key) == spec_get_str(t, k),
{
    lemma_lookup_str_key(t.entries@, key, k);
}

/// A value valid for a heap of `n` tables is valid for any larger heap.
proof fn lemma_valid_grow(v: Value, n: int, m: int)
    requires
        spec_valid_value(v, n),
        n <= m,
    ensures
        spec_valid_value(v, m),
{
}

/// A table well-formed against a heap of `n` tables is well-formed
/// against any larger heap.
proof fn lemma_table_wf_grow(t: TableData, n: int, m: int)
    requires
        spec_table_wf(t, n),
        n <= m,
    ensures
        spec_table_wf(t, m),
{
    assert forall|i: int| 0 <= i < t.entries@.len() implies spec_valid_value(
        #[trigger] t.entries@[i].0,
        m,
    ) && spec_valid_value(t.entries@[i].1, m) && spec_valid_key(t.entries@[i].0) && !(
    t.entries@[i].1 is Nil) by {
        lemma_valid_grow(t.entries@[i].0, n, m);
        lemma_valid_grow(t.entries@[i].1, n, m);
    }
}

impl State {
    /// Whether everything but the operand stack and the table heap is
    /// unchanged between two model states.
    pub open spec fn same_admin(pre: State, post: State) -> bool {
        &&& post.cap == pre.cap
        &&& post.globals == pre.globals
        &&& post.refs == pre.refs
        &&& post.extra == pre.extra
        &&& post.owned == pre.owned
        &&& post.threads_made == pre.threads_made
    }

    /// Pushes a fresh empty table.  The array and record size hints of the
    /// foreign call are capacity advice only; the model takes none.
    pub fn create_table(&mut self, narr: i32, nrec: i32)
        requires
            old(self).wf(),
            old(self).top() < old(self).cap as int,
        ensures
            final(self).wf(),
            State::same_admin(*old(self), *final(self)),
            final(self).tables@.len() == old(self).tables@.len() + 1,
            forall|t: int|
                0 <= t < old(self).tables@.len() ==> final(self).tables@[t] == old(self).tables@[t],
            forall|k: Value|
                final(self).tables@[old(self).tables@.len() as int].spec_get(k) is Nil,
            final(self).stack@ == old(self).stack@.push(
                Value::Table(old(self).tables@.len() as usize),
            ),
    {
        let _ = narr;
        let _ = nrec;
        let id = self.tables.len();
        self.tables.push(TableData::new());
        self.stack.push(Value::Table(id));
        proof {
            let n0 = old(self).tables@.len() as int;
            let n1 = self.tables@.len() as int;
            assert forall|t: int| 0 <= t < n1 implies spec_table_wf(
                #[trigger] self.tables@[t],
                n1,
            ) by {
                if t < n0 {
                    assert(self.tables@[t] == old(self).tables@[t]);
                    lemma_table_wf_grow(self.tables@[t], n0, n1);
                } else {
                    assert(self.tables@[t].entries@.len() == 0);
                }
            }
            assert forall|i: int| 0 <= i < self.stack@.len() implies spec_valid_value(
                #[trigger] self.stack@[i],
                n1,
            ) by {
                if i < old(self).stack@.len() {
                    lemma_valid_grow(self.stack@[i], n0, n1);
                }
            }
            assert forall|r: int|
                0 <= r < self.refs@.len() implies (#[trigger] self.refs@[r] matches Some(v)
                ==> spec_valid_value(v, n1)) by {
                if self.refs@[r] is Some {
                    lemma_valid_grow(self.refs@[r]->0, n0, n1);
                }
            }
        }
    }

    /// Pushes a fresh empty table.
    pub fn new_table(&mut self)
        requires
            old(self).wf(),
            old(self).top() < old(self).cap as int,
        ensures
            final(self).wf(),
            State::same_admin(*old(self), *final(self)),
            final(self).tables@.len() == old(self).tables@.len() + 1,
            forall|t: int|
                0 <= t < old(self).tables@.len() ==> final(self).tables@[t] == old(self).tables@[t],
            forall|k: Value|
                final(self).tables@[old(self).tables@.len() as int].spec_get(k) is Nil,
            final(self).stack@ == old(self).stack@.push(
                Value::Table(old(self).tables@.len() as usize),
            ),
    {
        self.create_table(0, 0);
    }

    /// Raw read `t[k]` with the table at `idx` and the key on top: pops the
    /// key, pushes the value, and reports its type tag.
    pub fn raw_get(&mut self, idx: Index) -> (r: Type)
        requires
            old(self).wf(),
            old(self).top() >= 1,
            old(self).spec_resolves(idx as int),
            old(self).spec_slot(idx as int) is Table,
            spec_abs_index(old(self).top(), idx as int) <= old(self).top() - 1,
        ensures
            final(self).wf(),
            State::same_frame(*old(self), *final(self)),
            ({
                let id = old(self).spec_slot(idx as int)->Table_0;
                let key = old(self).stack@.last();
                let v = old(self).tables@[id as int].spec_get(key);
                final(self).stack@ == old(self).stack@.drop_last().push(v) && r == v.spec_tag()
            }),
    {
        let p = self.resolve(idx).unwrap();
        let id = match &self.stack[p] {
            Value::Table(t) => *t,
            _ => 0,
        };
        let key = self.stack.pop().unwrap();
        let v = self.tables[id].get(&key);
        proof {
            let es = self.tables@[id as int].entries@;
            let hn = self.tables@.len() as int;
            assert forall|i: int| 0 <= i < es.len() implies spec_valid_value(
                #[trigger] es[i].1,
                hn,
            ) by {
                assert(spec_valid_value(es[i].0, hn));
            }
            lemma_lookup_valid(es, key, hn);
        }
        let tag = v.tag();
        self.stack.push(v);
        proof {
            assert(self.stack@ =~= old(self).stack@.drop_last().push(
                old(self).tables@[id as int].spec_get(old(self).stack@.last()),
            ));
        }
        tag
    }

    /// Raw read `t[k]`; the model performs every access raw, since
    /// metamethod dispatch belongs to the runtime.
    pub fn get_table(&mut self, idx: Index) -> (r: Type)
        requires
            old(self).wf(),
            old(self).top() >= 1,
            old(self).spec_resolves(idx as int),
            old(self).spec_slot(idx as int) is Table,
            spec_abs_index(old(self).top(), idx as int) <= old(self).top() - 1,
        ensures
            final(self).wf(),
            State::same_frame(*old(self), *final(self)),
            ({
                let id = old(self).spec_slot(idx as int)->Table_0;
                let key = old(self).stack@.last();
                let v = old(self).tables@[id as int].spec_get(key);
                final(self).stack@ == old(self).stack@.drop_last().push(v) && r == v.spec_tag()
            }),
    {
        self.raw_get(idx)
    }

    /// Raw assignment `t[k] = v` with the table at `idx`, the key below
    /// the top and the value on top: pops both.  A nil or not-a-number
    /// key is refused by precondition, as the runtime refuses it by
    /// raising an error.
    pub fn raw_set(&mut self, idx: Index)
        requires
            old(self).wf(),
            old(self).top() >= 2,
            old(self).spec_resolves(idx as int),
            old(self).spec_slot(idx as int) is Table,
            spec_abs_index(old(self).top(), idx as int) <= old(self).top() - 2,
            spec_valid_key(old(self).stack@[old(self).top() - 2]),
        ensures
            final(self).wf(),
            State::same_admin(*old(self), *final(self)),
            final(self).stack@ == old(self).stack@.subrange(0, old(self).top() - 2),
            ({
                let id = old(self).spec_slot(idx as int)->Table_0;
                let key = old(self).stack@[old(self).top() - 2];
                let v = old(self).stack@.last();
                final(self).tables@.len() == old(self).tables@.len() && (forall|t: int|
                    0 <= t < old(self).tables@.len() && t != id ==> final(self).tables@[t] == old(
                        self,
                    ).tables@[t]) && final(self).tables@[id as int].spec_get(key) == (if v is Nil {
                    Value::Nil
                } else {
                    v
                }) && (forall|q: Value|
                    !spec_value_eq(q, key) ==> #[trigger] final(self).tables@[id as int].spec_get(q)
                        == old(self).tables@[id as int].spec_get(q))
            }),
    {
        let p = self.resolve(idx).unwrap();
        let id = match &self.stack[p] {
            Value::Table(t) => *t,
            _ => 0,
        };
        let v = self.stack.pop().unwrap();
        let key = self.stack.pop().unwrap();
        let ghost n = self.tables@.len() as int;
        self.tables[id].set(key, v, Ghost(n));
        proof {
            assert(self.stack@ =~= old(self).stack@.subrange(0, old(self).top() - 2));
        }
    }

    /// Raw assignment `t[k] = v`; the model performs every access raw.
    pub fn set_table(&mut self, idx: Index)
        requires
            old(self).wf(),
            old(self).top() >= 2,
            old(self).spec_resolves(idx as int),
            old(self).spec_slot(idx as int) is Table,
            spec_abs_index(old(self).top(), idx as int) <= old(self).top() - 2,
            spec_valid_key(old(self).stack@[old(self).top() - 2]),
        ensures
            final(self).wf(),
            State::same_admin(*old(self), *final(self)),
            final(self).stack@ == old(self).stack@.subrange(0, old(self).top() - 2),
            ({
                let id = old(self).spec_slot(idx as int)->Table_0;
                let key = old(self).stack@[old(self).top() - 2];
                let v = old(self).stack@.last();
                final(self).tables@.len() == old(self).tables@.len() && (forall|t: int|
                    0 <= t < old(self).tables@.len() && t != id ==> final(self).tables@[t] == old(
                        self,
                    ).tables@[t]) && final(self).tables@[id as int].spec_get(key) == (if v is Nil {
                    Value::Nil
                } else {
                    v
                }) && (forall|q: Value|
                    !spec_value_eq(q, key) ==> #[trigger] final(self).tables@[id as int].spec_get(q)
                        == old(self).tables@[id as int].spec_get(q))
            }),
    {
        self.raw_set(idx)
    }

    /// Reads `t[name]` for a string key: pushes the value and reports its
    /// type tag.
    pub fn get_field(&mut self, idx: Index, k: &str) -> (r: Type)
        requires
            old(self).wf(),
            old(self).top() < old(self).cap as int,
            old(self).spec_resolves(idx as int),
            old(self).spec_slot(idx as int) is Table,
        ensures
            final(self).wf(),
            State::same_frame(*old(self), *final(self)),
            ({
                let id = old(self).spec_slot(idx as int)->Table_0;
                let v = spec_get_str(old(self).tables@[id as int], k@);
                final(self).stack@ == old(self).stack@.push(v) && r == v.spec_tag()
            }),
    {
        let p = self.resolve(idx).unwrap();
        let id = match &self.stack[p] {
            Value::Table(t) => *t,
            _ => 0,
        };
        let key = Value::Str(k.to_owned());
        let v = self.tables[id].get(&key);
        proof {
            lemma_get_str_key(self.tables@[id as int], key, k@);
            let es = self.tables@[id as int].entries@;
            let hn = self.tables@.len() as int;
            assert forall|i: int| 0 <= i < es.len() implies spec_valid_value(
                #[trigger] es[i].1,
                hn,
            ) by {
                assert(spec_valid_value(es[i].0, hn));
            }
            lemma_lookup_valid(es, key, hn);
        }
        let tag = v.tag();
        self.stack.push(v);
        tag
    }

    /// Assigns `t[name] = v` for a string key, with the value on top:
    /// pops it.
    pub fn set_field(&mut self, idx: Index, k: &str)
        requires
            old(self).wf(),
            old(self).top() >= 1,
            old(self).spec_resolves(idx as int),
            old(self).spec_slot(idx as int) is Table,
            spec_abs_index(old(self).top(), idx as int) <= old(self).top() - 1,
        ensures
            final(self).wf(),
            State::same_admin(*old(self), *final(self)),
            final(self).stack@ == old(self).stack@.drop_last(),
            ({
                let id = old(self).spec_slot(idx as int)->Table_0;
                let v = old(self).stack@.last();
                final(self).tables@.len() == old(self).tables@.len() && (forall|t: int|
                    0 <= t < old(self).tables@.len() && t != id ==> final(self).tables@[t] == old(
                        self,
                    ).tables@[t]) && spec_get_str(final(self).tables@[id as int], k@) == (
                if v is Nil {
                    Value::Nil
                } else {
                    v
                }) && (forall|q: Value|
                    !spec_is_str_key(q, k@) ==> #[trigger] final(self).tables@[id as int].spec_get(
                        q,
                    ) == old(self).tables@[id as int].spec_get(q))
            }),
    {
        let p = self.resolve(idx).unwrap();
        let id = match &self.stack[p] {
            Value::Table(t) => *t,
            _ => 0,
        };
        let v = self.stack.pop().unwrap();
        let key = Value::Str(k.to_owned());
        let ghost gkey = key;
        let ghost n = self.tables@.len() as int;
        self.tables[id].set(key, v, Ghost(n));
        proof {
            assert(self.stack@ =~= old(self).stack@.drop_last());
            lemma_get_str_key(self.tables@[id as int], gkey, k@);
            assert forall|q: Value| !spec_is_str_key(q, k@) implies #[trigger] self.tables@[id as int].spec_get(
                q,
            ) == old(self).tables@[id as int].spec_get(q) by {
                assert(!spec_value_eq(q, gkey));
            }
        }
    }

    /// Reads `t[i]` for an integer key: pushes the value and reports its
    /// type tag.
    pub fn geti(&mut self, idx: Index, i: i64) -> (r: Type)
        requires
            old(self).wf(),
            old(self).top() < old(self).cap as int,
            old(self).spec_resolves(idx as int),
            old(self).spec_slot(idx as int) is Table,
        ensures
            final(self).wf(),
            State::same_frame(*old(self), *final(self)),
            ({
                let id = old(self).spec_slot(idx as int)->Table_0;
                let v = old(self).tables@[id as int].spec_get(Value::Integer(i));
                final(self).stack@ == old(self).stack@.push(v) && r == v.spec_tag()
            }),
    {
        let p = self.resolve(idx).unwrap();
        let id = match &self.stack[p] {
            Value::Table(t) => *t,
            _ => 0,
        };
        let v = self.tables[id].get(&Value::Integer(i));
        proof {
            let es = self.tables@[id as int].entries@;
            let hn = self.tables@.len() as int;
            assert forall|j: int| 0 <= j < es.len() implies spec_valid_value(
                #[trigger] es[j].1,
                hn,
            ) by {
                assert(spec_valid_value(es[j].0, hn));
            }
            lemma_lookup_valid(es, Value::Integer(i), hn);
        }
        let tag = v.tag();
        self.stack.push(v);
        tag
    }

    /// Assigns `t[i] = v` for an integer key, with the value on top: pops
    /// it.
    pub fn seti(&mut self, idx: Index, i: i64)
        requires
            old(self).wf(),
            old(self).top() >= 1,
            old(self).spec_resolves(idx as int),
            old(self).spec_slot(idx as int) is Table,
            spec_abs_index(old(self).top(), idx as int) <= old(self).top() - 1,
        ensures
            final(self).wf(),
            State::same_admin(*old(self), *final(self)),
            final(self).stack@ == old(self).stack@.drop_last(),
            ({
                let id = old(self).spec_slot(idx as int)->Table_0;
                let v = old(self).stack@.last();
                final(self).tables@.len() == old(self).tables@.len() && (forall|t: int|
                    0 <= t < old(self).tables@.len() && t != id ==> final(self).tables@[t] == old(
                        self,
                    ).tables@[t]) && final(self).tables@[id as int].spec_get(Value::Integer(i)) == (
                if v is Nil {
                    Value::Nil
                } else {
                    v
                }) && (forall|q: Value|
                    !spec_value_eq(q, Value::Integer(i)) ==> #[trigger] final(self).tables@[id as int].spec_get(q)
                        == old(self).tables@[id as int].spec_get(q))
            }),
    {
        let p = self.resolve(idx).unwrap();
        let id = match &self.stack[p] {
            Value::Table(t) => *t,
            _ => 0,
        };
        let v = self.stack.pop().unwrap();
        let ghost n = self.tables@.len() as int;
        self.tables[id].set(Value::Integer(i), v, Ghost(n));
        proof {
            assert(self.stack@ =~= old(self).stack@.drop_last());
        }
    }

    /// Raw `t[i]` read for an integer key, same as [`State::geti`].
    pub fn raw_geti(&mut self, idx: Index, i: i64) -> (r: Type)
        requires
            old(self).wf(),
            old(self).top() < old(self).cap as int,
            old(self).spec_resolves(idx as int),
            old(self).spec_slot(idx as int) is Table,
        ensures
            final(self).wf(),
            State::same_frame(*old(self), *final(self)),
            ({
                let id = old(self).spec_slot(idx as int)->Table_0;
                let v = old(self).tables@[id as int].spec_get(Value::Integer(i));
                final(self).stack@ == old(self).stack@.push(v) && r == v.spec_tag()
            }),
    {
        self.geti(idx, i)
    }

    /// Raw `t[i] = v` assignment for an integer key, same as
    /// [`State::seti`].
    pub fn raw_seti(&mut self, idx: Index, i: i64)
        requires
            old(self).wf(),
            old(self).top() >= 1,
            old(self).spec_resolves(idx as int),
            old(self).spec_slot(idx as int) is Table,
            spec_abs_index(old(self).top(), idx as int) <= old(self).top() - 1,
        ensures
            final(self).wf(),
            State::same_admin(*old(self), *final(self)),
            final(self).stack@ == old(self).stack@.drop_last(),
            ({
                let id = old(self).spec_slot(idx as int)->Table_0;
                let v = old(self).stack@.last();
                final(self).tables@.len() == old(self).tables@.len() && (forall|t: int|
                    0 <= t < old(self).tables@.len() && t != id ==> final(self).tables@[t] == old(
                        self,
                    ).tables@[t]) && final(self).tables@[id as int].spec_get(Value::Integer(i)) == (
                if v is Nil {
                    Value::Nil
                } else {
                    v
                }) && (forall|q: Value|
                    !spec_value_eq(q, Value::Integer(i)) ==> #[trigger] final(self).tables@[id as int].spec_get(q)
                        == old(self).tables@[id as int].spec_get(q))
            }),
    {
        self.seti(idx, i)
    }

    /// Pushes the globals table.
    pub fn push_global_table(&mut self)
        requires
            old(self).wf(),
            old(self).top() < old(self).cap as int,
        ensures
            final(self).wf(),
            State::same_frame(*old(self), *final(self)),
            final(self).stack@ == old(self).stack@.push(Value::Table(old(self).globals)),
    {
        let g = self.globals;
        self.push_slot(Value::Table(g));
    }

    /// Reads the global `name`: pushes its value and reports the type tag.
    pub fn get_global(&mut self, name: &str) -> (r: Type)
        requires
            old(self).wf(),
            old(self).top() < old(self).cap as int,
        ensures
            final(self).wf(),
            State::same_frame(*old(self), *final(self)),
            ({
                let v = spec_get_str(old(self).tables@[old(self).globals as int], name@);
                final(self).stack@ == old(self).stack@.push(v) && r == v.spec_tag()
            }),
    {
        let g = self.globals;
        let key = Value::Str(name.to_owned());
        let v = self.tables[g].get(&key);
        proof {
            lemma_get_str_key(self.tables@[g as int], key, name@);
            let es = self.tables@[g as int].entries@;
            let hn = self.tables@.len() as int;
            assert forall|i: int| 0 <= i < es.len() implies spec_valid_value(
                #[trigger] es[i].1,
                hn,
            ) by {
                assert(spec_valid_value(es[i].0, hn));
            }
            lemma_lookup_valid(es, key, hn);
        }
        let tag = v.tag();
        self.stack.push(v);
        tag
    }

    /// Assigns the top value to the global `name` and pops it.
    pub fn set_global(&mut self, name: &str)
        requires
            old(self).wf(),
            old(self).top() >= 1,
        ensures
            final(self).wf(),
            State::same_admin(*old(self), *final(self)),
            final(self).stack@ == old(self).stack@.drop_last(),
            final(self).tables@.len() == old(self).tables@.len(),
            forall|t: int|
                0 <= t < old(self).tables@.len() && t != old(self).globals ==> final(self).tables@[t]
                    == old(self).tables@[t],
            ({
                let v = old(self).stack@.last();
                spec_get_str(final(self).tables@[old(self).globals as int], name@) == (
                if v is Nil {
                    Value::Nil
                } else {
                    v
                }) && (forall|q: Value|
                    !spec_is_str_key(q, name@) ==> #[trigger] final(self).tables@[old(self).globals as int].spec_get(q)
                        == old(self).tables@[old(self).globals as int].spec_get(q))
            }),
    {
        let g = self.globals;
        let v = self.stack.pop().unwrap();
        let key = Value::Str(name.to_owned());
        let ghost gkey = key;
        let ghost n = self.tables@.len() as int;
        self.tables[g].set(key, v, Ghost(n));
        proof {
            assert(self.stack@ =~= old(self).stack@.drop_last());
            lemma_get_str_key(self.tables@[g as int], gkey, name@);
            assert forall|q: Value| !spec_is_str_key(q, name@) implies #[trigger] self.tables@[g as int].spec_get(
                q,
            ) == old(self).tables@[g as int].spec_get(q) by {
                assert(!spec_value_eq(q, gkey));
            }
        }
    }
}


impl State {
    /// Whether everything but the operand stack and the registry is
    /// unchanged between two model states.
    pub open spec fn same_core(pre: State, post: State) -> bool {
        &&& post.cap == pre.cap
        &&& post.tables == pre.tables
        &&& post.globals == pre.globals
        &&& post.extra == pre.extra
        &&& post.owned == pre.owned
        &&& post.threads_made == pre.threads_made
    }

    /// The attached extra-data handle, absent before any attach.
    pub fn get_extra(&self) -> (r: Option<Extra>)
        ensures
            r == self.extra,
    {
        self.extra
    }

    /// Attaches (or detaches, for `None`) the extra-data handle, returning
    /// the previously attached one: attaching over an existing handle hands
    /// it back rather than dropping it.
    pub fn set_extra(&mut self, e: Option<Extra>) -> (r: Option<Extra>)
        ensures
            r == old(self).extra,
            final(self).extra == e,
            final(self).stack == old(self).stack,
            final(self).cap == old(self).cap,
            final(self).tables == old(self).tables,
            final(self).globals == old(self).globals,
            final(self).refs == old(self).refs,
            final(self).owned == old(self).owned,
            final(self).threads_made == old(self).threads_made,
            old(self).wf() ==> final(self).wf(),
    {
        let prev = self.extra;
        self.extra = e;
        prev
    }

    /// Spawns a cooperative sub-thread: pushes its thread value on this
    /// stack and returns a non-owning handle with an empty stack.  The
    /// child handle starts with the same attached extra-data handle as its
    /// parent — the attachment is shared by identity at spawn time — and
    /// with an equal copy of the table heap and registry.  The model's
    /// value semantics makes each handle's view independent from then on:
    /// attachments, table mutations and registrations made on one handle
    /// stay invisible to the other, where the foreign runtime shares one
    /// heap between the threads of an instance.
    pub fn new_thread(&mut self) -> (r: State)
        requires
            old(self).wf(),
            old(self).top() < old(self).cap as int,
            old(self).threads_made < u64::MAX,
        ensures
            final(self).wf(),
            final(self).stack@ == old(self).stack@.push(Value::Thread(old(self).threads_made)),
            final(self).cap == old(self).cap,
            final(self).tables == old(self).tables,
            final(self).globals == old(self).globals,
            final(self).refs == old(self).refs,
            final(self).extra == old(self).extra,
            final(self).owned == old(self).owned,
            final(self).threads_made == old(self).threads_made + 1,
            r.wf(),
            r.stack@.len() == 0,
            r.cap == old(self).cap,
            !r.owned,
            r.extra == old(self).extra,
            r.globals == old(self).globals,
            r.refs@ == old(self).refs@,
            r.tables@.len() == old(self).tables@.len(),
            forall|t: int|
                0 <= t < old(self).tables@.len() ==> #[trigger] r.tables@[t].entries@ == old(
                    self,
                ).tables@[t].entries@,
    {
        let token = self.threads_made;
        self.threads_made = self.threads_made + 1;
        self.push_slot(Value::Thread(token));
        let child = State {
            stack: Vec::new(),
            cap: self.cap,
            tables: clone_tables(&self.tables),
            globals: self.globals,
            refs: clone_refs(&self.refs),
            extra: self.extra,
            owned: false,
            threads_made: self.threads_made,
        };
        proof {
            let n = child.tables@.len() as int;
            assert forall|t: int| 0 <= t < n implies spec_table_wf(
                #[trigger] child.tables@[t],
                n,
            ) by {
                assert(spec_table_wf(old(self).tables@[t], n));
                assert(child.tables@[t].entries@ == old(self).tables@[t].entries@);
            }
        }
        child
    }

    /// Pins the top value into the registry and pops it: a nil value gives
    /// the nil sentinel, anything else is stored in the first free slot (or
    /// a fresh one) and named by a positive reference.  A full registry —
    /// beyond what any host reaches — gives the no-reference sentinel.
    pub fn reference(&mut self, t: Index) -> (r: Reference)
        requires
            old(self).wf(),
            t == REGISTRYINDEX,
            old(self).top() >= 1,
        ensures
            final(self).wf(),
            State::same_core(*old(self), *final(self)),
            final(self).stack@ == old(self).stack@.drop_last(),
            ({
                let v = old(self).stack@.last();
                if v is Nil {
                    r.0 == REFNIL && final(self).refs == old(self).refs
                } else {
                    (r.0 >= 1 && ({
                        let p = r.0 - 1;
                        &&& p < old(self).refs@.len()
                        &&& old(self).refs@[p] is None
                        &&& final(self).refs@ == old(self).refs@.update(p, Some(v))
                        &&& forall|q: int| 0 <= q < p ==> !(#[trigger] old(self).refs@[q] is None)
                    } || {
                        let p = r.0 - 1;
                        &&& p == old(self).refs@.len()
                        &&& final(self).refs@ == old(self).refs@.push(Some(v))
                        &&& forall|q: int|
                            0 <= q < old(self).refs@.len() ==> !(#[trigger] old(
                                self,
                            ).refs@[q] is None)
                    })) || (r.0 == NOREF && final(self).refs == old(self).refs && old(
                        self,
                    ).refs@.len() >= 0x7ffffffe && (forall|q: int|
                        0 <= q < old(self).refs@.len() ==> !(#[trigger] old(
                            self,
                        ).refs@[q] is None)))
                }
            }),
    {
        let v = self.stack.pop().unwrap();
        proof {
            assert(self.stack@ =~= old(self).stack@.drop_last());
        }
        if matches!(v, Value::Nil) {
            return Reference(REFNIL);
        }
        let mut i: usize = 0;
        while i < self.refs.len()
            invariant
                old(self).wf(),
                old(self).top() >= 1,
                v == old(self).stack@.last(),
                !(v is Nil),
                spec_valid_value(v, self.tables@.len() as int),
                i <= self.refs@.len(),
                forall|q: int| 0 <= q < i ==> !(#[trigger] self.refs@[q] is None),
                self.stack@ == old(self).stack@.drop_last(),
                State::same_core(*old(self), *self),
                self.refs == old(self).refs,
            decreases self.refs@.len() - i,
        {
            if self.refs[i].is_none() {
                let ghost pre_refs = self.refs@;
                let ghost gv = v;
                self.refs[i] = Some(v);
                proof {
                    assert(self.refs@ == pre_refs.update(i as int, Some(gv)));
                    assert forall|q: int|
                        0 <= q < self.refs@.len() implies (#[trigger] self.refs@[q] matches Some(w)
                        ==> spec_valid_value(w, self.tables@.len() as int)) by {
                        if q != i {
                            assert(self.refs@[q] == old(self).refs@[q]);
                            assert(old(self).wf());
                        } else {
                            assert(self.refs@[q] == Some(gv));
                        }
                    }
                    assert forall|j: int|
                        0 <= j < self.stack@.len() implies spec_valid_value(
                        #[trigger] self.stack@[j],
                        self.tables@.len() as int,
                    ) by {
                        assert(self.stack@[j] == old(self).stack@.drop_last()[j]);
                        assert(old(self).stack@.drop_last()[j] == old(self).stack@[j]);
                    }
                }
                return Reference((i as i32) + 1);
            }
            i = i + 1;
        }
        proof {
            assert forall|j: int|
                0 <= j < self.stack@.len() implies spec_valid_value(
                #[trigger] self.stack@[j],
                self.tables@.len() as int,
            ) by {
                assert(self.stack@[j] == old(self).stack@.drop_last()[j]);
                assert(old(self).stack@.drop_last()[j] == old(self).stack@[j]);
            }
        }
        if self.refs.len() < 0x7ffffffe {
            let p = self.refs.len();
            self.refs.push(Some(v));
            return Reference((p as i32) + 1);
        }
        Reference(NOREF)
    }

    /// Releases a registry reference, freeing its slot for reuse.  The two
    /// sentinels, and any reference outside the registry, release nothing.
    pub fn unreference(&mut self, t: Index, reference: Reference)
        requires
            old(self).wf(),
            t == REGISTRYINDEX,
        ensures
            final(self).wf(),
            final(self).stack == old(self).stack,
            State::same_core(*old(self), *final(self)),
            if 1 <= reference.0 && reference.0 as int <= old(self).refs@.len() {
                final(self).refs@ == old(self).refs@.update(
                    reference.0 - 1,
                    None::<Value>,
                )
            } else {
                final(self).refs == old(self).refs
            },
    {
        if reference.0 >= 1 && (reference.0 as usize) <= self.refs.len() {
            let p = (reference.0 as usize) - 1;
            self.refs[p] = None;
        }
    }

    /// Reads a pinned value back out of the registry without popping
    /// anything: pushes the value under the reference slot `i`, or nil for
    /// a free or out-of-range slot, and reports the type tag.
    pub fn registry_geti(&mut self, i: i64) -> (r: Type)
        requires
            old(self).wf(),
            old(self).top() < old(self).cap as int,
        ensures
            final(self).wf(),
            State::same_frame(*old(self), *final(self)),
            ({
                let v = if 1 <= i && i as int <= old(self).refs@.len() && old(self).refs@[i
                    - 1] is Some {
                    old(self).refs@[i - 1]->0
                } else {
                    Value::Nil
                };
                final(self).stack@ == old(self).stack@.push(v) && r == v.spec_tag()
            }),
    {
        let v: Value = if i >= 1 && (i as u64) <= (usize::MAX as u64) && (i as usize)
            <= self.refs.len() {
            match &self.refs[(i as usize) - 1] {
                Some(x) => x.duplicate(),
                None => Value::Nil,
            }
        } else {
            Value::Nil
        };
        let tag = v.tag();
        self.push_slot(v);
        tag
    }

    /// Steps the table at `idx` to its next entry: pops a key that is nil
    /// (start) or present in the table, then either pushes the next
    /// entry's key and value and reports true, or pushes nothing and
    /// reports false at the end of the traversal.  The traversal order is
    /// the model's entry order; the runtime promises no particular one.
    pub fn next(&mut self, idx: Index) -> (r: bool)
        requires
            old(self).wf(),
            old(self).top() >= 1,
            old(self).top() < old(self).cap as int,
            old(self).spec_resolves(idx as int),
            old(self).spec_slot(idx as int) is Table,
            spec_abs_index(old(self).top(), idx as int) <= old(self).top() - 1,
            ({
                let s = old(self).tables@[old(self).spec_slot(idx as int)->Table_0 as int].entries@;
                let key = old(self).stack@.last();
                key is Nil || exists|j: int| 0 <= j < s.len() && spec_value_eq(#[trigger] s[j].0, key)
            }),
        ensures
            final(self).wf(),
            State::same_frame(*old(self), *final(self)),
            ({
                let s = old(self).tables@[old(self).spec_slot(idx as int)->Table_0 as int].entries@;
                let key = old(self).stack@.last();
                let base = old(self).stack@.drop_last();
                if key is Nil {
                    if s.len() == 0 {
                        !r && final(self).stack@ == base
                    } else {
                        r && final(self).stack@ == base.push(s[0].0).push(s[0].1)
                    }
                } else {
                    exists|j: int|
                        0 <= j < s.len() && spec_value_eq(#[trigger] s[j].0, key) && if j + 1
                            < s.len() {
                            r && final(self).stack@ == base.push(s[j + 1].0).push(s[j + 1].1)
                        } else {
                            !r && final(self).stack@ == base
                        }
                }
            }),
    {
        let p = self.resolve(idx).unwrap();
        let id = match &self.stack[p] {
            Value::Table(t) => *t,
            _ => 0,
        };
        let key = self.stack.pop().unwrap();
        proof {
            assert(self.stack@ =~= old(self).stack@.drop_last());
        }
        let count = self.tables[id].entries.len();
        let pos: usize = if matches!(key, Value::Nil) {
            0
        } else {
            match self.tables[id].find(&key) {
                Some(j) => j + 1,
                None => count,
            }
        };
        if pos < self.tables[id].entries.len() {
            let kv = self.tables[id].entries[pos].0.duplicate();
            let vv = self.tables[id].entries[pos].1.duplicate();
            proof {
                let es = self.tables@[id as int].entries@;
                let hn = self.tables@.len() as int;
                assert(spec_valid_value(es[pos as int].0, hn));
                assert(spec_valid_value(es[pos as int].1, hn));
            }
            self.stack.push(kv);
            self.stack.push(vv);
            true
        } else {
            false
        }
    }

    /// Ensures `t[fname]` is a table: pushes it and reports true when it
    /// already is one; otherwise creates a fresh table, stores it under
    /// the field, pushes it and reports false.
    pub fn get_subtable(&mut self, idx: Index, fname: &str) -> (r: bool)
        requires
            old(self).wf(),
            old(self).top() + 1 < old(self).cap as int,
            old(self).spec_resolves(idx as int),
            old(self).spec_slot(idx as int) is Table,
            spec_abs_index(old(self).top(), idx as int) >= 1,
        ensures
            final(self).wf(),
            State::same_admin(*old(self), *final(self)),
            ({
                let id = old(self).spec_slot(idx as int)->Table_0;
                let v = spec_get_str(old(self).tables@[id as int], fname@);
                if v is Table {
                    r && final(self).stack@ == old(self).stack@.push(v) && final(self).tables
                        == old(self).tables
                } else {
                    let fresh = old(self).tables@.len() as int;
                    !r && final(self).stack@ == old(self).stack@.push(
                        Value::Table(old(self).tables@.len() as usize),
                    ) && final(self).tables@.len() == fresh + 1 && spec_get_str(
                        final(self).tables@[id as int],
                        fname@,
                    ) == Value::Table(old(self).tables@.len() as usize) && (forall|k: Value|
                        final(self).tables@[fresh].spec_get(k) is Nil) && (forall|t: int|
                        0 <= t < fresh && t != id ==> final(self).tables@[t] == old(
                            self,
                        ).tables@[t])
                }
            }),
    {
        let a = self.abs_index(idx);
        let tag = self.get_field(idx, fname);
        if matches!(tag, Type::Table) {
            return true;
        }
        self.pop(1);
        proof {
            assert(self.stack@ =~= old(self).stack@);
        }
        self.create_table(0, 0);
        self.push_value(-1);
        proof {
            assert(self.stack@ =~= old(self).stack@.push(
                Value::Table(old(self).tables@.len() as usize),
            ).push(Value::Table(old(self).tables@.len() as usize)));
        }
        self.set_field(a, fname);
        proof {
            assert(self.stack@ =~= old(self).stack@.push(
                Value::Table(old(self).tables@.len() as usize),
            ));
        }
        false
    }
}


impl State {
    /// Registers each `(name, fn)` pair into the table lying below `nup`
    /// upvalue slots at the top of the stack, then pops those slots,
    /// leaving the table on top.  The registered functions share the
    /// upvalues in the runtime's closure representation; the model
    /// carries the function tokens and consumes the upvalue values.
    pub fn set_fns(&mut self, l: &Vec<(String, Function)>, nup: i32)
        requires
            old(self).wf(),
            nup >= 0,
            old(self).top() >= nup as int + 1,
            old(self).stack@[old(self).top() - nup as int - 1] is Table,
        ensures
            final(self).wf(),
            State::same_admin(*old(self), *final(self)),
            final(self).stack@ == old(self).stack@.subrange(0, old(self).top() - nup as int),
            final(self).tables@.len() == old(self).tables@.len(),
            ({
                let id = old(self).stack@[old(self).top() - nup as int - 1]->Table_0;
                (forall|t: int|
                    0 <= t < old(self).tables@.len() && t != id ==> final(self).tables@[t] == old(
                        self,
                    ).tables@[t]) && (forall|q: Value|
                    #[trigger] final(self).tables@[id as int].spec_get(q) == spec_fns_lookup(
                        l@,
                        q,
                        old(self).tables@[id as int].spec_get(q),
                    ))
            }),
    {
        let p: usize = self.stack.len() - (nup as usize) - 1;
        let id: usize = match &self.stack[p] {
            Value::Table(t) => *t,
            _ => 0,
        };
        let ghost gid = id as int;
        let mut i: usize = 0;
        while i < l.len()
            invariant
                old(self).wf(),
                i <= l@.len(),
                self.wf(),
                State::same_admin(*old(self), *self),
                self.stack@ == old(self).stack@,
                self.tables@.len() == old(self).tables@.len(),
                gid == id as int,
                gid < self.tables@.len(),
                forall|t: int|
                    0 <= t < old(self).tables@.len() && t != gid ==> #[trigger] self.tables@[t]
                        == old(self).tables@[t],
                forall|q: Value|
                    #[trigger] self.tables@[gid].spec_get(q) == spec_fns_lookup(
                        l@.subrange(0, i as int),
                        q,
                        old(self).tables@[gid].spec_get(q),
                    ),
            decreases l@.len() - i,
        {
            let name: &String = &l[i].0;
            let f: Function = l[i].1;
            let key = Value::Str(name.clone());
            let ghost gkey = key;
            let ghost n = self.tables@.len() as int;
            let ghost mid = *self;
            self.tables[id].set(key, Value::Function(f.0), Ghost(n));
            proof {
                let part = l@.subrange(0, i as int);
                let part1 = l@.subrange(0, i + 1);
                assert(part1.drop_last() =~= part);
                assert(part1.last() == l@[i as int]);
                assert forall|q: Value| #[trigger] self.tables@[gid].spec_get(q)
                    == spec_fns_lookup(part1, q, old(self).tables@[gid].spec_get(q)) by {
                    if spec_is_str_key(q, name@) {
                        assert(spec_value_eq(q, Value::Str(part1.last().0)));
                        lemma_get_str_key(self.tables@[gid], q, name@);
                        lemma_get_str_key(self.tables@[gid], gkey, name@);
                        assert(self.tables@[gid].spec_get(gkey) == Value::Function(f.0));
                    } else {
                        assert(!spec_value_eq(q, Value::Str(part1.last().0)));
                        assert(!spec_value_eq(q, gkey));
                        assert(self.tables@[gid].spec_get(q) == mid.tables@[gid].spec_get(q));
                    }
                }
            }
            i = i + 1;
        }
        proof {
            assert(l@.subrange(0, l@.len() as int) =~= l@);
        }
        self.pop(nup);
    }

    /// Pushes a fresh table sized for a library's function list.
    pub fn new_lib_table(&mut self, l: &Vec<(String, Function)>)
        requires
            old(self).wf(),
            old(self).top() < old(self).cap as int,
        ensures
            final(self).wf(),
            State::same_admin(*old(self), *final(self)),
            final(self).tables@.len() == old(self).tables@.len() + 1,
            forall|t: int|
                0 <= t < old(self).tables@.len() ==> final(self).tables@[t] == old(self).tables@[t],
            forall|k: Value|
                final(self).tables@[old(self).tables@.len() as int].spec_get(k) is Nil,
            final(self).stack@ == old(self).stack@.push(
                Value::Table(old(self).tables@.len() as usize),
            ),
    {
        self.create_table(0, 0);
        let _ = l;
    }

    /// Builds a library table: pushes a fresh table holding exactly the
    /// given `(name, fn)` registrations.
    pub fn new_lib(&mut self, l: &Vec<(String, Function)>)
        requires
            old(self).wf(),
            old(self).top() + 1 < old(self).cap as int,
        ensures
            final(self).wf(),
            State::same_admin(*old(self), *final(self)),
            final(self).tables@.len() == old(self).tables@.len() + 1,
            forall|t: int|
                0 <= t < old(self).tables@.len() ==> final(self).tables@[t] == old(self).tables@[t],
            final(self).stack@ == old(self).stack@.push(
                Value::Table(old(self).tables@.len() as usize),
            ),
            forall|q: Value|
                #[trigger] final(self).tables@[old(self).tables@.len() as int].spec_get(q)
                    == spec_fns_lookup(l@, q, Value::Nil),
    {
        let n0: usize = self.tables.len();
        self.new_lib_table(l);
        let ghost mid = *self;
        self.set_fns(l, 0);
        proof {
            let fresh = old(self).tables@.len() as int;
            assert(n0 as int == fresh);
            assert(mid.stack@.last() == Value::Table(n0));
            assert(mid.stack@[mid.top() - 1]->Table_0 == fresh);
            assert(self.stack@ =~= mid.stack@);
            assert forall|t: int| 0 <= t < fresh implies #[trigger] self.tables@[t] == old(
                self,
            ).tables@[t] by {
                assert(self.tables@[t] == mid.tables@[t]);
            }
            assert forall|q: Value| #[trigger] self.tables@[fresh].spec_get(q) == spec_fns_lookup(
                l@,
                q,
                Value::Nil,
            ) by {
                assert(self.tables@[fresh].spec_get(q) == spec_fns_lookup(
                    l@,
                    q,
                    mid.tables@[fresh].spec_get(q),
                ));
                assert(mid.tables@[fresh].spec_get(q) == Value::Nil);
            }
        }
    }
}


impl State {
    /// Pushes a native function with `n` upvalues, consuming the upvalue
    /// values below it.  Upvalue storage itself belongs to the runtime's
    /// closure representation; the model consumes the values and carries
    /// the function token.
    pub fn push_closure(&mut self, f: Function, n: i32)
        requires
            old(self).wf(),
            0 <= n as int <= old(self).top(),
            old(self).top() < old(self).cap as int,
        ensures
            final(self).wf(),
            State::same_frame(*old(self), *final(self)),
            final(self).stack@ == old(self).stack@.subrange(0, old(self).top() - n as int).push(
                Value::Function(f.0),
            ),
    {
        self.pop(n);
        self.push_slot(Value::Function(f.0));
    }

    /// Pushes the length of the value at `idx` as an integer: the
    /// character length of a string, a border of a table's sequence part.
    /// Metamethod-defined lengths belong to the runtime.
    pub fn len(&mut self, idx: Index)
        requires
            old(self).wf(),
            old(self).top() < old(self).cap as int,
            old(self).spec_resolves(idx as int),
            old(self).spec_slot(idx as int) is Str || old(self).spec_slot(idx as int) is Table,
        ensures
            final(self).wf(),
            State::same_frame(*old(self), *final(self)),
            final(self).stack@.len() == old(self).stack@.len() + 1,
            final(self).stack@.drop_last() == old(self).stack@,
            final(self).stack@.last() is Integer,
            old(self).spec_slot(idx as int) matches Value::Str(s) ==> final(self).stack@.last()
                == Value::Integer(((s@.len() as u64) as i64)),
            old(self).spec_slot(idx as int) matches Value::Table(t) ==> final(self).stack@.last()
                == Value::Integer(((spec_border(old(self).tables@[t as int]) as u64) as i64)),
    {
        let n = self.raw_len(idx);
        self.push_slot(Value::Integer((n as u64) as i64));
        proof {
            assert(self.stack@.drop_last() =~= old(self).stack@);
        }
    }

    /// The length of the value at `idx` as an integer, without touching
    /// the stack.
    pub fn len_direct(&self, idx: Index) -> (r: i64)
        requires
            self.wf(),
            self.spec_resolves(idx as int),
            self.spec_slot(idx as int) is Str || self.spec_slot(idx as int) is Table,
        ensures
            self.spec_slot(idx as int) matches Value::Str(s) ==> r == ((s@.len() as u64) as i64),
            self.spec_slot(idx as int) matches Value::Table(t) ==> r == ((spec_border(
                self.tables@[t as int],
            ) as u64) as i64),
    {
        let n = self.raw_len(idx);
        (n as u64) as i64
    }
}


impl State {
    /// Converts a numeral text to a number and pushes it, reporting one
    /// more than the text's length on success and zero — with nothing
    /// pushed — when the text is not a numeral the model reads (an
    /// optional sign and decimal digits; the runtime's fuller grammar
    /// stays with the runtime).
    pub fn string_to_number(&mut self, s: &str) -> (r: usize)
        requires
            old(self).wf(),
            old(self).top() < old(self).cap as int,
            s@.len() < usize::MAX,
        ensures
            final(self).wf(),
            State::same_frame(*old(self), *final(self)),
            match spec_parse_int(s@) {
                Some(v) => r == s@.len() + 1 && final(self).stack@ == old(self).stack@.push(
                    Value::Integer(v),
                ),
                None => r == 0 && final(self).stack@ == old(self).stack@,
            },
    {
        match parse_int(s) {
            Some(v) => {
                self.push_slot(Value::Integer(v));
                char_count(s) + 1
            },
            None => 0,
        }
    }
}


impl State {
    /// Moves the top `n` values from this stack onto another instance's
    /// stack, keeping their order.  Only values that carry no reference
    /// into this instance's table heap may cross — a table is meaningful
    /// only inside the instance that owns it, where the foreign runtime
    /// shares one heap between the two threads of an exchange.
    pub fn xmove(&mut self, to: &mut State, n: i32)
        requires
            old(self).wf(),
            old(to).wf(),
            0 <= n as int <= old(self).top(),
            old(to).top() + n as int <= old(to).cap as int,
            forall|j: int|
                old(self).top() - n as int <= j < old(self).top() ==> !(#[trigger] old(
                    self,
                ).stack@[j] is Table),
        ensures
            final(self).wf(),
            final(to).wf(),
            State::same_frame(*old(self), *final(self)),
            State::same_frame(*old(to), *final(to)),
            final(self).stack@ == old(self).stack@.subrange(0, old(self).top() - n as int),
            final(to).stack@ == old(to).stack@ + old(self).stack@.subrange(
                old(self).top() - n as int,
                old(self).top(),
            ),
    {
        let count = n as usize;
        let base = self.stack.len() - count;
        let mut i: usize = 0;
        while i < count
            invariant
                old(self).wf(),
                old(to).wf(),
                *self == *old(self),
                base + count == old(self).stack@.len(),
                old(to).top() + count <= old(to).cap as int,
                i <= count,
                forall|j: int|
                    base <= j < old(self).top() ==> !(#[trigger] old(self).stack@[j] is Table),
                to.wf(),
                State::same_frame(*old(to), *to),
                to.stack@ == old(to).stack@ + old(self).stack@.subrange(
                    base as int,
                    base + i,
                ),
            decreases count - i,
        {
            let v = self.stack[base + i].duplicate();
            proof {
                assert(!(v is Table));
                assert(spec_valid_value(v, to.tables@.len() as int));
            }
            to.stack.push(v);
            proof {
                assert(to.stack@ =~= old(to).stack@ + old(self).stack@.subrange(
                    base as int,
                    base + i + 1,
                ));
            }
            i = i + 1;
        }
        self.pop(n);
    }
}

/// Makes an equal copy of one table.
fn clone_table(t: &TableData) -> (r: TableData)
    ensures
        r.entries@ == t.entries@,
{
    let mut entries: Vec<(Value, Value)> = Vec::new();
    let mut i: usize = 0;
    while i < t.entries.len()
        invariant
            i <= t.entries@.len(),
            entries@ == t.entries@.subrange(0, i as int),
        decreases t.entries@.len() - i,
    {
        let k = t.entries[i].0.duplicate();
        let v = t.entries[i].1.duplicate();
        entries.push((k, v));
        proof {
            assert(entries@ =~= t.entries@.subrange(0, i + 1));
        }
        i = i + 1;
    }
    proof {
        assert(t.entries@.subrange(0, t.entries@.len() as int) =~= t.entries@);
    }
    TableData { entries }
}

/// Makes a copy of the table heap whose tables hold equal entries.
fn clone_tables(ts: &Vec<TableData>) -> (r: Vec<TableData>)
    ensures
        r@.len() == ts@.len(),
        forall|t: int| 0 <= t < ts@.len() ==> #[trigger] r@[t].entries@ == ts@[t].entries@,
{
    let mut r: Vec<TableData> = Vec::new();
    let mut i: usize = 0;
    while i < ts.len()
        invariant
            i <= ts@.len(),
            r@.len() == i,
            forall|t: int| 0 <= t < i ==> #[trigger] r@[t].entries@ == ts@[t].entries@,
        decreases ts@.len() - i,
    {
        r.push(clone_table(&ts[i]));
        i = i + 1;
    }
    r
}

/// Makes an equal copy of the registry.
fn clone_refs(rs: &Vec<Option<Value>>) -> (r: Vec<Option<Value>>)
    ensures
        r@ == rs@,
{
    let mut r: Vec<Option<Value>> = Vec::new();
    let mut i: usize = 0;
    while i < rs.len()
        invariant
            i <= rs@.len(),
            r@ == rs@.subrange(0, i as int),
        decreases rs@.len() - i,
    {
        let v: Option<Value> = match &rs[i] {
            Some(x) => Some(x.duplicate()),
            None => None,
        };
        r.push(v);
        proof {
            assert(r@ =~= rs@.subrange(0, i + 1));
        }
        i = i + 1;
    }
    proof {
        assert(rs@.subrange(0, rs@.len() as int) =~= rs@);
    }
    r
}

/// Reduction of a modulus whose dividend lies below twice the divisor.
proof fn lemma_wrap_mod(x: int, m: int)
    requires
        0 < m,
        0 <= x < 2 * m,
    ensures
        x % m == if x < m {
            x
        } else {
            x - m
        },
{
    if x < m {
        vstd::arithmetic::div_mod::lemma_small_mod(x as nat, m as nat);
    } else {
        vstd::arithmetic::div_mod::lemma_mod_self_0(m);
        vstd::arithmetic::div_mod::lemma_sub_mod_noop_right(x, m, m);
        vstd::arithmetic::div_mod::lemma_small_mod((x - m) as nat, m as nat);
    }
}

/// Resolving an already-resolved index changes nothing: absolute results
/// and pseudo-indexes are fixed points of the resolution.
pub proof fn lemma_abs_index_idempotent(top: int, idx: int)
    requires
        spec_abs_index(top, idx) >= 1 || idx <= REGISTRYINDEX as int,
    ensures
        spec_abs_index(top, spec_abs_index(top, idx)) == spec_abs_index(top, idx),
{
}

} // verus!
