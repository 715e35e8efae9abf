//! Tables of the modelled interpreter: association lists with unique keys,
//! looked up under primitive value equality.
//!
//! A table never stores a nil key, a not-a-number key or a nil value:
//! assigning nil to a key removes it, exactly as the foreign runtime's raw
//! assignment does.

use vstd::prelude::*;

use crate::value::spec_is_nan_bits;
use crate::value::spec_value_eq;
use crate::value::Value;

verus! {

/// One table object of the modelled heap.
#[derive(Debug)]
pub struct TableData {
    /// The entries, in insertion order.
    pub entries: Vec<(Value, Value)>,
}

/// Whether a value may refer into a heap of `n` tables.
pub open spec fn spec_valid_value(v: Value, n: int) -> bool {
    match v {
        Value::Table(id) => id < n,
        _ => true,
    }
}

/// Whether a value is acceptable as a table key: not nil and not a
/// not-a-number float, the two keys the foreign runtime rejects.
pub open spec fn spec_valid_key(k: Value) -> bool {
    match k {
        Value::Nil => false,
        Value::Number(b) => !spec_is_nan_bits(b),
        _ => true,
    }
}

/// Looks a key up in an entry sequence: the value of the first entry whose
/// key is primitively equal, nil when there is none.
pub open spec fn spec_lookup_entries(s: Seq<(Value, Value)>, k: Value) -> Value
    decreases s.len(),
{
    if s.len() == 0 {
        Value::Nil
    } else if spec_value_eq(s[0].0, k) {
        s[0].1
    } else {
        spec_lookup_entries(s.drop_first(), k)
    }
}

/// Well-formedness of one table with respect to a heap of `n` tables:
/// valid keys and values, no nil value stored, and pairwise distinct keys.
pub open spec fn spec_table_wf(t: TableData, n: int) -> bool {
    &&& forall|i: int|
        0 <= i < t.entries@.len() ==> spec_valid_value(#[trigger] t.entries@[i].0, n)
            && spec_valid_value(t.entries@[i].1, n) && spec_valid_key(t.entries@[i].0)
            && !(t.entries@[i].1 is Nil)
    &&& forall|i: int, j: int|
        0 <= i < j < t.entries@.len() ==> !spec_value_eq(
            #[trigger] t.entries@[i].0,
            #[trigger] t.entries@[j].0,
        )
}

impl TableData {
    /// The lookup map this table denotes.
    pub open spec fn spec_get(self, k: Value) -> Value {
        spec_lookup_entries(self.entries@, k)
    }

    /// A fresh, empty table.
    pub fn new() -> (r: TableData)
        ensures
            r.entries@.len() == 0,
            forall|k: Value| r.spec_get(k) is Nil,
    {
        TableData { entries: Vec::new() }
    }

    /// The position of the entry whose key is primitively equal to `k`.
    pub(crate) fn find(&self, k: &Value) -> (r: Option<usize>)
        ensures
            match r {
                Some(i) => i < self.entries@.len() && spec_value_eq(self.entries@[i as int].0, *k)
                    && forall|j: int|
                    0 <= j < i ==> !spec_value_eq(#[trigger] self.entries@[j].0, *k),
                None => forall|i: int|
                    0 <= i < self.entries@.len() ==> !spec_value_eq(
                        #[trigger] self.entries@[i].0,
                        *k,
                    ),
            },
    {
        let mut i: usize = 0;
        while i < self.entries.len()
            invariant
                i <= self.entries@.len(),
                forall|j: int|
                    0 <= j < i ==> !spec_value_eq(#[trigger] self.entries@[j].0, *k),
            decreases self.entries@.len() - i,
        {
            if self.entries[i].0.raw_eq(k) {
                return Some(i);
            }
            i = i + 1;
        }
        None
    }

    /// Reads the value stored under `k`, nil when absent.  Never mutates the
    /// table.
    pub fn get(&self, k: &Value) -> (r: Value)
        ensures
            r == self.spec_get(*k),
    {
        match self.find(k) {
            Some(i) => {
                proof {
                    lemma_lookup_found(self.entries@, *k, i as int);
                }
                self.entries[i].1.duplicate()
            },
            None => {
                proof {
                    lemma_lookup_none(self.entries@, *k);
                }
                Value::Nil
            },
        }
    }

    /// Raw assignment `t[k] = v`: assigning nil removes the key, anything
    /// else replaces or inserts it.  Every other key keeps its value.
    pub fn set(&mut self, k: Value, v: Value, Ghost(n): Ghost<int>)
        requires
            spec_table_wf(*old(self), n),
            spec_valid_key(k),
            spec_valid_value(k, n),
            spec_valid_value(v, n),
        ensures
            spec_table_wf(*final(self), n),
            final(self).spec_get(k) == if v is Nil {
                Value::Nil
            } else {
                v
            },
            forall|q: Value|
                !spec_value_eq(q, k) ==> #[trigger] final(self).spec_get(q) == old(self).spec_get(
                    q,
                ),
            final(self).entries@.len() <= old(self).entries@.len() + 1,
    {
        let found = self.find(&k);
        match found {
            Some(i) => {
                proof {
                    lemma_unique_remove(self.entries@, i as int);
                    lemma_lookup_remove(self.entries@, i as int, k);
                    assert forall|q: Value| true implies spec_lookup_entries(
                        self.entries@.remove(i as int),
                        q,
                    ) == if spec_value_eq(self.entries@[i as int].0, q) {
                        Value::Nil
                    } else {
                        spec_lookup_entries(self.entries@, q)
                    } by {
                        lemma_lookup_remove(self.entries@, i as int, q);
                    }
                }
                self.entries.remove(i);
            },
            None => (),
        }
        proof {
            assert forall|j: int|
                0 <= j < self.entries@.len() implies !spec_value_eq(
                #[trigger] self.entries@[j].0,
                k,
            ) by {
                if found is Some {
                    let i = found->0 as int;
                    let pre = old(self).entries@;
                    assert(self.entries@ == pre.remove(i));
                    if j < i {
                        assert(self.entries@[j] == pre[j]);
                    } else {
                        assert(self.entries@[j] == pre[j + 1]);
                    }
                }
            }
        }
        if !matches!(v, Value::Nil) {
            let ghost pre = self.entries@;
            self.entries.push((k, v));
            proof {
                assert(self.entries@ == pre + seq![(k, v)]);
                assert forall|q: Value| true implies #[trigger] spec_lookup_entries(
                    self.entries@,
                    q,
                ) == if spec_value_eq(k, q) {
                    v
                } else {
                    spec_lookup_entries(pre, q)
                } by {
                    lemma_lookup_append_single(pre, k, v, q);
                }
            }
        } else {
            proof {
                lemma_lookup_none(self.entries@, k);
            }
        }
    }
}

/// The scan for a border from position `m` on: the first position whose
/// successor slot is free, capped at the number of entries.
pub open spec fn spec_border_from(t: TableData, m: int) -> int
    decreases t.entries@.len() - m,
    when 0 <= m <= t.entries@.len()
{
    if m == t.entries@.len() || t.spec_get(Value::Integer((m + 1) as i64)) is Nil {
        m
    } else {
        spec_border_from(t, m + 1)
    }
}

/// A border of a table's integer-keyed sequence part: every position from
/// one up to the border is occupied and the next is free, with the scan
/// capped at the number of entries.
pub open spec fn spec_border(t: TableData) -> int {
    spec_border_from(t, 0)
}

impl TableData {
    /// Computes the border of the table's integer-keyed sequence part.
    pub fn border(&self) -> (r: usize)
        ensures
            r == spec_border(*self),
            r <= self.entries@.len(),
            forall|i: int|
                1 <= i <= r ==> !(#[trigger] self.spec_get(Value::Integer(i as i64)) is Nil),
            r < self.entries@.len() ==> self.spec_get(Value::Integer((r + 1) as i64)) is Nil,
    {
        let mut m: usize = 0;
        while m < self.entries.len()
            invariant
                m <= self.entries@.len(),
                spec_border(*self) == spec_border_from(*self, m as int),
                forall|i: int|
                    1 <= i <= m ==> !(#[trigger] self.spec_get(Value::Integer(i as i64)) is Nil),
            decreases self.entries@.len() - m,
        {
            let key = Value::Integer(((m + 1) as u64) as i64);
            let v = self.get(&key);
            if matches!(v, Value::Nil) {
                proof {
                    assert((((m + 1) as u64) as i64) == ((m + 1) as i64));
                    assert(spec_border_from(*self, m as int) == m);
                }
                return m;
            }
            proof {
                assert((((m + 1) as u64) as i64) == ((m + 1) as i64));
                assert(spec_border_from(*self, m as int) == spec_border_from(*self, m + 1));
            }
            m = m + 1;
        }
        proof {
            assert(spec_border_from(*self, m as int) == m);
        }
        m
    }
}


/// A value read out of entries whose stored values are valid is itself
/// valid: the lookup returns nil or one of them.
pub proof fn lemma_lookup_valid(s: Seq<(Value, Value)>, k: Value, n: int)
    requires
        forall|i: int| 0 <= i < s.len() ==> spec_valid_value(#[trigger] s[i].1, n),
    ensures
        spec_valid_value(spec_lookup_entries(s, k), n),
    decreases s.len(),
{
    if s.len() > 0 && !spec_value_eq(s[0].0, k) {
        lemma_lookup_valid(s.drop_first(), k, n);
    }
}

/// If the first `i` keys of `s` do not match `k`, the lookup of `k` in `s`
/// equals the lookup in `s` without its first `i` entries.
proof fn lemma_lookup_skip(s: Seq<(Value, Value)>, k: Value, i: int)
    requires
        0 <= i <= s.len(),
        forall|j: int| 0 <= j < i ==> !spec_value_eq(#[trigger] s[j].0, k),
    ensures
        spec_lookup_entries(s, k) == spec_lookup_entries(s.skip(i), k),
    decreases i,
{
    if i > 0 {
        assert(s.drop_first().skip(i - 1) =~= s.skip(i));
        lemma_lookup_skip(s.drop_first(), k, i - 1);
    } else {
        assert(s.skip(0) =~= s);
    }
}

/// Looking up a key that matches position `i` and no earlier position gives
/// the value at `i`.
proof fn lemma_lookup_found(s: Seq<(Value, Value)>, k: Value, i: int)
    requires
        0 <= i < s.len(),
        spec_value_eq(s[i].0, k),
        forall|j: int| 0 <= j < i ==> !spec_value_eq(#[trigger] s[j].0, k),
    ensures
        spec_lookup_entries(s, k) == s[i].1,
    decreases i,
{
    if i == 0 {
    } else {
        lemma_lookup_found(s.drop_first(), k, i - 1);
    }
}

/// Looking up a key that matches no position gives nil.
proof fn lemma_lookup_none(s: Seq<(Value, Value)>, k: Value)
    requires
        forall|j: int| 0 <= j < s.len() ==> !spec_value_eq(#[trigger] s[j].0, k),
    ensures
        spec_lookup_entries(s, k) is Nil,
    decreases s.len(),
{
    if s.len() > 0 {
        lemma_lookup_none(s.drop_first(), k);
    }
}

/// Removing entry `i` from a sequence with pairwise distinct keys removes
/// exactly the binding of that entry's key.
proof fn lemma_lookup_remove(s: Seq<(Value, Value)>, i: int, q: Value)
    requires
        0 <= i < s.len(),
        forall|a: int, b: int|
            0 <= a < b < s.len() ==> !spec_value_eq(#[trigger] s[a].0, #[trigger] s[b].0),
    ensures
        spec_lookup_entries(s.remove(i), q) == if spec_value_eq(s[i].0, q) {
            Value::Nil
        } else {
            spec_lookup_entries(s, q)
        },
    decreases i,
{
    if i == 0 {
        assert(s.remove(0) =~= s.drop_first());
        if spec_value_eq(s[0].0, q) {
            assert forall|j: int| 0 <= j < s.drop_first().len() implies !spec_value_eq(
                #[trigger] s.drop_first()[j].0,
                q,
            ) by {
                assert(s.drop_first()[j] == s[j + 1]);
                assert(!spec_value_eq(s[0].0, s[j + 1].0));
                lemma_value_eq_trans(s[0].0, q, s[j + 1].0);
            }
            lemma_lookup_none(s.drop_first(), q);
        }
    } else {
        assert(s.remove(i).drop_first() =~= s.drop_first().remove(i - 1));
        assert(s.remove(i)[0] == s[0]);
        lemma_lookup_remove(s.drop_first(), i - 1, q);
    }
}

/// Primitive value equality is transitive through a shared middle value.
proof fn lemma_value_eq_trans(a: Value, b: Value, c: Value)
    requires
        spec_value_eq(a, b),
        !spec_value_eq(a, c),
    ensures
        !spec_value_eq(b, c),
{
}

/// Removing one entry keeps the remaining keys pairwise distinct.
proof fn lemma_unique_remove(s: Seq<(Value, Value)>, i: int)
    requires
        0 <= i < s.len(),
        forall|a: int, b: int|
            0 <= a < b < s.len() ==> !spec_value_eq(#[trigger] s[a].0, #[trigger] s[b].0),
    ensures
        forall|a: int, b: int|
            0 <= a < b < s.remove(i).len() ==> !spec_value_eq(
                #[trigger] s.remove(i)[a].0,
                #[trigger] s.remove(i)[b].0,
            ),
{
    assert forall|a: int, b: int| 0 <= a < b < s.remove(i).len() implies !spec_value_eq(
        #[trigger] s.remove(i)[a].0,
        #[trigger] s.remove(i)[b].0,
    ) by {
        let a0 = if a < i {
            a
        } else {
            a + 1
        };
        let b0 = if b < i {
            b
        } else {
            b + 1
        };
        assert(s.remove(i)[a] == s[a0]);
        assert(s.remove(i)[b] == s[b0]);
    }
}

/// Appending a binding for a key that may or may not occur earlier: the
/// lookup of a query equal to the new key falls through to the new entry
/// only when no earlier entry matched.
proof fn lemma_lookup_append_single(s: Seq<(Value, Value)>, k: Value, v: Value, q: Value)
    requires
        forall|j: int| 0 <= j < s.len() ==> !spec_value_eq(#[trigger] s[j].0, k),
    ensures
        spec_lookup_entries(s + seq![(k, v)], q) == if spec_value_eq(k, q) {
            v
        } else {
            spec_lookup_entries(s, q)
        },
    decreases s.len(),
{
    let t = s + seq![(k, v)];
    assert(t.len() == s.len() + 1);
    if s.len() == 0 {
        assert(t[0] == (k, v));
        if spec_value_eq(k, q) {
            assert(spec_value_eq(t[0].0, q));
            assert(spec_lookup_entries(t, q) == v);
        } else {
            assert(!spec_value_eq(t[0].0, q));
            assert(t.drop_first() =~= Seq::<(Value, Value)>::empty());
            assert(spec_lookup_entries(t, q) == spec_lookup_entries(t.drop_first(), q));
            assert(spec_lookup_entries(t, q) is Nil);
        }
    } else {
        assert(t[0] == s[0]);
        if spec_value_eq(s[0].0, q) {
            if spec_value_eq(k, q) {
                lemma_value_eq_trans(s[0].0, q, k);
                assert(spec_value_eq(s[0].0, k));
                assert(false);
            }
            assert(spec_lookup_entries(t, q) == t[0].1);
            assert(spec_lookup_entries(s, q) == s[0].1);
        } else {
            assert(t.drop_first() =~= s.drop_first() + seq![(k, v)]);
            lemma_lookup_append_single(s.drop_first(), k, v, q);
            assert(spec_lookup_entries(t, q) == spec_lookup_entries(t.drop_first(), q));
            assert(spec_lookup_entries(s, q) == spec_lookup_entries(s.drop_first(), q));
        }
    }
}

} // verus!
