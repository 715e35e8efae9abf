//! String work over the stack: concatenation of trailing values and plain
//! global substitution.

use vstd::prelude::*;

use crate::state::spec_to_str_view;
use crate::state::State;
use crate::text::push_char;
use crate::text::str_to_chars;
use crate::value::Value;

verus! {

/// The text of a run of values, each a string or an integer, joined in
/// stack order.
pub open spec fn spec_concat_views(s: Seq<Value>) -> Seq<char>
    decreases s.len(),
{
    if s.len() == 0 {
        Seq::empty()
    } else {
        spec_concat_views(s.drop_last()) + spec_to_str_view(s.last())->0
    }
}

/// The text `s` with every occurrence of the non-empty plain pattern `p`
/// replaced by `r`, scanning left to right without overlap.
pub open spec fn spec_gsub(s: Seq<char>, p: Seq<char>, r: Seq<char>) -> Seq<char>
    decreases s.len(),
{
    if p.len() == 0 || s.len() < p.len() {
        s
    } else if s.subrange(0, p.len() as int) == p {
        r + spec_gsub(s.skip(p.len() as int), p, r)
    } else {
        seq![s[0]] + spec_gsub(s.drop_first(), p, r)
    }
}

/// Whether the characters of `p` occur in `v` at position `i`.
fn match_at(v: &Vec<char>, i: usize, p: &Vec<char>) -> (r: bool)
    requires
        i + p@.len() <= v@.len(),
    ensures
        r == (v@.subrange(i as int, i + p@.len()) == p@),
{
    let total = v.len();
    let plen = p.len();
    let mut j: usize = 0;
    while j < plen
        invariant
            total == v@.len(),
            plen == p@.len(),
            i + p@.len() <= v@.len(),
            j <= p@.len(),
            forall|t: int| 0 <= t < j ==> v@[i + t] == p@[t],
        decreases p@.len() - j,
    {
        if v[i + j] != p[j] {
            proof {
                assert(v@.subrange(i as int, i + p@.len())[j as int] != p@[j as int]);
            }
            return false;
        }
        j = j + 1;
    }
    proof {
        assert(v@.subrange(i as int, i + p@.len()) =~= p@);
    }
    true
}

/// Replaces every occurrence of the plain pattern `p` in `s` by `r`,
/// scanning left to right without overlap.  The pattern must not be
/// empty; the runtime does not terminate on one.
pub fn gsub_text(s: &str, p: &str, r: &str) -> (out: String)
    requires
        p@.len() >= 1,
    ensures
        out@ == spec_gsub(s@, p@, r@),
{
    let vc = str_to_chars(s);
    let pc = str_to_chars(p);
    let n = vc.len();
    let plen = pc.len();
    let mut out = String::new();
    let mut i: usize = 0;
    proof {
        assert(vc@.skip(0) =~= vc@);
        assert(Seq::<char>::empty() + spec_gsub(vc@, pc@, r@) == spec_gsub(vc@, pc@, r@));
    }
    while i < n
        invariant
            vc@ == s@,
            pc@ == p@,
            n == vc@.len(),
            plen == pc@.len(),
            plen >= 1,
            i <= n,
            spec_gsub(s@, p@, r@) == out@ + spec_gsub(vc@.skip(i as int), pc@, r@),
        decreases n - i,
    {
        let ghost rest = vc@.skip(i as int);
        if plen <= n - i && match_at(&vc, i, &pc) {
            proof {
                assert(rest.subrange(0, plen as int) =~= vc@.subrange(i as int, i + plen));
                assert(rest.skip(plen as int) =~= vc@.skip(i + plen));
                assert(spec_gsub(rest, pc@, r@) == r@ + spec_gsub(vc@.skip(i + plen), pc@, r@));
            }
            out.append(r);
            i = i + plen;
        } else {
            proof {
                if plen <= n - i {
                    assert(rest.subrange(0, plen as int) =~= vc@.subrange(i as int, i + plen));
                    assert(rest.subrange(0, plen as int) != pc@);
                }
                assert(rest.drop_first() =~= vc@.skip(i + 1));
                assert(rest[0] == vc@[i as int]);
                assert(spec_gsub(rest, pc@, r@) == seq![vc@[i as int]] + spec_gsub(
                    vc@.skip(i + 1),
                    pc@,
                    r@,
                ));
            }
            push_char(&mut out, vc[i]);
            i = i + 1;
        }
    }
    proof {
        assert(vc@.skip(n as int) =~= Seq::<char>::empty());
        assert(spec_gsub(vc@.skip(n as int), pc@, r@) == Seq::<char>::empty());
        assert(out@ =~= spec_gsub(s@, p@, r@));
    }
    out
}

impl State {
    /// Replaces every occurrence of the plain pattern `p` in `s` by `r`,
    /// pushes the result and also returns a copy of it.
    pub fn gsub(&mut self, s: &str, p: &str, r: &str) -> (out: String)
        requires
            old(self).wf(),
            old(self).top() < old(self).cap as int,
            p@.len() >= 1,
        ensures
            final(self).wf(),
            State::same_frame(*old(self), *final(self)),
            out@ == spec_gsub(s@, p@, r@),
            final(self).stack@.len() == old(self).stack@.len() + 1,
            final(self).stack@.drop_last() == old(self).stack@,
            final(self).stack@.last() matches Value::Str(t) && t@ == spec_gsub(s@, p@, r@),
    {
        let result = gsub_text(s, p, r);
        let copy = result.clone();
        self.stack.push(Value::Str(result));
        proof {
            assert(self.stack@.drop_last() =~= old(self).stack@);
        }
        copy
    }

    /// Concatenates the top `n` values, each a string or an integer, into
    /// one string.  Zero values concatenate to the empty string; a single
    /// value stays untouched, exactly as the runtime leaves it.
    pub fn concat(&mut self, n: i32)
        requires
            old(self).wf(),
            n >= 0,
            n as int <= old(self).top(),
            old(self).top() < old(self).cap as int,
            forall|j: int|
                old(self).top() - n as int <= j < old(self).top() ==> spec_to_str_view(
                    #[trigger] old(self).stack@[j],
                ) is Some,
        ensures
            final(self).wf(),
            State::same_frame(*old(self), *final(self)),
            n == 1 ==> final(self).stack@ == old(self).stack@,
            n != 1 ==> final(self).stack@.len() == old(self).top() - n as int + 1,
            n != 1 ==> final(self).stack@.drop_last() == old(self).stack@.subrange(
                0,
                old(self).top() - n as int,
            ),
            n != 1 ==> (final(self).stack@.last() matches Value::Str(t) && t@ == spec_concat_views(
                old(self).stack@.subrange(old(self).top() - n as int, old(self).top()),
            )),
    {
        if n == 1 {
            return ;
        }
        let count = n as usize;
        let base = self.stack.len() - count;
        let mut acc = String::new();
        let mut i: usize = 0;
        while i < count
            invariant
                self.wf(),
                *self == *old(self),
                base + count == self.stack@.len(),
                i <= count,
                forall|j: int|
                    base <= j < self.stack@.len() ==> spec_to_str_view(
                        #[trigger] self.stack@[j],
                    ) is Some,
                acc@ == spec_concat_views(self.stack@.subrange(base as int, base + i)),
            decreases count - i,
        {
            let idx: i32 = ((base + i + 1) as u64) as i32;
            proof {
                assert(base + i + 1 <= self.top());
                assert(self.top() <= 0x7fffffff);
                assert(idx as int == base + i + 1);
                assert(self.spec_resolves(idx as int));
                assert(self.spec_slot(idx as int) == self.stack@[base + i]);
            }
            let piece = self.to_str(idx).unwrap();
            acc.append(piece.as_str());
            proof {
                let w = self.stack@.subrange(base as int, base + i + 1);
                assert(w.drop_last() =~= self.stack@.subrange(base as int, base + i));
                assert(w.last() == self.stack@[base + i]);
            }
            i = i + 1;
        }
        let ghost pre = self.stack@;
        self.pop(n);
        self.stack.push(Value::Str(acc));
        proof {
            assert(self.stack@.drop_last() =~= old(self).stack@.subrange(
                0,
                old(self).top() - n as int,
            ));
        }
    }
}

} // verus!
