//! Decimal text for the integer numeric subtype: printing an integer the way
//! the foreign runtime renders it, and reading one back.
//!
//! These are the only string/number coercions the binding performs itself;
//! every other numeric formatting is the runtime's own business.

use vstd::prelude::*;
use vstd::std_specs::iter::IteratorSpec;

verus! {

/// The digit character of a value below ten.
pub open spec fn spec_digit(d: int) -> char {
    if d == 0 {
        '0'
    } else if d == 1 {
        '1'
    } else if d == 2 {
        '2'
    } else if d == 3 {
        '3'
    } else if d == 4 {
        '4'
    } else if d == 5 {
        '5'
    } else if d == 6 {
        '6'
    } else if d == 7 {
        '7'
    } else if d == 8 {
        '8'
    } else {
        '9'
    }
}

/// The decimal digit sequence of a natural number, most significant first.
pub open spec fn spec_dec_nat(n: nat) -> Seq<char>
    decreases n,
{
    if n < 10 {
        seq![spec_digit(n as int)]
    } else {
        spec_dec_nat(n / 10).push(spec_digit((n % 10) as int))
    }
}

/// The decimal rendering of an integer: a leading minus sign for negative
/// values, then the digits of the magnitude.
pub open spec fn spec_dec_int(i: int) -> Seq<char> {
    if i < 0 {
        seq!['-'] + spec_dec_nat((-i) as nat)
    } else {
        spec_dec_nat(i as nat)
    }
}

/// Appends one character to a string.
///
/// Relies on `String::push` of std: "Appends the given char to the end of
/// this String."
#[verifier::external_body]
pub(crate) fn push_char(s: &mut String, c: char)
    ensures
        final(s)@ == old(s)@.push(c),
{
    s.push(c);
}

/// The digit character of a value below ten.
fn digit_char(d: u64) -> (c: char)
    requires
        d < 10,
    ensures
        c == spec_digit(d as int),
{
    match d {
        0 => '0',
        1 => '1',
        2 => '2',
        3 => '3',
        4 => '4',
        5 => '5',
        6 => '6',
        7 => '7',
        8 => '8',
        _ => '9',
    }
}

/// The decimal digit characters of `v`, most significant first.
fn dec_digits(v: u64) -> (r: Vec<char>)
    ensures
        r@ == spec_dec_nat(v as nat),
{
    let mut m: u64 = v;
    let mut digits: Vec<char> = Vec::new();
    loop
        invariant_except_break
            spec_dec_nat(v as nat) == spec_dec_nat(m as nat) + digits@,
        ensures
            digits@ == spec_dec_nat(v as nat),
        decreases m,
    {
        let d: u64 = m % 10;
        let prev = m;
        digits.insert(0, digit_char(d));
        assert(digits@ == seq![spec_digit(d as int)] + digits@.subrange(1, digits@.len() as int));
        m = m / 10;
        if m == 0 {
            assert(prev < 10);
            assert(spec_dec_nat(prev as nat) == seq![spec_digit(d as int)]);
            break;
        }
        assert(prev >= 10);
        assert(spec_dec_nat(prev as nat) == spec_dec_nat((prev / 10) as nat).push(
            spec_digit((prev % 10) as int),
        ));
        assert(spec_dec_nat(m as nat) + digits@ == spec_dec_nat(v as nat));
    }
    digits
}

/// Builds a string from a sequence of characters appended to `s`.
fn push_chars(s: &mut String, cs: &Vec<char>)
    ensures
        final(s)@ == old(s)@ + cs@,
{
    let ghost start = s@;
    let mut i: usize = 0;
    while i < cs.len()
        invariant
            i <= cs@.len(),
            s@ == start + cs@.subrange(0, i as int),
        decreases cs@.len() - i,
    {
        push_char(s, cs[i]);
        i = i + 1;
        assert(start + cs@.subrange(0, i - 1) + seq![cs@[i - 1]] == start + cs@.subrange(
            0,
            i as int,
        ));
    }
    assert(cs@.subrange(0, cs@.len() as int) == cs@);
}

/// Renders an unsigned integer in decimal.
pub fn u64_to_string(v: u64) -> (s: String)
    ensures
        s@ == spec_dec_nat(v as nat),
{
    let digits = dec_digits(v);
    let mut s = String::new();
    push_chars(&mut s, &digits);
    assert(s@ == Seq::<char>::empty() + digits@);
    assert(Seq::<char>::empty() + digits@ == digits@);
    s
}

/// Renders a signed integer in decimal, the way the foreign runtime renders
/// its integer numeric subtype.
pub fn i64_to_string(v: i64) -> (s: String)
    ensures
        s@ == spec_dec_int(v as int),
{
    if v >= 0 {
        u64_to_string(v as u64)
    } else {
        let magnitude: u64 = ((-(v + 1)) as u64) + 1;
        assert(magnitude as int == -(v as int));
        let digits = dec_digits(magnitude);
        let mut s = String::new();
        push_char(&mut s, '-');
        assert(s@ == Seq::<char>::empty().push('-'));
        assert(Seq::<char>::empty().push('-') == seq!['-']);
        push_chars(&mut s, &digits);
        s
    }
}




/// Ten to the power `n`.
pub open spec fn spec_pow10(n: nat) -> int
    decreases n,
{
    if n == 0 {
        1
    } else {
        10 * spec_pow10((n - 1) as nat)
    }
}

/// Whether every character of `ds` is a decimal digit.
pub open spec fn spec_all_digits(ds: Seq<char>) -> bool {
    forall|i: int| 0 <= i < ds.len() ==> 48 <= (#[trigger] ds[i]) as int <= 57
}

/// The value of a digit sequence read in decimal.
pub open spec fn spec_digits_value(ds: Seq<char>) -> int
    decreases ds.len(),
{
    if ds.len() == 0 {
        0
    } else {
        spec_digits_value(ds.drop_last()) * 10 + (ds.last() as int - 48)
    }
}

/// The integer a text denotes under the model's numeral grammar: an
/// optional sign followed by decimal digits, valued within the integer
/// type's range.  The runtime's fuller grammar (hex, floats, surrounding
/// spaces) stays with the runtime.
pub open spec fn spec_parse_int(cs: Seq<char>) -> Option<i64> {
    if cs.len() == 0 {
        None
    } else {
        let signed = cs[0] == '-' || cs[0] == '+';
        let ds = if signed {
            cs.drop_first()
        } else {
            cs
        };
        if ds.len() == 0 || !spec_all_digits(ds) {
            None
        } else {
            let v = if cs[0] == '-' {
                -spec_digits_value(ds)
            } else {
                spec_digits_value(ds)
            };
            if i64::MIN <= v <= i64::MAX {
                Some(v as i64)
            } else {
                None
            }
        }
    }
}

/// A digit sequence is valued below ten to its length.
proof fn lemma_digits_value_upper(ds: Seq<char>)
    requires
        spec_all_digits(ds),
    ensures
        0 <= spec_digits_value(ds) < spec_pow10(ds.len()),
    decreases ds.len(),
{
    if ds.len() > 0 {
        assert(spec_all_digits(ds.drop_last())) by {
            assert(forall|i: int|
                0 <= i < ds.len() - 1 ==> #[trigger] ds.drop_last()[i] == ds[i]);
        }
        lemma_digits_value_upper(ds.drop_last());
    }
}

/// A digit sequence with a non-zero leading digit is valued at least ten
/// to one less than its length.
proof fn lemma_digits_value_lower(ds: Seq<char>)
    requires
        spec_all_digits(ds),
        ds.len() >= 1,
        ds[0] != '0',
    ensures
        spec_digits_value(ds) >= spec_pow10((ds.len() - 1) as nat),
    decreases ds.len(),
{
    if ds.len() == 1 {
        assert(ds.last() == ds[0]);
        assert(ds.last() as int >= 48);
        assert(ds.last() as int != 48);
        assert(spec_digits_value(ds.drop_last()) == 0);
        assert(spec_pow10(0) == 1);
    } else {
        assert(spec_all_digits(ds.drop_last())) by {
            assert(forall|i: int|
                0 <= i < ds.len() - 1 ==> #[trigger] ds.drop_last()[i] == ds[i]);
        }
        assert(ds.drop_last()[0] == ds[0]);
        lemma_digits_value_lower(ds.drop_last());
        assert(ds.last() as int >= 48);
        assert(spec_pow10((ds.len() - 1) as nat) == 10 * spec_pow10((ds.len() - 2) as nat));
    }
}

/// Leading zeros do not change a digit sequence's value.
proof fn lemma_digits_value_skip_zeros(ds: Seq<char>, z: int)
    requires
        0 <= z <= ds.len(),
        forall|i: int| 0 <= i < z ==> (#[trigger] ds[i]) == '0',
    ensures
        spec_digits_value(ds) == spec_digits_value(ds.skip(z)),
    decreases ds.len(),
{
    if z == ds.len() {
        lemma_digits_value_all_zeros(ds);
        assert(ds.skip(z) =~= Seq::<char>::empty());
    } else if ds.len() > 0 {
        if z < ds.len() {
            assert(ds.drop_last().skip(z) =~= ds.skip(z).drop_last());
            lemma_digits_value_skip_zeros(ds.drop_last(), if z <= ds.len() - 1 {
                z
            } else {
                ds.len() - 1
            });
            assert(ds.skip(z).last() == ds.last());
        }
    }
}

/// A sequence of zero digits is valued zero.
proof fn lemma_digits_value_all_zeros(ds: Seq<char>)
    requires
        forall|i: int| 0 <= i < ds.len() ==> (#[trigger] ds[i]) == '0',
    ensures
        spec_digits_value(ds) == 0,
    decreases ds.len(),
{
    if ds.len() > 0 {
        lemma_digits_value_all_zeros(ds.drop_last());
    }
}

/// Whether every character of `cs` from `start` on is a decimal digit.
fn check_all_digits(cs: &Vec<char>, start: usize) -> (r: bool)
    requires
        start <= cs@.len(),
    ensures
        r == spec_all_digits(cs@.skip(start as int)),
{
    let n = cs.len();
    let mut i: usize = start;
    while i < n
        invariant
            n == cs@.len(),
            start <= i <= n,
            forall|j: int| start <= j < i ==> 48 <= (#[trigger] cs@[j]) as int <= 57,
        decreases n - i,
    {
        let c = cs[i];
        if !(c >= '0' && c <= '9') {
            proof {
                assert(cs@.skip(start as int)[i - start] == cs@[i as int]);
            }
            return false;
        }
        i = i + 1;
    }
    proof {
        assert forall|j: int| 0 <= j < cs@.skip(start as int).len() implies 48 <= (#[trigger] cs@.skip(
            start as int,
        )[j]) as int <= 57 by {
            assert(cs@.skip(start as int)[j] == cs@[start + j]);
        }
    }
    true
}

/// The first position from `start` on that holds something other than a
/// zero digit.
fn skip_zeros(cs: &Vec<char>, start: usize) -> (z: usize)
    requires
        start <= cs@.len(),
    ensures
        start <= z <= cs@.len(),
        forall|j: int| start <= j < z ==> (#[trigger] cs@[j]) == '0',
        z < cs@.len() ==> cs@[z as int] != '0',
{
    let n = cs.len();
    let mut z: usize = start;
    while z < n && matches!(cs[z], '0')
        invariant
            n == cs@.len(),
            start <= z <= n,
            forall|j: int| start <= j < z ==> (#[trigger] cs@[j]) == '0',
        decreases n - z,
    {
        z = z + 1;
    }
    z
}

/// Accumulates at most nineteen decimal digits into an unsigned value.
fn digits_to_u64(cs: &Vec<char>, z: usize) -> (mag: u64)
    requires
        z <= cs@.len(),
        cs@.len() - z <= 19,
        forall|j: int| z <= j < cs@.len() ==> 48 <= (#[trigger] cs@[j]) as int <= 57,
    ensures
        mag as int == spec_digits_value(cs@.skip(z as int)),
{
    let n = cs.len();
    let mut mag: u64 = 0;
    let mut k: usize = z;
    while k < n
        invariant
            n == cs@.len(),
            z <= k <= n,
            n - z <= 19,
            forall|j: int| z <= j < n ==> 48 <= (#[trigger] cs@[j]) as int <= 57,
            mag as int == spec_digits_value(cs@.subrange(z as int, k as int)),
            (mag as int) < spec_pow10((k - z) as nat),
        decreases n - k,
    {
        let c = cs[k];
        let d: u64 = (c as u64) - 48;
        proof {
            lemma_pow10_increases((k - z) as nat, 18);
            assert(spec_pow10(18) == 1000000000000000000) by {
                reveal_with_fuel(spec_pow10, 20);
            }
        }
        mag = mag * 10 + d;
        proof {
            let w = cs@.subrange(z as int, k + 1);
            assert(w.drop_last() =~= cs@.subrange(z as int, k as int));
            assert(w.last() == cs@[k as int]);
        }
        k = k + 1;
    }
    proof {
        assert(cs@.subrange(z as int, n as int) =~= cs@.skip(z as int));
    }
    mag
}

/// Reads an integer out of a text under the model's numeral grammar: an
/// optional sign followed by decimal digits.  Out-of-range values are
/// absent, never wrapped.
#[verifier::rlimit(50)]
pub fn parse_int(s: &str) -> (r: Option<i64>)
    ensures
        r == spec_parse_int(s@),
{
    let cs = str_to_chars(s);
    let n = cs.len();
    if n == 0 {
        return None;
    }
    let first = cs[0];
    let negative = first == '-';
    let start: usize = if first == '-' || first == '+' {
        1
    } else {
        0
    };
    let ghost ds = if start == 1 {
        s@.drop_first()
    } else {
        s@
    };
    proof {
        assert(ds =~= cs@.skip(start as int));
    }
    if n == start {
        return None;
    }
    if !check_all_digits(&cs, start) {
        return None;
    }
    proof {
        assert forall|j: int| start <= j < cs@.len() implies 48 <= (#[trigger] cs@[j]) as int
            <= 57 by {
            assert(cs@.skip(start as int)[j - start] == cs@[j]);
        }
    }
    let z = skip_zeros(&cs, start);
    proof {
        lemma_digits_value_skip_zeros(ds, z - start);
        assert(ds.skip(z - start) =~= cs@.skip(z as int));
        lemma_digits_value_upper(ds);
    }
    let digits = n - z;
    if digits > 19 {
        proof {
            let sig = cs@.skip(z as int);
            assert(spec_all_digits(sig)) by {
                assert(forall|j: int| 0 <= j < sig.len() ==> #[trigger] sig[j] == cs@[z + j]);
            }
            assert(sig[0] == cs@[z as int]);
            lemma_digits_value_lower(sig);
            assert(spec_pow10(19) == 10000000000000000000) by {
                reveal_with_fuel(spec_pow10, 21);
            }
            lemma_pow10_increases(19, (sig.len() - 1) as nat);
        }
        return None;
    }
    proof {
        assert(spec_all_digits(cs@.skip(z as int))) by {
            assert(forall|j: int|
                0 <= j < cs@.skip(z as int).len() ==> #[trigger] cs@.skip(z as int)[j] == cs@[z
                    + j]);
        }
        lemma_digits_value_upper(cs@.skip(z as int));
        lemma_pow10_increases((n - z) as nat, 19);
        assert(spec_pow10(19) == 10000000000000000000) by {
            reveal_with_fuel(spec_pow10, 21);
        }
    }
    let mag = digits_to_u64(&cs, z);
    if negative {
        if mag > 9223372036854775808 {
            return None;
        }
        if mag == 9223372036854775808 {
            return Some(i64::MIN);
        }
        Some(-(mag as i64))
    } else {
        if mag > 9223372036854775807 {
            return None;
        }
        Some(mag as i64)
    }
}

/// Ten to a larger power is at least ten to a smaller one.
proof fn lemma_pow10_increases(a: nat, b: nat)
    requires
        a <= b,
    ensures
        spec_pow10(a) <= spec_pow10(b),
    decreases b,
{
    if a < b {
        lemma_pow10_increases(a, (b - 1) as nat);
        assert(spec_pow10(b) == 10 * spec_pow10((b - 1) as nat));
        assert(spec_pow10((b - 1) as nat) >= 1) by {
            lemma_pow10_positive((b - 1) as nat);
        }
    }
}

/// Ten to any power is positive.
proof fn lemma_pow10_positive(n: nat)
    ensures
        spec_pow10(n) >= 1,
    decreases n,
{
    if n > 0 {
        lemma_pow10_positive((n - 1) as nat);
    }
}

/// The characters of a string slice, in order, collected by walking the
/// character iterator.
pub fn str_to_chars(s: &str) -> (r: Vec<char>)
    ensures
        r@ == s@,
{
    let mut it = s.chars();
    let mut out: Vec<char> = Vec::new();
    loop
        invariant
            it.obeys_prophetic_iter_laws(),
            it.decrease() is Some,
            out@ + it.remaining() == s@,
        ensures
            out@ == s@,
        decreases it.decrease()->0,
    {
        let ghost pre = it.remaining();
        match it.next() {
            Some(c) => {
                out.push(c);
                proof {
                    assert(out@ + it.remaining() =~= s@);
                }
            },
            None => {
                proof {
                    assert(out@ + pre =~= out@);
                }
                break ;
            },
        }
    }
    out
}

/// Counts the characters of a string slice by collecting them.
pub fn char_count(s: &str) -> (r: usize)
    ensures
        r == s@.len(),
{
    let cs = str_to_chars(s);
    cs.len()
}

} // verus!
