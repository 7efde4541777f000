use vstd::prelude::*;
use crate::text::is_digit;

verus! {

/// Whether every byte of `s` is an ASCII digit.
pub open spec fn all_digits(s: Seq<u8>) -> bool {
    forall|i: int| 0 <= i < s.len() ==> is_digit(#[trigger] s[i])
}

/// The number that the decimal digits `s` denote.
pub open spec fn digits_value(s: Seq<u8>) -> nat
    decreases s.len(),
{
    if s.len() == 0 {
        0
    } else {
        digits_value(s.drop_last()) * 10 + (s.last() - 48) as nat
    }
}

/// How many zero digits `s` starts with.
pub open spec fn leading_zeros(s: Seq<u8>) -> nat
    decreases s.len(),
{
    if s.len() == 0 || s[0] != 48 {
        0
    } else {
        1 + leading_zeros(s.drop_first())
    }
}

pub proof fn lemma_all_digits_subrange(s: Seq<u8>, a: int, b: int)
    requires
        all_digits(s),
        0 <= a <= b <= s.len(),
    ensures
        all_digits(s.subrange(a, b)),
{
    assert forall|i: int| 0 <= i < b - a implies is_digit(#[trigger] s.subrange(a, b)[i]) by {
        assert(s.subrange(a, b)[i] == s[a + i]);
    }
}

pub open spec fn pow10(n: nat) -> nat
    decreases n,
{
    if n == 0 {
        1
    } else {
        10 * pow10((n - 1) as nat)
    }
}

pub proof fn lemma_pow10_mono(a: nat, b: nat)
    requires
        a <= b,
    ensures
        pow10(a) <= pow10(b),
    decreases b,
{
    if a < b {
        lemma_pow10_mono(a, (b - 1) as nat);
    }
}

/// The value of `n` digits is below ten to the `n`.
pub proof fn lemma_digits_value_bound(s: Seq<u8>)
    requires
        all_digits(s),
    ensures
        digits_value(s) < pow10(s.len()),
    decreases s.len(),
{
    if s.len() > 0 {
        let t = s.drop_last();
        assert(all_digits(t)) by {
            assert forall|i: int| 0 <= i < t.len() implies is_digit(#[trigger] t[i]) by {
                assert(t[i] == s[i]);
            }
        }
        lemma_digits_value_bound(t);
        let d = (s.last() - 48) as nat;
        assert(is_digit(s[s.len() - 1]));
        let p = pow10(t.len());
        assert(digits_value(t) * 10 + d < p * 10) by (nonlinear_arith)
            requires
                digits_value(t) < p,
                d < 10,
        ;
    }
}

/// Whether `p` stands in `s` at position `from`.
pub fn starts_with_at(s: &[u8], from: usize, p: &[u8]) -> (r: bool)
    requires
        from <= s@.len(),
    ensures
        r == (p@.len() <= s@.len() - from && s@.subrange(from as int, from + p@.len()) == p@),
{
    let n: usize = s.len();
    if p.len() > n - from {
        return false;
    }
    let mut i: usize = 0;
    while i < p.len()
        invariant
            n == s@.len(),
            p@.len() <= s@.len() - from,
            i <= p@.len(),
            s@.subrange(from as int, from + i) == p@.subrange(0, i as int),
        decreases p@.len() - i,
    {
        if s[from + i] != p[i] {
            assert(s@.subrange(from as int, from + p@.len())[i as int] != p@[i as int]);
            return false;
        }
        assert(s@.subrange(from as int, from + i + 1) == s@.subrange(from as int, from + i).push(
            s@[from + i],
        ));
        assert(p@.subrange(0, i + 1) == p@.subrange(0, i as int).push(p@[i as int]));
        i = i + 1;
    }
    assert(p@.subrange(0, i as int) == p@);
    true
}

/// The value of the digits of `s` from `from` up to `to`.
pub fn parse_digits(s: &[u8], from: usize, to: usize) -> (r: u64)
    requires
        from <= to <= s@.len(),
        to - from <= 18,
        all_digits(s@.subrange(from as int, to as int)),
    ensures
        r as nat == digits_value(s@.subrange(from as int, to as int)),
{
    let mut v: u64 = 0;
    let mut i: usize = from;
    while i < to
        invariant
            from <= i <= to <= s@.len(),
            to - from <= 18,
            all_digits(s@.subrange(from as int, to as int)),
            v as nat == digits_value(s@.subrange(from as int, i as int)),
        decreases to - i,
    {
        let ghost t = s@.subrange(from as int, i as int);
        proof {
            assert(all_digits(t)) by {
                assert forall|k: int| 0 <= k < t.len() implies is_digit(#[trigger] t[k]) by {
                    assert(t[k] == s@.subrange(from as int, to as int)[k]);
                }
            }
            lemma_digits_value_bound(t);
            lemma_pow10_mono(t.len(), 17);
            reveal_with_fuel(pow10, 18);
            assert(pow10(17) == 100000000000000000);
        }
        assert(s@.subrange(from as int, to as int)[i - from] == s@[i as int]);
        let d = s[i] - 48;
        v = v * 10 + d as u64;
        assert(s@.subrange(from as int, i + 1).drop_last() == t);
        i = i + 1;
    }
    v
}

/// Counts the zero digits that `s` starts with.
pub fn count_leading_zeros(s: &[u8]) -> (r: usize)
    ensures
        r == leading_zeros(s@),
        r <= s@.len(),
{
    let mut i: usize = 0;
    assert(s@.subrange(0, s@.len() as int) == s@);
    while i < s.len() && s[i] == 48
        invariant
            i <= s@.len(),
            leading_zeros(s@) == i + leading_zeros(s@.subrange(i as int, s@.len() as int)),
        decreases s@.len() - i,
    {
        let ghost t = s@.subrange(i as int, s@.len() as int);
        assert(t.drop_first() == s@.subrange(i + 1, s@.len() as int));
        i = i + 1;
    }
    i
}

} // verus!
