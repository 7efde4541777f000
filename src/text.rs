use vstd::prelude::*;
use vstd::utf8::{encode_utf8, valid_utf8};

verus! {

pub open spec fn is_digit(c: u8) -> bool {
    48 <= c <= 57
}

/// The decimal digits of `n`, without leading zeros.
pub open spec fn decimal(n: nat) -> Seq<u8>
    decreases n,
{
    if n < 10 {
        seq![(48 + n) as u8]
    } else {
        decimal(n / 10).push((48 + n % 10) as u8)
    }
}

/// `n` copies of the digit zero.
pub open spec fn zeros(n: nat) -> Seq<u8> {
    Seq::new(n, |i: int| 48u8)
}

/// Appends `s` to `out`.
pub fn append(out: &mut Vec<u8>, s: &[u8])
    ensures
        final(out)@ == old(out)@ + s@,
{
    append_range(out, s, 0, s.len());
    assert(s@.subrange(0, s@.len() as int) == s@);
}

/// Appends the bytes of `s` from `from` up to `to` to `out`.
pub fn append_range(out: &mut Vec<u8>, s: &[u8], from: usize, to: usize)
    requires
        from <= to <= s@.len(),
    ensures
        final(out)@ == old(out)@ + s@.subrange(from as int, to as int),
{
    let ghost start = out@;
    let mut i: usize = from;
    while i < to
        invariant
            from <= i <= to <= s@.len(),
            out@ == start + s@.subrange(from as int, i as int),
        decreases to - i,
    {
        out.push(s[i]);
        assert(s@.subrange(from as int, i + 1) == s@.subrange(from as int, i as int).push(
            s@[i as int],
        ));
        i = i + 1;
    }
}

/// Appends the decimal digits of `n` to `out`.
pub fn write_decimal(out: &mut Vec<u8>, n: u64)
    ensures
        final(out)@ == old(out)@ + decimal(n as nat),
    decreases n,
{
    if n < 10 {
        out.push((48 + n) as u8);
        assert(decimal(n as nat) == seq![(48 + n) as u8]);
    } else {
        write_decimal(out, n / 10);
        out.push((48 + n % 10) as u8);
        assert(decimal(n as nat) == decimal((n / 10) as nat).push((48 + n % 10) as u8));
    }
}

/// Whether `$ab` stands at position `i` of `s`.
pub open spec fn token_at(s: Seq<u8>, i: int, a: u8, b: u8) -> bool {
    0 <= i && i + 3 <= s.len() && s[i] == 36 && s[i + 1] == a && s[i + 2] == b
}

/// The first position at or after `i` where `$ab` stands.
pub open spec fn first_token_from(s: Seq<u8>, a: u8, b: u8, i: int) -> Option<int>
    decreases s.len() - i,
{
    if i < 0 || i + 3 > s.len() {
        None
    } else if token_at(s, i, a, b) {
        Some(i)
    } else {
        first_token_from(s, a, b, i + 1)
    }
}

/// `s` with its first `$ab` replaced by `by`; `s` itself when there is none.
pub open spec fn replace_token(s: Seq<u8>, a: u8, b: u8, by: Seq<u8>) -> Seq<u8> {
    match first_token_from(s, a, b, 0) {
        Some(i) => s.subrange(0, i) + by + s.subrange(i + 3, s.len() as int),
        None => s,
    }
}

/// Finds the first `$ab` in `s`.
pub fn find_token(s: &[u8], a: u8, b: u8) -> (r: Option<usize>)
    ensures
        r matches Some(i) ==> first_token_from(s@, a, b, 0) == Some(i as int) && token_at(
            s@,
            i as int,
            a,
            b,
        ),
        r is None ==> first_token_from(s@, a, b, 0) is None,
{
    let mut i: usize = 0;
    while i < s.len() && s.len() - i >= 3
        invariant
            i <= s@.len(),
            first_token_from(s@, a, b, 0) == first_token_from(s@, a, b, i as int),
        decreases s@.len() - i,
    {
        if s[i] == 36 && s[i + 1] == a && s[i + 2] == b {
            return Some(i);
        }
        i = i + 1;
    }
    None
}

/// Replaces the first `$ab` of `s` by `by`.
pub fn substitute_token(s: &[u8], a: u8, b: u8, by: &[u8]) -> (r: Vec<u8>)
    ensures
        r@ == replace_token(s@, a, b, by@),
{
    let mut out: Vec<u8> = Vec::new();
    match find_token(s, a, b) {
        Some(i) => {
            assert(token_at(s@, i as int, a, b));
            let n: usize = s.len();
            assert(i + 3 <= n);
            append_range(&mut out, s, 0, i);
            append(&mut out, by);
            append_range(&mut out, s, i + 3, n);
        },
        None => {
            append(&mut out, s);
            assert(out@ == s@);
        },
    }
    out
}

/// Whether a numbered group reference `$d` stands at position `i` of `s`.
pub open spec fn group_at(s: Seq<u8>, i: int) -> bool {
    0 <= i && i + 2 <= s.len() && s[i] == 36 && is_digit(s[i + 1])
}

/// The first position at or after `i` of a numbered group reference.
pub open spec fn first_group_from(s: Seq<u8>, i: int) -> Option<int>
    decreases s.len() - i,
{
    if i < 0 || i + 2 > s.len() {
        None
    } else if group_at(s, i) {
        Some(i)
    } else {
        first_group_from(s, i + 1)
    }
}

/// Finds the first numbered group reference of a template.
pub fn find_first_group(s: &[u8]) -> (r: Option<usize>)
    ensures
        r matches Some(i) ==> first_group_from(s@, 0) == Some(i as int) && group_at(s@, i as int),
        r is None ==> first_group_from(s@, 0) is None,
{
    let mut i: usize = 0;
    while i < s.len() && s.len() - i >= 2
        invariant
            i <= s@.len(),
            first_group_from(s@, 0) == first_group_from(s@, i as int),
        decreases s@.len() - i,
    {
        if s[i] == 36 && 48 <= s[i + 1] && s[i + 1] <= 57 {
            return Some(i);
        }
        i = i + 1;
    }
    None
}

/// Relies on `String::from_utf8_lossy`: valid UTF-8 comes back as it is.
#[verifier::external_body]
pub(crate) fn lossy_string(b: &[u8]) -> (r: String)
    ensures
        valid_utf8(b@) ==> encode_utf8(r@) == b@,
{
    String::from_utf8_lossy(b).into_owned()
}

} // verus!
