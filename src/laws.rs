use vstd::prelude::*;
use crate::country_code::Source;
use crate::digits::{
    all_digits, digits_value, leading_zeros, lemma_all_digits_subrange, lemma_digits_value_bound,
    lemma_pow10_mono, pow10,
};
use crate::formatter::{first_applicable, matches_at_start, rendered, rule_applies, Mode};
use crate::phone_number::PhoneNumber;
use crate::metadata::{Database, Format, Metadata};
use crate::parser::{
    nsn_of, number_end, parsed, parse_result, plus_first, reads_as, resolve, national_part, prefix_for_parsing, Candidate, ParseError, MAX_LENGTH_FOR_NSN,
    MIN_LENGTH_FOR_NSN, idd_end, code_length, country_meta,
};
use crate::text::{decimal, is_digit, zeros};

verus! {

/// Whether `rest` starts with a national prefix of `meta`: its national
/// prefix for parsing or its national prefix.
pub open spec fn has_national_prefix(meta: Option<Metadata>, rest: Seq<u8>) -> bool {
    match meta {
        Some(m) => {
            ||| match m.national_prefix_for_parsing {
                Some(p) => matches_at_start(p@, rest),
                None => false,
            }
            ||| match m.national_prefix {
                Some(p) => p@.len() <= rest.len() && rest.subrange(0, p@.len() as int) == p@,
                None => false,
            }
        },
        None => false,
    }
}

/// Stripping a national prefix that is absent leaves the number as it is,
/// and reads no carrier code.
pub proof fn lemma_strip_absent_prefix(meta: Option<Metadata>, rest: Seq<u8>)
    requires
        !has_national_prefix(meta, rest),
    ensures
        national_part(meta, rest) == (rest, None::<Seq<u8>>),
{
}

/// Stripping again a number whose national prefix was stripped strips no
/// further digits, unless the stripped number itself starts with a prefix.
pub proof fn lemma_strip_idempotent(meta: Option<Metadata>, rest: Seq<u8>)
    requires
        !has_national_prefix(meta, national_part(meta, rest).0),
    ensures
        national_part(meta, national_part(meta, rest).0).0 == national_part(meta, rest).0,
{
}

/// A number written with a leading "+" takes its country code from the text,
/// whatever the default country.
pub proof fn lemma_plus_precedence(db: Database, hint: Option<Metadata>, candidate: Candidate)
    requires
        candidate.plus,
        parsed(db, hint, candidate) is Ok,
    ensures
        parsed(db, hint, candidate)->Ok_0.0.source == Source::Plus,
{
}

/// A text whose number part shows a "+" before its digits parses, whatever
/// the default country, to a number whose country code came from that "+".
pub proof fn lemma_plus_text_precedence(db: Database, hint: Option<Metadata>, text: Seq<u8>, candidate: Candidate, n: PhoneNumber)
    requires
        reads_as(text, candidate),
        plus_first(text.subrange(0, number_end(text, 0))),
        parse_result(db, hint, candidate, Ok(n)),
    ensures
        n.code.source == Source::Plus,
{
}

/// A national number one digit under the minimum is too short, one digit
/// over the maximum is too long, and one within the bounds is accepted.
pub proof fn lemma_length_boundary(db: Database, hint: Option<Metadata>, candidate: Candidate)
    requires
        candidate.digits@.len() > 0,
        resolve(db, hint, candidate.plus, candidate.digits@) is Ok,
    ensures
        ({
            let (code, rest) = resolve(db, hint, candidate.plus, candidate.digits@)->Ok_0;
            let nsn = national_part(country_meta(db, hint, code), rest).0;
            &&& nsn.len() == MIN_LENGTH_FOR_NSN - 1 ==> parsed(db, hint, candidate) == Err::<
                (crate::country_code::CountryCode, crate::national_number::NationalNumber, Option<Seq<u8>>),
                ParseError,
            >(ParseError::TooShortNsn)
            &&& nsn.len() == MAX_LENGTH_FOR_NSN + 1 ==> parsed(db, hint, candidate) == Err::<
                (crate::country_code::CountryCode, crate::national_number::NationalNumber, Option<Seq<u8>>),
                ParseError,
            >(ParseError::TooLong)
            &&& MIN_LENGTH_FOR_NSN <= nsn.len() <= MAX_LENGTH_FOR_NSN ==> parsed(
                db,
                hint,
                candidate,
            ) is Ok
        }),
{
}

/// A rule whose leading digits filter rejects the number is passed over for
/// a later rule that applies.
pub proof fn lemma_filtered_rule_skipped(rules: Seq<Format>, nsn: Seq<u8>)
    requires
        rules.len() >= 2,
        rules[0].leading_digits@.len() > 0,
        !matches_at_start(rules[0].leading_digits@.last()@, nsn),
        rule_applies(rules[1], nsn),
    ensures
        first_applicable(rules, nsn, 0) == Some(1int),
{
    assert(first_applicable(rules, nsn, 1) == Some(1int));
}

proof fn lemma_zeros_value(k: nat)
    ensures
        digits_value(zeros(k)) == 0,
    decreases k,
{
    if k > 0 {
        assert(zeros(k).drop_last() == zeros((k - 1) as nat));
        lemma_zeros_value((k - 1) as nat);
    }
}

proof fn lemma_value_after_zeros(k: nat, t: Seq<u8>)
    ensures
        digits_value(zeros(k) + t) == digits_value(t),
    decreases t.len(),
{
    if t.len() == 0 {
        assert(zeros(k) + t == zeros(k));
        lemma_zeros_value(k);
    } else {
        assert((zeros(k) + t).drop_last() == zeros(k) + t.drop_last());
        lemma_value_after_zeros(k, t.drop_last());
    }
}

proof fn lemma_value_positive(t: Seq<u8>)
    requires
        all_digits(t),
        t.len() > 0,
        t[0] != 48,
    ensures
        digits_value(t) >= 1,
    decreases t.len(),
{
    assert(is_digit(t[0]));
    if t.len() > 1 {
        let u = t.drop_last();
        lemma_all_digits_subrange(t, 0, t.len() - 1);
        assert(u == t.subrange(0, t.len() - 1));
        lemma_value_positive(u);
    }
}

/// Digits without a leading zero are the decimal form of their value.
proof fn lemma_decimal_of_value(t: Seq<u8>)
    requires
        all_digits(t),
        t.len() > 0,
        t[0] != 48,
    ensures
        decimal(digits_value(t)) == t,
    decreases t.len(),
{
    assert(is_digit(t[t.len() - 1]));
    let d = (t.last() - 48) as nat;
    if t.len() == 1 {
        assert(t.drop_last().len() == 0);
        assert(digits_value(t.drop_last()) == 0);
        assert(digits_value(t) == d);
        assert(decimal(d) == seq![(48 + d) as u8]);
        assert(t == seq![t[0]]);
    } else {
        let u = t.drop_last();
        lemma_all_digits_subrange(t, 0, t.len() - 1);
        assert(u == t.subrange(0, t.len() - 1));
        lemma_value_positive(u);
        lemma_decimal_of_value(u);
        let v = digits_value(u);
        let n = digits_value(t);
        assert(n == v * 10 + d);
        assert(n / 10 == v && n % 10 == d && n >= 10) by (nonlinear_arith)
            requires
                n == v * 10 + d,
                d < 10,
                v >= 1,
        ;
        assert(decimal(n) == decimal(v).push((48 + d) as u8));
        assert(t == u.push(t.last()));
    }
}

proof fn lemma_leading_zeros_split(s: Seq<u8>)
    requires
        exists|i: int| 0 <= i < s.len() && s[i] != 48,
    ensures
        leading_zeros(s) < s.len(),
        s == zeros(leading_zeros(s)) + s.subrange(leading_zeros(s) as int, s.len() as int),
        s[leading_zeros(s) as int] != 48,
    decreases s.len(),
{
    if s[0] != 48 {
        assert(zeros(0) + s.subrange(0, s.len() as int) == s);
    } else {
        let t = s.drop_first();
        let i = choose|i: int| 0 <= i < s.len() && s[i] != 48;
        assert(t[i - 1] != 48);
        lemma_leading_zeros_split(t);
        let k = leading_zeros(t);
        assert(zeros(k + 1) == seq![48u8] + zeros(k));
        assert(s == seq![s[0]] + t);
        assert(s.subrange(k + 1int, s.len() as int) == t.subrange(k as int, t.len() as int));
    }
}

/// A national significant number that holds a digit other than zero is
/// written again, digit for digit, by its value and its leading zeros.
pub proof fn lemma_national_text(nsn: Seq<u8>)
    requires
        all_digits(nsn),
        nsn.len() <= MAX_LENGTH_FOR_NSN,
        exists|i: int| 0 <= i < nsn.len() && nsn[i] != 48,
    ensures
        crate::parser::national_of(nsn).text() == nsn,
{
    lemma_leading_zeros_split(nsn);
    let k = leading_zeros(nsn);
    let t = nsn.subrange(k as int, nsn.len() as int);
    lemma_all_digits_subrange(nsn, k as int, nsn.len() as int);
    lemma_value_after_zeros(k, t);
    lemma_decimal_of_value(t);
    lemma_digits_value_bound(nsn);
    lemma_pow10_mono(nsn.len(), 17);
    reveal_with_fuel(pow10, 18);
    assert(pow10(17) == 100000000000000000);
}

proof fn lemma_nsn_digits(db: Database, hint: Option<Metadata>, candidate: Candidate)
    requires
        candidate.wf(),
        nsn_of(db, hint, candidate) is Ok,
    ensures
        all_digits(nsn_of(db, hint, candidate)->Ok_0.1),
{
    let digits = candidate.digits@;
    let idd = idd_end(hint, digits);
    let (code, rest) = resolve(db, hint, candidate.plus, digits)->Ok_0;
    if candidate.plus || idd is Some {
        let r0 = match idd {
            Some(e) => digits.subrange(e, digits.len() as int),
            None => digits,
        };
        if let Some(e) = idd {
            lemma_all_digits_subrange(digits, e, digits.len() as int);
        }
        let k = code_length(db, r0)->Some_0;
        lemma_all_digits_subrange(r0, k, r0.len() as int);
    } else if let Some(m) = hint {
        let c = decimal(m.country_code as nat);
        if c.len() <= digits.len() {
            lemma_all_digits_subrange(digits, c.len() as int, digits.len() as int);
        }
    }
    assert(all_digits(rest));
    let meta = country_meta(db, hint, code);
    if let Some(m) = meta {
        let n1 = prefix_for_parsing(m, rest).0;
        if let Some(p) = m.national_prefix_for_parsing {
            if let Some((s, e)) = crate::pattern::regex_find(p@, rest) {
                if 0 <= e <= rest.len() {
                    lemma_all_digits_subrange(rest, e, rest.len() as int);
                }
            }
        }
        assert(all_digits(n1));
        if let Some(p) = m.national_prefix {
            if p@.len() <= n1.len() {
                lemma_all_digits_subrange(n1, p@.len() as int, n1.len() as int);
            }
        }
    }
}

/// Formatting a parsed number in E.164 form gives "+", its country code and
/// its national significant number with the leading zeros it was written
/// with, for every text that parses to it; a national number made of zeros
/// alone is left out, since its value keeps one zero less.
pub proof fn lemma_e164_round_trip(db: Database, hint: Option<Metadata>, candidate: Candidate, n: PhoneNumber, meta: Metadata)
    requires
        candidate.wf(),
        parse_result(db, hint, candidate, Ok(n)),
        exists|i: int|
            0 <= i < nsn_of(db, hint, candidate)->Ok_0.1.len() && nsn_of(db, hint, candidate)->Ok_0.1[i]
                != 48,
    ensures
        ({
            let (code, nsn, _) = nsn_of(db, hint, candidate)->Ok_0;
            rendered(n, meta, Mode::E164, None) == seq![43u8]
                + decimal(code.value as nat) + nsn
        }),
{
    lemma_nsn_digits(db, hint, candidate);
    lemma_national_text(nsn_of(db, hint, candidate)->Ok_0.1);
}

} // verus!
