use vstd::prelude::*;
use vstd::utf8::{encode_utf8, valid_utf8};
use crate::country_code::{CountryCode, Source};
use crate::digits::{
    all_digits, lemma_all_digits_subrange, count_leading_zeros, digits_value, leading_zeros, parse_digits, starts_with_at,
};
use crate::extension::{Carrier, Extension};
use crate::metadata::{Database, Metadata};
use crate::national_number::NationalNumber;
use crate::pattern::{find_group, find_match, regex_find, regex_group, regex_replace, replace_first};
use crate::phone_number::PhoneNumber;
use crate::text::{append_range, decimal, is_digit, lossy_string, write_decimal};
use crate::validator::{classify, length, Validation};

verus! {

/// The fewest digits a national significant number may have.
pub const MIN_LENGTH_FOR_NSN: usize = 2;

/// The most digits a national significant number may have.
pub const MAX_LENGTH_FOR_NSN: usize = 17;

/// What was read from the text of a phone number, before any country rules
/// were applied.
#[derive(Clone, Debug)]
pub struct Candidate {
    /// Whether the number was written with a leading "+".
    pub plus: bool,
    /// The digits of the number, in order.
    pub digits: Vec<u8>,
    pub extension: Option<String>,
    pub carrier: Option<Vec<u8>>,
}

impl Candidate {
    pub open spec fn wf(&self) -> bool {
        all_digits(self.digits@)
    }
}

/// Why a text is not a phone number.
#[derive(Copy, Clone, Eq, PartialEq, Structural, Debug)]
pub enum ParseError {
    /// There are no digits.
    NoNumber,
    /// A "+" or international prefix is not followed by a known country code.
    InvalidCountryCode,
    /// The national number has fewer than the fewest digits allowed.
    TooShortNsn,
    /// The national number has more than the most digits allowed.
    TooLong,
}

/// Where the international dialling prefix of `meta` ends, when `digits`
/// start with it.
pub open spec fn idd_end(meta: Option<Metadata>, digits: Seq<u8>) -> Option<int> {
    match meta {
        Some(m) => match m.international_prefix {
            Some(p) => match regex_find(p@, digits) {
                Some((s, e)) => if s == 0 && 0 <= e <= digits.len() {
                    Some(e)
                } else {
                    None
                },
                None => None,
            },
            None => None,
        },
        None => None,
    }
}

/// Whether the first `k` digits of `s` are a country code that `db` knows.
pub open spec fn known_code(db: Database, s: Seq<u8>, k: int) -> bool {
    k <= s.len() && s[0] != 48 && db.region_for(digits_value(s.subrange(0, k)) as u16) is Some
}

/// The length of the longest known country code that `s` starts with.
pub open spec fn code_length(db: Database, s: Seq<u8>) -> Option<int> {
    if known_code(db, s, 3) {
        Some(3)
    } else if known_code(db, s, 2) {
        Some(2)
    } else if known_code(db, s, 1) {
        Some(1)
    } else {
        None
    }
}

/// The country code of `digits` and what follows it, given the default
/// country `hint`.
pub open spec fn resolve(db: Database, hint: Option<Metadata>, plus: bool, digits: Seq<u8>) -> Result<(CountryCode, Seq<u8>), ParseError> {
    let idd = idd_end(hint, digits);
    if plus || idd is Some {
        let rest = match idd {
            Some(e) => digits.subrange(e, digits.len() as int),
            None => digits,
        };
        let source = if plus {
            Source::Plus
        } else {
            Source::Idd
        };
        match code_length(db, rest) {
            Some(k) => Ok(
                (
                    CountryCode { value: digits_value(rest.subrange(0, k)) as u16, source },
                    rest.subrange(k, rest.len() as int),
                ),
            ),
            None => Err(ParseError::InvalidCountryCode),
        }
    } else {
        match hint {
            Some(m) => {
                let c = decimal(m.country_code as nat);
                if c.len() <= digits.len() && digits.subrange(0, c.len() as int) == c && classify(
                    m.possible_lengths@,
                    (digits.len() - c.len()) as nat,
                ) == Validation::IsPossible {
                    Ok(
                        (
                            CountryCode { value: m.country_code, source: Source::Number },
                            digits.subrange(c.len() as int, digits.len() as int),
                        ),
                    )
                } else {
                    Ok((CountryCode { value: m.country_code, source: Source::Default }, digits))
                }
            },
            None => Ok((CountryCode { value: 0, source: Source::Default }, digits)),
        }
    }
}

/// The rules of the country that `code` was resolved to.
pub open spec fn country_meta(db: Database, hint: Option<Metadata>, code: CountryCode) -> Option<Metadata> {
    match code.source {
        Source::Plus | Source::Idd => db.region_for(code.value),
        _ => hint,
    }
}

/// The carrier code that group 1 of `pattern` captures in `rest`, when it
/// captured digits.
pub open spec fn carrier_capture(pattern: Seq<char>, rest: Seq<u8>) -> Option<Seq<u8>> {
    match regex_group(pattern, rest, 1) {
        Some((a, b)) => if 0 <= a < b <= rest.len() {
            Some(rest.subrange(a, b))
        } else {
            None
        },
        None => None,
    }
}

/// `rest` after the national prefix for parsing of `m`, with the carrier code
/// it captured, when that prefix starts `rest` and what is left is digits.
pub open spec fn prefix_for_parsing(m: Metadata, rest: Seq<u8>) -> (Seq<u8>, Option<Seq<u8>>) {
    match m.national_prefix_for_parsing {
        Some(p) => match regex_find(p@, rest) {
            Some((s, e)) => if s == 0 && 0 <= e <= rest.len() {
                let national = match m.national_prefix_transform_rule {
                    Some(t) => regex_replace(p@, rest, t@),
                    None => rest.subrange(e, rest.len() as int),
                };
                if all_digits(national) {
                    (national, carrier_capture(p@, rest))
                } else {
                    (rest, None)
                }
            } else {
                (rest, None)
            },
            None => (rest, None),
        },
        None => (rest, None),
    }
}

/// `s` without the national prefix of `m`, when it starts with it.
pub open spec fn drop_national_prefix(m: Metadata, s: Seq<u8>) -> Seq<u8> {
    match m.national_prefix {
        Some(p) => if p@.len() <= s.len() && s.subrange(0, p@.len() as int) == p@ {
            s.subrange(p@.len() as int, s.len() as int)
        } else {
            s
        },
        None => s,
    }
}

/// The national significant number in `rest` and the carrier code read
/// before it: `rest` without its national prefix for parsing and its
/// national prefix, unless what is left is too short for the country, in
/// which case `rest` as it is, without a carrier code.
pub open spec fn national_part(meta: Option<Metadata>, rest: Seq<u8>) -> (Seq<u8>, Option<Seq<u8>>) {
    match meta {
        Some(m) => {
            let (n1, carrier) = prefix_for_parsing(m, rest);
            let n2 = drop_national_prefix(m, n1);
            if classify(m.possible_lengths@, n2.len()) != Validation::TooShort {
                (n2, carrier)
            } else {
                (rest, None)
            }
        },
        None => (rest, None),
    }
}

/// The national number written with the digits `nsn`.
pub open spec fn national_of(nsn: Seq<u8>) -> NationalNumber {
    NationalNumber {
        value: digits_value(nsn) as u64,
        zeroes: if leading_zeros(nsn) == 0 {
            None
        } else {
            Some(leading_zeros(nsn) as u8)
        },
    }
}

/// The country code, national significant number and carrier code of
/// `candidate`, or why there are none.
pub open spec fn nsn_of(db: Database, hint: Option<Metadata>, candidate: Candidate) -> Result<(CountryCode, Seq<u8>, Option<Seq<u8>>), ParseError> {
    if candidate.digits@.len() == 0 {
        Err(ParseError::NoNumber)
    } else {
        match resolve(db, hint, candidate.plus, candidate.digits@) {
            Err(e) => Err(e),
            Ok((code, rest)) => {
                let (nsn, carrier) = national_part(country_meta(db, hint, code), rest);
                if nsn.len() < MIN_LENGTH_FOR_NSN {
                    Err(ParseError::TooShortNsn)
                } else if nsn.len() > MAX_LENGTH_FOR_NSN {
                    Err(ParseError::TooLong)
                } else {
                    Ok((code, nsn, carrier))
                }
            },
        }
    }
}

/// The country code, national number and carrier code that `candidate`
/// denotes with the default country `hint`: the carrier code read before the
/// national number, else the one the text held.
pub open spec fn parsed(db: Database, hint: Option<Metadata>, candidate: Candidate) -> Result<(CountryCode, NationalNumber, Option<Seq<u8>>), ParseError> {
    match nsn_of(db, hint, candidate) {
        Err(e) => Err(e),
        Ok((code, nsn, carrier)) => Ok(
            (
                code,
                national_of(nsn),
                match carrier {
                    Some(c) => Some(c),
                    None => match candidate.carrier {
                        Some(c) => Some(c@),
                        None => None,
                    },
                },
            ),
        ),
    }
}

/// Whether `r` is the outcome of parsing `candidate` with the default
/// country `hint`: the number of `parsed`, with the extension of the text,
/// or the same error.
pub open spec fn parse_result(db: Database, hint: Option<Metadata>, candidate: Candidate, r: Result<PhoneNumber, ParseError>) -> bool {
    match (r, parsed(db, hint, candidate)) {
        (Ok(n), Ok((code, national, carrier))) => {
            &&& n.code == code
            &&& n.national == national
            &&& n.extension == match candidate.extension {
                Some(e) => Some(Extension(e)),
                None => None::<Extension>,
            }
            &&& match (n.carrier, carrier) {
                (Some(c), Some(v)) => c.0@ == v,
                (None, None) => true,
                _ => false,
            }
        },
        (Err(e), Err(e2)) => e == e2,
        _ => false,
    }
}

/// A copy of the bytes of `s` from `from` to its end.
fn tail(s: &[u8], from: usize) -> (r: Vec<u8>)
    requires
        from <= s@.len(),
    ensures
        r@ == s@.subrange(from as int, s@.len() as int),
{
    let mut out: Vec<u8> = Vec::new();
    append_range(&mut out, s, from, s.len());
    out
}

/// Whether the first `k` digits of `s` are a country code of `database`.
fn is_known_code(database: &Database, s: &[u8], k: usize) -> (r: bool)
    requires
        all_digits(s@),
        1 <= k <= 3,
    ensures
        r == known_code(*database, s@, k as int),
{
    if k > s.len() || s[0] == 48 {
        return false;
    }
    proof {
        lemma_all_digits_subrange(s@, 0, k as int);
        crate::digits::lemma_digits_value_bound(s@.subrange(0, k as int));
        crate::digits::lemma_pow10_mono(k as nat, 3);
        reveal_with_fuel(crate::digits::pow10, 4);
    }
    let value = parse_digits(s, 0, k);
    database.by_code(value as u16).is_some()
}

/// Finds the country code of `digits` and what follows it, given the
/// default country `country`.
pub fn country_code(database: &Database, country: Option<&Metadata>, plus: bool, digits: &[u8]) -> (r: Result<(CountryCode, Vec<u8>), ParseError>)
    requires
        all_digits(digits@),
    ensures
        match (r, resolve(*database, match country {
            Some(m) => Some(*m),
            None => None,
        }, plus, digits@)) {
            (Ok((c, rest)), Ok((c2, rest2))) => c == c2 && rest@ == rest2,
            (Err(e), Err(e2)) => e == e2,
            _ => false,
        },
        r matches Ok((_, rest)) ==> all_digits(rest@),
{
    let ghost hint = match country {
        Some(m) => Some(*m),
        None => None,
    };
    let mut idd: Option<usize> = None;
    match country {
        Some(m) => match &m.international_prefix {
            Some(p) => match find_match(p.as_str(), digits) {
                Some((s, e)) => {
                    if s == 0 {
                        idd = Some(e);
                    }
                },
                None => {},
            },
            None => {},
        },
        None => {},
    }
    assert(idd_end(hint, digits@) == match idd {
        Some(e) => Some(e as int),
        None => None::<int>,
    });
    if plus || idd.is_some() {
        let rest = match idd {
            Some(e) => tail(digits, e),
            None => tail(digits, 0),
        };
        assert(digits@.subrange(0, digits@.len() as int) == digits@);
        proof {
            if let Some(e) = idd {
                lemma_all_digits_subrange(digits@, e as int, digits@.len() as int);
            }
        }
        let source = if plus {
            Source::Plus
        } else {
            Source::Idd
        };
        let k: usize = if is_known_code(database, rest.as_slice(), 3) {
            3
        } else if is_known_code(database, rest.as_slice(), 2) {
            2
        } else if is_known_code(database, rest.as_slice(), 1) {
            1
        } else {
            return Err(ParseError::InvalidCountryCode);
        };
        proof {
            lemma_all_digits_subrange(rest@, 0, k as int);
            crate::digits::lemma_digits_value_bound(rest@.subrange(0, k as int));
            crate::digits::lemma_pow10_mono(k as nat, 3);
            reveal_with_fuel(crate::digits::pow10, 4);
        }
        let value = parse_digits(rest.as_slice(), 0, k);
        let national = tail(rest.as_slice(), k);
        proof {
            lemma_all_digits_subrange(rest@, k as int, rest@.len() as int);
        }
        Ok((CountryCode { value: value as u16, source }, national))
    } else {
        match country {
            Some(m) => {
                let mut code: Vec<u8> = Vec::new();
                write_decimal(&mut code, m.country_code as u64);
                if starts_with_at(digits, 0, code.as_slice()) && length(
                    &m.possible_lengths,
                    digits.len() - code.len(),
                ) == Validation::IsPossible {
                    proof {
                        lemma_all_digits_subrange(digits@, code@.len() as int, digits@.len() as int);
                    }
                    Ok((CountryCode { value: m.country_code, source: Source::Number }, tail(digits, code.len())))
                } else {
                    let all = tail(digits, 0);
                    assert(digits@.subrange(0, digits@.len() as int) == digits@);
                    Ok((CountryCode { value: m.country_code, source: Source::Default }, all))
                }
            },
            None => {
                let all = tail(digits, 0);
                assert(digits@.subrange(0, digits@.len() as int) == digits@);
                Ok((CountryCode { value: 0, source: Source::Default }, all))
            },
        }
    }
}

/// Whether every byte of `s` is a digit.
fn is_all_digits(s: &[u8]) -> (r: bool)
    ensures
        r == all_digits(s@),
{
    let mut i: usize = 0;
    while i < s.len()
        invariant
            i <= s@.len(),
            forall|k: int| 0 <= k < i ==> is_digit(#[trigger] s@[k]),
        decreases s@.len() - i,
    {
        if !(48 <= s[i] && s[i] <= 57) {
            assert(!is_digit(s@[i as int]));
            return false;
        }
        i = i + 1;
    }
    true
}

/// Strips the national prefix for parsing of `m` from `rest`, reading the
/// carrier code it captures.
fn strip_prefix_for_parsing(m: &Metadata, rest: &Vec<u8>) -> (r: (Vec<u8>, Option<Vec<u8>>))
    ensures
        r.0@ == prefix_for_parsing(*m, rest@).0,
        match (r.1, prefix_for_parsing(*m, rest@).1) {
            (Some(c), Some(v)) => c@ == v,
            (None, None) => true,
            _ => false,
        },
        all_digits(rest@) ==> all_digits(r.0@),
{
    let unchanged = tail(rest.as_slice(), 0);
    assert(rest@.subrange(0, rest@.len() as int) == rest@);
    let p = match &m.national_prefix_for_parsing {
        Some(p) => p,
        None => {
            return (unchanged, None);
        },
    };
    let e = match find_match(p.as_str(), rest.as_slice()) {
        Some((s, e)) => {
            if s != 0 {
                return (unchanged, None);
            }
            e
        },
        None => {
            return (unchanged, None);
        },
    };
    let national = match &m.national_prefix_transform_rule {
        Some(t) => replace_first(p.as_str(), rest.as_slice(), t.as_slice()),
        None => tail(rest.as_slice(), e),
    };
    if !is_all_digits(national.as_slice()) {
        return (unchanged, None);
    }
    let carrier = match find_group(p.as_str(), rest.as_slice(), 1) {
        Some((a, b)) => {
            if a < b {
                let mut c: Vec<u8> = Vec::new();
                append_range(&mut c, rest.as_slice(), a, b);
                Some(c)
            } else {
                None
            }
        },
        None => None,
    };
    (national, carrier)
}

/// The national significant number in `rest` and the carrier code read
/// before it, under the rules `meta` of its country.
pub fn national_number(meta: Option<&Metadata>, rest: Vec<u8>) -> (r: (Vec<u8>, Option<Vec<u8>>))
    ensures
        r.0@ == national_part(match meta {
            Some(m) => Some(*m),
            None => None,
        }, rest@).0,
        match (r.1, national_part(match meta {
            Some(m) => Some(*m),
            None => None,
        }, rest@).1) {
            (Some(c), Some(v)) => c@ == v,
            (None, None) => true,
            _ => false,
        },
        all_digits(rest@) ==> all_digits(r.0@),
{
    let m = match meta {
        Some(m) => m,
        None => {
            return (rest, None);
        },
    };
    let (n1, carrier) = strip_prefix_for_parsing(m, &rest);
    let n2 = match &m.national_prefix {
        Some(p) => {
            if starts_with_at(n1.as_slice(), 0, p.as_slice()) {
                proof {
                    if all_digits(n1@) {
                        lemma_all_digits_subrange(n1@, p@.len() as int, n1@.len() as int);
                    }
                }
                tail(n1.as_slice(), p.len())
            } else {
                n1
            }
        },
        None => n1,
    };
    if length(&m.possible_lengths, n2.len()) != Validation::TooShort {
        (n2, carrier)
    } else {
        (rest, None)
    }
}

/// Builds the phone number that `candidate` denotes, with `country` as the
/// default country when one is given.
pub fn parse_candidate(database: &Database, country: Option<&Metadata>, candidate: Candidate) -> (r: Result<PhoneNumber, ParseError>)
    requires
        candidate.wf(),
    ensures
        parse_result(*database, match country {
            Some(m) => Some(*m),
            None => None,
        }, candidate, r),
{
    let ghost hint = match country {
        Some(m) => Some(*m),
        None => None,
    };
    let ghost cand = candidate;
    if candidate.digits.len() == 0 {
        return Err(ParseError::NoNumber);
    }
    let (code, rest) = match country_code(database, country, candidate.plus, candidate.digits.as_slice()) {
        Ok(v) => v,
        Err(e) => {
            return Err(e);
        },
    };
    let meta = match code.source {
        Source::Plus | Source::Idd => database.by_code(code.value),
        _ => country,
    };
    assert(match meta {
        Some(m) => Some(*m),
        None => None,
    } == country_meta(*database, hint, code));
    let (nsn, read_carrier) = national_number(meta, rest);
    if nsn.len() < MIN_LENGTH_FOR_NSN {
        return Err(ParseError::TooShortNsn);
    }
    if nsn.len() > MAX_LENGTH_FOR_NSN {
        return Err(ParseError::TooLong);
    }
    let value = parse_digits(nsn.as_slice(), 0, nsn.len());
    let zeros = count_leading_zeros(nsn.as_slice());
    assert(nsn@.subrange(0, nsn@.len() as int) == nsn@);
    let national = NationalNumber {
        value,
        zeroes: if zeros == 0 {
            None
        } else {
            Some(zeros as u8)
        },
    };
    let extension = match candidate.extension {
        Some(e) => Some(Extension(e)),
        None => None,
    };
    let carrier = match read_carrier {
        Some(c) => Some(Carrier(c)),
        None => match candidate.carrier {
            Some(c) => Some(Carrier(c)),
            None => None,
        },
    };
    Ok(PhoneNumber { code, national, extension, carrier })
}

/// Where the number part of `text` ends: at its first ";", else at its end.
pub open spec fn number_end(text: Seq<u8>, i: int) -> int
    decreases text.len() - i,
{
    if i < 0 || i >= text.len() {
        text.len() as int
    } else if text[i] == 59 {
        i
    } else {
        number_end(text, i + 1)
    }
}

/// Whether a "+" stands in `text` before its first digit.
pub open spec fn plus_first(text: Seq<u8>) -> bool
    decreases text.len(),
{
    if text.len() == 0 {
        false
    } else if text[0] == 43 {
        true
    } else if is_digit(text[0]) {
        false
    } else {
        plus_first(text.drop_first())
    }
}

/// The digits of `text`, in order.
pub open spec fn digits_of(text: Seq<u8>) -> Seq<u8>
    decreases text.len(),
{
    if text.len() == 0 {
        text
    } else if is_digit(text.last()) {
        digits_of(text.drop_last()).push(text.last())
    } else {
        digits_of(text.drop_last())
    }
}

/// Whether `tok` stands in `s` at position `i`.
pub open spec fn occurs_at(s: Seq<u8>, tok: Seq<u8>, i: int) -> bool {
    0 <= i && i + tok.len() <= s.len() && s.subrange(i, i + tok.len()) == tok
}

/// The first position at or after `i` where `tok` stands in `s`.
pub open spec fn find_from(s: Seq<u8>, tok: Seq<u8>, i: int) -> Option<int>
    decreases s.len() - i,
{
    if i < 0 || i >= s.len() || i + tok.len() > s.len() {
        None
    } else if occurs_at(s, tok, i) {
        Some(i)
    } else {
        find_from(s, tok, i + 1)
    }
}

/// The value of the parameter that `name` (such as ";ext=") introduces after
/// the number part of `text`, up to the next ";".
pub open spec fn param(text: Seq<u8>, name: Seq<u8>) -> Option<Seq<u8>> {
    match find_from(text, name, number_end(text, 0)) {
        Some(j) => Some(text.subrange(j + name.len(), number_end(text, j + name.len()))),
        None => None,
    }
}

pub open spec fn phone_context_name() -> Seq<u8> {
    seq![59u8, 112u8, 104u8, 111u8, 110u8, 101u8, 45u8, 99u8, 111u8, 110u8, 116u8, 101u8, 120u8, 116u8, 61u8]
}

pub open spec fn extension_name() -> Seq<u8> {
    seq![59u8, 101u8, 120u8, 116u8, 61u8]
}

/// The digits of a global phone context ("+" and a country code) that
/// precede a number written without "+".
pub open spec fn context_digits(text: Seq<u8>) -> Option<Seq<u8>> {
    let part = text.subrange(0, number_end(text, 0));
    match param(text, phone_context_name()) {
        Some(v) => if !plus_first(part) && plus_first(v) {
            Some(digits_of(v))
        } else {
            None
        },
        None => None,
    }
}

/// Whether `c` is what `text` holds: a "+" before the digits of its number
/// part or of its global phone context, those digits, context first, and the
/// value of its ";ext=" parameter as extension.
pub open spec fn reads_as(text: Seq<u8>, c: Candidate) -> bool {
    let part = text.subrange(0, number_end(text, 0));
    &&& c.plus == (plus_first(part) || context_digits(text) is Some)
    &&& c.digits@ == match context_digits(text) {
        Some(d) => d + digits_of(part),
        None => digits_of(part),
    }
    &&& match param(text, extension_name()) {
        Some(v) => c.extension matches Some(e) && (valid_utf8(v) ==> encode_utf8(e@) == v),
        None => c.extension is None,
    }
    &&& c.carrier is None
}

/// Finds the first ";" at or after `from`, or the end of `text`.
fn find_end(text: &[u8], from: usize) -> (r: usize)
    requires
        from <= text@.len(),
    ensures
        r == number_end(text@, from as int),
        from <= r <= text@.len(),
{
    let mut end: usize = from;
    while end < text.len() && text[end] != 59
        invariant
            from <= end <= text@.len(),
            number_end(text@, from as int) == number_end(text@, end as int),
        decreases text@.len() - end,
    {
        end = end + 1;
    }
    end
}

/// Finds the value of the parameter that `name` introduces after `end`.
fn find_param(text: &[u8], name: &[u8], end: usize) -> (r: Option<(usize, usize)>)
    requires
        end == number_end(text@, 0),
        end <= text@.len(),
    ensures
        match (r, param(text@, name@)) {
            (Some((a, b)), Some(v)) => a <= b <= text@.len() && text@.subrange(a as int, b as int) == v,
            (None, None) => true,
            _ => false,
        },
{
    let mut j: usize = end;
    while j < text.len() && text.len() - j >= name.len()
        invariant
            end == number_end(text@, 0),
            end <= j <= text@.len(),
            find_from(text@, name@, end as int) == find_from(text@, name@, j as int),
        decreases text@.len() - j,
    {
        if starts_with_at(text, j, name) {
            assert(occurs_at(text@, name@, j as int));
            let a = j + name.len();
            let b = find_end(text, a);
            return Some((a, b));
        }
        j = j + 1;
    }
    None
}

/// Appends the digits of `text` from `from` up to `to` to `out`.
fn push_digits(out: &mut Vec<u8>, text: &[u8], from: usize, to: usize)
    requires
        from <= to <= text@.len(),
        all_digits(old(out)@),
    ensures
        final(out)@ == old(out)@ + digits_of(text@.subrange(from as int, to as int)),
        all_digits(final(out)@),
{
    let ghost start = out@;
    let mut j: usize = from;
    while j < to
        invariant
            from <= j <= to <= text@.len(),
            out@ == start + digits_of(text@.subrange(from as int, j as int)),
            all_digits(out@),
        decreases to - j,
    {
        assert(text@.subrange(from as int, j + 1).drop_last() == text@.subrange(from as int, j as int));
        if 48 <= text[j] && text[j] <= 57 {
            out.push(text[j]);
        }
        j = j + 1;
    }
}

/// Whether a "+" stands in `text` between `from` and `to`, before any digit.
fn find_plus(text: &[u8], from: usize, to: usize) -> (r: bool)
    requires
        from <= to <= text@.len(),
    ensures
        r == plus_first(text@.subrange(from as int, to as int)),
{
    let mut i: usize = from;
    while i < to && text[i] != 43 && !(48 <= text[i] && text[i] <= 57)
        invariant
            from <= i <= to <= text@.len(),
            plus_first(text@.subrange(from as int, to as int)) == plus_first(text@.subrange(i as int, to as int)),
        decreases to - i,
    {
        assert(text@.subrange(i as int, to as int).drop_first() == text@.subrange(i + 1, to as int));
        i = i + 1;
    }
    i < to && text[i] == 43
}

/// Reads what the text of a phone number holds: the leading "+", the digits
/// of its number part, a global phone context and an extension.
pub fn extract(text: &[u8]) -> (r: Candidate)
    ensures
        reads_as(text@, r),
        r.wf(),
{
    let end = find_end(text, 0);
    let ghost part = text@.subrange(0, end as int);
    assert(text@.subrange(0, end as int).subrange(0, end as int) == part);
    let plus = find_plus(text, 0, end);
    let ctx_name: Vec<u8> = vec![59u8, 112u8, 104u8, 111u8, 110u8, 101u8, 45u8, 99u8, 111u8, 110u8, 116u8, 101u8, 120u8, 116u8, 61u8];
    let ext_name: Vec<u8> = vec![59u8, 101u8, 120u8, 116u8, 61u8];
    assert(ctx_name@ == phone_context_name());
    assert(ext_name@ == extension_name());
    let mut digits: Vec<u8> = Vec::new();
    let mut global = false;
    if !plus {
        match find_param(text, ctx_name.as_slice(), end) {
            Some((a, b)) => {
                if find_plus(text, a, b) {
                    global = true;
                    push_digits(&mut digits, text, a, b);
                    assert(digits@ == digits_of(text@.subrange(a as int, b as int)));
                }
            },
            None => {},
        }
    }
    push_digits(&mut digits, text, 0, end);
    let extension = match find_param(text, ext_name.as_slice(), end) {
        Some((a, b)) => {
            let mut v: Vec<u8> = Vec::new();
            append_range(&mut v, text, a, b);
            Some(lossy_string(v.as_slice()))
        },
        None => None,
    };
    Candidate { plus: plus || global, digits, extension, carrier: None }
}

/// Parses the text of a phone number under the rules of `database`, with
/// the region `country` as the default country when one is given.
pub fn parse_with(database: &Database, country: Option<&[u8]>, string: &str) -> (r: Result<PhoneNumber, ParseError>)
    ensures
        exists|c: Candidate|
            reads_as(encode_utf8(string@), c) && parse_result(*database, match country {
                Some(id) => database.region_with_id(id@),
                None => None,
            }, c, r),
{
    let candidate = extract(string.as_bytes());
    let ghost c = candidate;
    let meta = match country {
        Some(id) => database.by_id(id),
        None => None,
    };
    let r = parse_candidate(database, meta, candidate);
    assert(match meta {
        Some(m) => Some(*m),
        None => None,
    } == match country {
        Some(id) => database.region_with_id(id@),
        None => None,
    });
    r
}

} // verus!
