use vstd::prelude::*;
use vstd::string::StringExecFns;
use vstd::utf8::{encode_utf8, valid_utf8};
use crate::metadata::{Database, Format, Metadata};
use crate::national_number::NationalNumber;
use crate::pattern::{find_match, regex_find, regex_replace, regex_replace_all, replace_every, replace_first};
use crate::phone_number::PhoneNumber;
use crate::text::{
    append, lossy_string, decimal, find_first_group, first_group_from,
    replace_token, substitute_token, write_decimal, zeros,
};

verus! {

/// The output forms of a phone number.
#[derive(Copy, Clone, Eq, PartialEq, Structural, Debug)]
pub enum Mode {
    E164,
    International,
    National,
    Rfc3966,
}

/// A run of the punctuation that may separate the blocks of a written
/// number: hyphens and dashes, "x", spaces, parentheses, brackets, dots,
/// slashes and tildes, in their ASCII and wide forms.
pub const SEPARATOR_PATTERN: &'static str = "[-x\u{2010}-\u{2015}\u{2212}\u{30FC}\u{FF0D}-\u{FF0F} \u{00A0}\u{00AD}\u{200B}\u{2060}\u{3000}()\u{FF08}\u{FF09}\u{FF3B}\u{FF3D}.\\[\\]/~\u{2053}\u{223C}\u{FF5E}]+";

/// Why a number could not be formatted.
#[derive(Copy, Clone, Eq, PartialEq, Structural, Debug)]
pub enum FormatError {
    /// No rules are known for the number's country code.
    UnknownCountryCode,
}

/// Whether `pattern` matches `nsn` at its start.
pub open spec fn matches_at_start(pattern: Seq<char>, nsn: Seq<u8>) -> bool {
    match regex_find(pattern, nsn) {
        Some((s, _)) => s == 0,
        None => false,
    }
}

/// Whether `rule` applies to the national number `nsn`: its last leading
/// digits filter matches at the start, and its pattern matches the whole.
pub open spec fn rule_applies(rule: Format, nsn: Seq<u8>) -> bool {
    &&& (rule.leading_digits@.len() == 0 || matches_at_start(rule.leading_digits@.last()@, nsn))
    &&& regex_find(anchored(rule.pattern@), nsn) is Some
}

/// `pattern` anchored at both ends, so that it matches only a whole text:
/// `^(?:pattern)$`.
pub open spec fn anchored(pattern: Seq<char>) -> Seq<char> {
    seq!['^', '(', '?', ':'] + pattern + seq![')', '$']
}

/// Builds `^(?:pattern)$`.
pub fn anchor(pattern: &str) -> (r: String)
    ensures
        r@ == anchored(pattern@),
{
    let mut r = String::from_str("^(?:");
    r.append(pattern);
    r.append(")$");
    proof {
        reveal_strlit("^(?:");
        reveal_strlit(")$");
    }
    r
}

/// The index of the first rule at or after `i` that applies to `nsn`.
pub open spec fn first_applicable(rules: Seq<Format>, nsn: Seq<u8>, i: int) -> Option<int>
    decreases rules.len() - i,
{
    if i < 0 || i >= rules.len() {
        None
    } else if rule_applies(rules[i], nsn) {
        Some(i)
    } else {
        first_applicable(rules, nsn, i + 1)
    }
}

/// The template of `base` with its first group reference replaced by
/// `transform`, in which `$NP`, `$FG` and `$CC` stand for the national
/// prefix, that group reference and the carrier code.
pub open spec fn override_template(base: Seq<u8>, transform: Seq<u8>, prefix: Seq<u8>, carrier: Seq<u8>) -> Seq<u8> {
    match first_group_from(base, 0) {
        Some(k) => {
            let t = replace_token(transform, 78, 80, prefix);
            let t = replace_token(t, 70, 71, base.subrange(k, k + 2));
            let t = replace_token(t, 67, 67, carrier);
            base.subrange(0, k) + t + base.subrange(k + 2, base.len() as int)
        },
        None => base,
    }
}

/// The bytes of an optional piece of text, empty when absent.
pub open spec fn or_empty(s: Option<Vec<u8>>) -> Seq<u8> {
    match s {
        Some(v) => v@,
        None => Seq::empty(),
    }
}

/// `nsn` formatted by `rule`, with an optional override of its first group.
pub open spec fn expanded(nsn: Seq<u8>, meta: Metadata, rule: Format, transform: Option<Seq<u8>>, carrier: Option<Seq<u8>>) -> Seq<u8> {
    let template = match transform {
        Some(t) => override_template(rule.format@, t, or_empty(meta.national_prefix), match carrier {
            Some(c) => c,
            None => Seq::empty(),
        }),
        None => rule.format@,
    };
    regex_replace(rule.pattern@, nsn, template)
}

/// What stands before an extension when the country prefers nothing else.
pub open spec fn default_extension_prefix() -> Seq<u8> {
    seq![32u8, 101u8, 120u8, 116u8, 46u8, 32u8]
}

/// What stands before an extension in numbers of the country of `meta`.
pub open spec fn extension_prefix(meta: Metadata) -> Seq<u8> {
    match meta.preferred_extension_prefix {
        Some(p) => p@,
        None => default_extension_prefix(),
    }
}

/// The extension as displayed after a number, empty when there is none.
pub open spec fn extension_suffix(number: PhoneNumber, meta: Metadata) -> Seq<u8> {
    match number.extension {
        Some(e) => extension_prefix(meta) + encode_utf8(e.0@),
        None => Seq::empty(),
    }
}

/// The rule that formats `number`: the given one, else the first applicable
/// rule of the set that `mode` uses.
pub open spec fn chosen_rule(number: PhoneNumber, meta: Metadata, mode: Mode, rule: Option<Format>) -> Option<Format> {
    match rule {
        Some(f) => Some(f),
        None => {
            let rules = if meta.international_formats@.len() == 0 || mode == Mode::National
                || mode == Mode::Rfc3966 {
                meta.formats@
            } else {
                meta.international_formats@
            };
            match first_applicable(rules, number.national.text(), 0) {
                Some(i) => Some(rules[i]),
                None => None,
            }
        },
    }
}

/// The national form of `nsn` under `f`: with the carrier template when the
/// number has a carrier and `f` has one, else with the national prefix
/// template when `f` has one, else with the bare template.
pub open spec fn national_form(nsn: Seq<u8>, meta: Metadata, f: Format, number: PhoneNumber) -> Seq<u8> {
    match (number.carrier, f.domestic_carrier, f.national_prefix) {
        (Some(c), Some(t), _) => expanded(nsn, meta, f, Some(t@), Some(c.0@)),
        (_, _, Some(t)) => expanded(nsn, meta, f, Some(t@), None),
        _ => expanded(nsn, meta, f, None, None),
    }
}

/// The text of `number` in `mode` under the rules `meta` of its country.
pub open spec fn rendered(number: PhoneNumber, meta: Metadata, mode: Mode, rule: Option<Format>) -> Seq<u8> {
    let nsn = number.national.text();
    let code = decimal(number.code.value as nat);
    let chosen = chosen_rule(number, meta, mode, rule);
    let plain = match chosen {
        Some(f) => expanded(nsn, meta, f, None, None),
        None => nsn,
    };
    let national = match chosen {
        Some(f) => national_form(nsn, meta, f, number),
        None => nsn,
    };
    let hyphenated = match chosen {
        Some(f) => regex_replace_all(SEPARATOR_PATTERN@, expanded(nsn, meta, f, None, None), seq![45u8]),
        None => nsn,
    };
    let uri_extension = match number.extension {
        Some(e) => seq![59u8, 101u8, 120u8, 116u8, 61u8] + encode_utf8(e.0@),
        None => Seq::empty(),
    };
    match mode {
        Mode::E164 => seq![43u8] + code + nsn,
        Mode::International => seq![43u8] + code + seq![32u8] + plain + extension_suffix(number, meta),
        Mode::National => national + extension_suffix(number, meta),
        Mode::Rfc3966 => seq![116u8, 101u8, 108u8, 58u8, 43u8] + code + seq![45u8] + hyphenated + uri_extension,
    }
}

/// The digits of a national number, leading zeros included.
pub fn national_text(n: &NationalNumber) -> (r: Vec<u8>)
    ensures
        r@ == n.text(),
{
    let count: u8 = match n.zeroes {
        Some(z) => z,
        None => 0,
    };
    let mut out: Vec<u8> = Vec::new();
    let mut i: u8 = 0;
    while i < count
        invariant
            i <= count,
            count as nat == n.zero_count(),
            out@ == zeros(i as nat),
        decreases count - i,
    {
        out.push(48u8);
        assert(out@ == zeros((i + 1) as nat));
        i = i + 1;
    }
    write_decimal(&mut out, n.value);
    out
}

/// The first rule of `formats` that applies to `number`.
pub fn formatter(number: &[u8], formats: &Vec<Format>) -> (r: Option<usize>)
    ensures
        r matches Some(i) ==> first_applicable(formats@, number@, 0) == Some(i as int) && i
            < formats@.len(),
        r is None ==> first_applicable(formats@, number@, 0) is None,
{
    let mut i: usize = 0;
    while i < formats.len()
        invariant
            i <= formats@.len(),
            first_applicable(formats@, number@, 0) == first_applicable(formats@, number@, i as int),
        decreases formats@.len() - i,
    {
        let format = &formats[i];
        let n = format.leading_digits.len();
        let leading_ok = if n == 0 {
            true
        } else {
            match find_match(format.leading_digits[n - 1].as_str(), number) {
                Some((s, _)) => s == 0,
                None => false,
            }
        };
        if leading_ok {
            let whole = anchor(format.pattern.as_str());
            if find_match(whole.as_str(), number).is_some() {
                return Some(i);
            }
        }
        i = i + 1;
    }
    None
}

/// Formats `national` with `formatter`, overriding its first group with
/// `transform` when one is given.
pub fn replace(national: &[u8], meta: &Metadata, formatter: &Format, transform: Option<&Vec<u8>>, carrier: Option<&[u8]>) -> (r: Vec<u8>)
    ensures
        r@ == expanded(national@, *meta, *formatter, match transform {
            Some(t) => Some(t@),
            None => None,
        }, match carrier {
            Some(c) => Some(c@),
            None => None,
        }),
{
    match transform {
        Some(transform) => {
            let base = formatter.format.as_slice();
            match find_first_group(base) {
                Some(k) => {
                    let empty: Vec<u8> = Vec::new();
                    let prefix = match &meta.national_prefix {
                        Some(p) => p.as_slice(),
                        None => empty.as_slice(),
                    };
                    let t = substitute_token(transform.as_slice(), 78, 80, prefix);
                    let mut group: Vec<u8> = Vec::new();
                    group.push(base[k]);
                    group.push(base[k + 1]);
                    assert(group@ == base@.subrange(k as int, k + 2));
                    let t = substitute_token(t.as_slice(), 70, 71, group.as_slice());
                    let c = match carrier {
                        Some(c) => c,
                        None => empty.as_slice(),
                    };
                    let t = substitute_token(t.as_slice(), 67, 67, c);
                    let mut template: Vec<u8> = Vec::new();
                    crate::text::append_range(&mut template, base, 0, k);
                    append(&mut template, t.as_slice());
                    crate::text::append_range(&mut template, base, k + 2, base.len());
                    replace_first(formatter.pattern.as_str(), national, template.as_slice())
                },
                None => replace_first(formatter.pattern.as_str(), national, base),
            }
        },
        None => replace_first(formatter.pattern.as_str(), national, formatter.format.as_slice()),
    }
}

} // verus!

verus! {

/// How to format a phone number: the number, the rule table to look its
/// country up in, the output form and an optional rule to use.
#[derive(Copy, Clone, Debug)]
pub struct Formatter<'n, 'd, 'f> {
    pub number: &'n PhoneNumber,
    pub database: Option<&'d Database>,
    pub mode: Mode,
    pub format: Option<&'f Format>,
}

/// A formatter of `number` in E.164 form under the rules of `database`.
pub fn format_with<'d, 'n>(database: &'d Database, number: &'n PhoneNumber) -> (r: Formatter<'n, 'd, 'static>)
    ensures
        r.number == number,
        r.database == Some(database),
        r.mode == Mode::E164,
        r.format is None,
{
    Formatter { number, database: Some(database), mode: Mode::E164, format: None }
}

impl<'n, 'd, 'f> Formatter<'n, 'd, 'f> {
    /// Uses the rules of `database`.
    pub fn database<'a>(self, database: &'a Database) -> (r: Formatter<'n, 'a, 'f>)
        ensures
            r.number == self.number,
            r.database == Some(database),
            r.mode == self.mode,
            r.format == self.format,
    {
        Formatter { number: self.number, database: Some(database), mode: self.mode, format: self.format }
    }

    /// Formats in `mode`.
    pub fn mode(self, mode: Mode) -> (r: Formatter<'n, 'd, 'f>)
        ensures
            r.number == self.number,
            r.database == self.database,
            r.mode == mode,
            r.format == self.format,
    {
        Formatter { number: self.number, database: self.database, mode, format: self.format }
    }

    /// Formats with the rule `format` instead of the one the table selects.
    pub fn with<'a>(self, format: &'a Format) -> (r: Formatter<'n, 'd, 'a>)
        ensures
            r.number == self.number,
            r.database == self.database,
            r.mode == self.mode,
            r.format == Some(format),
    {
        Formatter { number: self.number, database: self.database, mode: self.mode, format: Some(format) }
    }

    /// The rules that apply to the number, when the table has its country.
    pub open spec fn meta(&self) -> Option<Metadata> {
        match self.database {
            Some(db) => db.region_for(self.number.code.value),
            None => None,
        }
    }

    /// The formatted number, as bytes. Fails exactly when no rules are
    /// known for its country code.
    pub fn fmt(&self) -> (r: Result<Vec<u8>, FormatError>)
        ensures
            r is Err <==> self.meta() is None,
            r matches Ok(s) ==> s@ == rendered(*self.number, self.meta()->0, self.mode, match self.format {
                Some(f) => Some(*f),
                None => None,
            }),
    {
        let meta = match self.database {
            Some(db) => match db.by_code(self.number.code.value) {
                Some(m) => m,
                None => {
                    return Err(FormatError::UnknownCountryCode);
                },
            },
            None => {
                return Err(FormatError::UnknownCountryCode);
            },
        };
        let number = self.number;
        let national = national_text(&number.national);
        let ghost nsn = number.national.text();
        let chosen: Option<&Format> = match self.format {
            Some(f) => Some(f),
            None => {
                let rules = if meta.international_formats.len() == 0 || self.mode == Mode::National
                    || self.mode == Mode::Rfc3966 {
                    &meta.formats
                } else {
                    &meta.international_formats
                };
                match formatter(national.as_slice(), rules) {
                    Some(i) => Some(&rules[i]),
                    None => None,
                }
            },
        };
        assert(chosen matches Some(f) ==> chosen_rule(*number, *meta, self.mode, match self.format {
            Some(f) => Some(*f),
            None => None,
        }) == Some(*f));
        let mut out: Vec<u8> = Vec::new();
        match self.mode {
            Mode::E164 => {
                out.push(43u8);
                write_decimal(&mut out, number.code.value as u64);
                append(&mut out, national.as_slice());
            },
            Mode::International => {
                out.push(43u8);
                write_decimal(&mut out, number.code.value as u64);
                out.push(32u8);
                match chosen {
                    Some(f) => {
                        let body = replace(national.as_slice(), meta, f, None, None);
                        append(&mut out, body.as_slice());
                    },
                    None => append(&mut out, national.as_slice()),
                }
                self.push_extension(&mut out, meta);
            },
            Mode::National => {
                match chosen {
                    Some(f) => {
                        let body = if number.carrier.is_some() && f.domestic_carrier.is_some() {
                            let c = number.carrier.as_ref().unwrap().0.as_slice();
                            replace(national.as_slice(), meta, f, f.domestic_carrier.as_ref(), Some(c))
                        } else if f.national_prefix.is_some() {
                            replace(national.as_slice(), meta, f, f.national_prefix.as_ref(), None)
                        } else {
                            replace(national.as_slice(), meta, f, None, None)
                        };
                        append(&mut out, body.as_slice());
                    },
                    None => append(&mut out, national.as_slice()),
                }
                self.push_extension(&mut out, meta);
            },
            Mode::Rfc3966 => {
                out.push(116u8);
                out.push(101u8);
                out.push(108u8);
                out.push(58u8);
                out.push(43u8);
                write_decimal(&mut out, number.code.value as u64);
                out.push(45u8);
                match chosen {
                    Some(f) => {
                        let body = replace(national.as_slice(), meta, f, None, None);
                        let hyphen: Vec<u8> = vec![45u8];
                        assert(hyphen@ == seq![45u8]);
                        let body = replace_every(SEPARATOR_PATTERN, body.as_slice(), hyphen.as_slice());
                        append(&mut out, body.as_slice());
                    },
                    None => append(&mut out, national.as_slice()),
                }
                match &number.extension {
                    Some(e) => {
                        out.push(59u8);
                        out.push(101u8);
                        out.push(120u8);
                        out.push(116u8);
                        out.push(61u8);
                        append(&mut out, e.0.as_str().as_bytes());
                    },
                    None => {},
                }
            },
        }
        Ok(out)
    }

    /// Appends the extension of the number, after the country's preferred
    /// prefix, when the number has one.
    fn push_extension(&self, out: &mut Vec<u8>, meta: &Metadata)
        ensures
            final(out)@ == old(out)@ + extension_suffix(*self.number, *meta),
    {
        match &self.number.extension {
            Some(e) => {
                match &meta.preferred_extension_prefix {
                    Some(p) => append(out, p.as_slice()),
                    None => {
                        out.push(32u8);
                        out.push(101u8);
                        out.push(120u8);
                        out.push(116u8);
                        out.push(46u8);
                        out.push(32u8);
                    },
                }
                append(out, e.0.as_str().as_bytes());
            },
            None => {},
        }
    }

    /// The formatted number as a string.
    pub fn to_string(&self) -> (r: Result<String, FormatError>)
        ensures
            r is Err <==> self.meta() is None,
            r matches Ok(s) ==> {
                let b = rendered(*self.number, self.meta()->0, self.mode, match self.format {
                    Some(f) => Some(*f),
                    None => None,
                });
                valid_utf8(b) ==> encode_utf8(s@) == b
            },
    {
        match self.fmt() {
            Ok(b) => Ok(lossy_string(b.as_slice())),
            Err(e) => Err(e),
        }
    }
}

} // verus!
