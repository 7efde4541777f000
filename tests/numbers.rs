use phonenumber::formatter::{self, FormatError, Mode};
use phonenumber::parser::{self, ParseError};
use phonenumber::{CountryCode, Database, Extension, Format, Metadata, NationalNumber, PhoneNumber, Source};

fn rule(pattern: &str, template: &str, leading: &[&str], national_prefix: Option<&str>) -> Format {
    Format {
        pattern: pattern.to_string(),
        format: template.as_bytes().to_vec(),
        leading_digits: leading.iter().map(|l| l.to_string()).collect(),
        national_prefix: national_prefix.map(|p| p.as_bytes().to_vec()),
        domestic_carrier: None,
    }
}

fn region(id: &str, code: u16, idd: &str, prefix: &str, formats: Vec<Format>, lengths: &[u8]) -> Metadata {
    Metadata {
        id: id.as_bytes().to_vec(),
        country_code: code,
        international_prefix: Some(idd.to_string()),
        national_prefix: Some(prefix.as_bytes().to_vec()),
        national_prefix_for_parsing: None,
        national_prefix_transform_rule: None,
        preferred_extension_prefix: None,
        formats,
        international_formats: Vec::new(),
        possible_lengths: lengths.to_vec(),
    }
}

fn brazil() -> Metadata {
    let mut br = region("BR", 55, r"00(?:1[245]|2[1-35]|31|4[13]|[56]5|99)", "0", Vec::new(), &[8, 9, 10, 11]);
    br.national_prefix_for_parsing = Some(r"(?:0|90)(?:(1[245]|2[135]|[34]1)(\d{10,11}))?".to_string());
    br.national_prefix_transform_rule = Some(b"$2".to_vec());
    br
}

fn database() -> Database {
    Database {
        regions: vec![
            region("US", 1, "011", "1", vec![rule(r"(\d{3})(\d{3})(\d{4})", "$1 $2 $3", &[], None)], &[10]),
            region(
                "NZ",
                64,
                "0(?:0|161)",
                "0",
                vec![rule(r"(\d)(\d{3})(\d{4})", "$1 $2 $3", &["[346]|7[2-57-9]|9[1-9]"], Some("$NP$FG"))],
                &[8, 9, 10],
            ),
            region(
                "GB",
                44,
                "00",
                "0",
                vec![rule(r"(\d{2})(\d{4})(\d{4})", "$1 $2 $3", &["2"], Some("($NP$FG)"))],
                &[7, 9, 10],
            ),
            region("DE", 49, "00", "0", Vec::new(), &[5, 6, 7, 8, 9, 10, 11, 12, 13, 14, 15]),
            region("JP", 81, "010", "0", Vec::new(), &[8, 9, 10]),
            brazil(),
        ],
    }
}

fn parse_in(country: &str, text: &str) -> Result<PhoneNumber, ParseError> {
    parser::parse_with(&database(), Some(country.as_bytes()), text)
}

fn number(code: u16, source: Source, value: u64) -> PhoneNumber {
    PhoneNumber {
        code: CountryCode { value: code, source },
        national: NationalNumber { value, zeroes: None },
        extension: None,
        carrier: None,
    }
}

fn render(n: &PhoneNumber, mode: Mode) -> Result<String, FormatError> {
    let db = database();
    formatter::format_with(&db, n).mode(mode).to_string()
}

#[test]
fn us() {
    assert_eq!("tel:+1-900-253-0000", render(&parse_in("US", "+1 9002530000").unwrap(), Mode::Rfc3966).unwrap());
}

#[test]
fn gb() {
    assert_eq!("+44 20 7031 3000", render(&parse_in("US", "+44 2070313000").unwrap(), Mode::International).unwrap());
}





#[test]
fn plus_wins_over_default_country() {
    let n = parse_in("US", "+64 3 331 6005").unwrap();
    assert_eq!(Source::Plus, n.code.source);
    assert_eq!(64, n.code.value);
}

#[test]
fn leading_zero_consumed_as_national_prefix() {
    let n = parse_in("NZ", "03-331 6005").unwrap();
    assert_eq!(33316005, n.national.value());
    assert_eq!(None, n.national.zeroes());
}

#[test]
fn leading_zeros_kept_in_national_number() {
    let n = parse_in("US", "+39 06 1234 5678").unwrap_err();
    assert_eq!(ParseError::InvalidCountryCode, n);
    let db = Database {
        regions: vec![Metadata {
            id: b"IT".to_vec(),
            country_code: 39,
            international_prefix: Some("00".to_string()),
            national_prefix: None,
            national_prefix_for_parsing: None,
            national_prefix_transform_rule: None,
            preferred_extension_prefix: None,
            formats: Vec::new(),
            international_formats: Vec::new(),
            possible_lengths: vec![6, 7, 8, 9, 10, 11],
        }],
    };
    let n = parser::parse_with(&db, None, "+39 06 1234 5678").unwrap();
    assert_eq!(Some(1), n.national.zeroes());
    assert_eq!(612345678, n.national.value());
    assert_eq!("+390612345678", formatter::format_with(&db, &n).to_string().unwrap());
}

#[test]
fn stripping_absent_prefix_changes_nothing() {
    let db = database();
    let nz = db.by_id(b"NZ");
    assert_eq!((b"33316005".to_vec(), None), parser::national_number(nz, b"33316005".to_vec()));
    assert_eq!((b"33316005".to_vec(), None), parser::national_number(nz, b"033316005".to_vec()));
}

#[test]
fn short_number_keeps_its_prefix() {
    // "012" stripped would leave two digits, shorter than any New Zealand number.
    let db = database();
    let nz = db.by_id(b"NZ");
    assert_eq!((b"012".to_vec(), None), parser::national_number(nz, b"012".to_vec()));
}

#[test]
fn length_bounds() {
    assert_eq!(Err(ParseError::TooShortNsn), parse_in("US", "+64 1"));
    assert_eq!(12, parse_in("US", "+64 12").unwrap().national.value());
    assert_eq!(12345678901234567, parse_in("US", "+64 12345678901234567").unwrap().national.value());
    assert_eq!(Err(ParseError::TooLong), parse_in("US", "+64 123456789012345678"));
}

#[test]
fn parse_errors() {
    assert_eq!(Err(ParseError::NoNumber), parse_in("NZ", "tel:"));
    assert_eq!(Err(ParseError::NoNumber), parse_in("NZ", ""));
    assert_eq!(Err(ParseError::InvalidCountryCode), parse_in("NZ", "+999 1234 5678"));
}

#[test]
fn no_default_country_leaves_code_unresolved() {
    let n = parser::parse_with(&database(), None, "33316005").unwrap();
    assert_eq!(number(0, Source::Default, 33316005), n);
}

#[test]
fn e164_round_trip() {
    for (country, text) in [("NZ", "03-331 6005"), ("US", "+64 3 331 6005"), ("NZ", "0064 3 331 6005"), ("NZ", "tel:+64-3-331-6005")] {
        let n = parse_in(country, text).unwrap();
        assert_eq!("+6433316005", render(&n, Mode::E164).unwrap());
    }
}

#[test]
fn nz_international() {
    let n = parse_in("US", "+64 3 331 6005").unwrap();
    assert_eq!(number(64, Source::Plus, 33316005), n);
    assert_eq!("+64 3 331 6005", render(&n, Mode::International).unwrap());
}

#[test]
fn national_prefix_template() {
    let gb = parse_in("US", "+44 2070313000").unwrap();
    assert_eq!("(020) 7031 3000", render(&gb, Mode::National).unwrap());
    let nz = parse_in("NZ", "03 331 6005").unwrap();
    assert_eq!("03 331 6005", render(&nz, Mode::National).unwrap());
}

#[test]
fn carrier_template() {
    let mut f = rule(r"(\d{2})(\d{4})(\d{4})", "$1 $2 $3", &[], Some("$NP$FG"));
    f.domestic_carrier = Some(b"$NP $CC $FG".to_vec());
    let mut n = number(44, Source::Plus, 2070313000);
    n.carrier = Some(phonenumber::Carrier(b"15".to_vec()));
    let db = database();
    let out = formatter::format_with(&db, &n).mode(Mode::National).with(&f).to_string().unwrap();
    assert_eq!("0 15 20 7031 3000", out);
}

#[test]
fn extension_suffixes() {
    let mut n = number(44, Source::Plus, 2070313000);
    n.extension = Some(Extension("123".to_string()));
    assert_eq!("+44 20 7031 3000 ext. 123", render(&n, Mode::International).unwrap());
    assert_eq!("tel:+44-20-7031-3000;ext=123", render(&n, Mode::Rfc3966).unwrap());
    assert_eq!("+442070313000", render(&n, Mode::E164).unwrap());
}

#[test]
fn later_rule_chosen_when_earlier_filter_rejects() {
    let rules = vec![
        rule(r"(\d{2})(\d{4})(\d{4})", "$1-$2-$3", &["7"], None),
        rule(r"(\d{2})(\d{4})(\d{4})", "$1 $2 $3", &["2"], None),
    ];
    assert_eq!(Some(1), formatter::formatter(b"2070313000", &rules));
    assert_eq!(None, formatter::formatter(b"20703130", &rules));
}

#[test]
fn partial_pattern_match_rejected() {
    let rules = vec![rule(r"(\d{2})(\d{4})", "$1 $2", &[], None)];
    assert_eq!(None, formatter::formatter(b"2070313000", &rules));
}

#[test]
fn unformatted_without_rule() {
    let n = parse_in("DE", "301/23456").unwrap();
    assert_eq!("+49 30123456", render(&n, Mode::International).unwrap());
    assert_eq!("30123456", render(&n, Mode::National).unwrap());
}

#[test]
fn unknown_country_code_fails_formatting() {
    let n = number(999, Source::Plus, 12345678);
    assert_eq!(Err(FormatError::UnknownCountryCode), render(&n, Mode::E164));
    let empty = Database { regions: Vec::new() };
    assert_eq!(Err(FormatError::UnknownCountryCode), formatter::format_with(&empty, &n).mode(Mode::International).to_string());
}

#[test]
fn separators_collapse() {
    let db = database();
    let n = number(44, Source::Plus, 2070313000);
    let f = rule(r"(\d{2})(\d{4})(\d{4})", "($1) $2\u{2010}\u{2010}$3", &[], None);
    let out = formatter::format_with(&db, &n).mode(Mode::Rfc3966).with(&f).to_string().unwrap();
    assert_eq!("tel:+44--20-7031-3000", out);
}

#[test]
fn digits_rendering() {
    let mut out = Vec::new();
    phonenumber::text::write_decimal(&mut out, 9002530000);
    assert_eq!(b"9002530000".to_vec(), out);
}


#[test]
fn parse_extension() {
    let n = parse_in("US", "tel:+44-20-7031-3000;ext=123").unwrap();
    assert_eq!(Some(&Extension("123".to_string())), n.extension());
    assert_eq!("+44 20 7031 3000 ext. 123", render(&n, Mode::International).unwrap());
}

#[test]
fn parse() {
    let mut n = number(64, Source::Default, 33316005);
    assert_eq!(n, parse_in("NZ", "033316005").unwrap());
    assert_eq!(n, parse_in("NZ", "33316005").unwrap());
    assert_eq!(n, parse_in("NZ", "03-331 6005").unwrap());
    assert_eq!(n, parse_in("NZ", "03 331 6005").unwrap());

    n.code.source = Source::Plus;
    assert_eq!(n, parse_in("NZ", "tel:03-331-6005;phone-context=+64").unwrap());
    assert_eq!(n, parse_in("NZ", "tel:03-331-6005;phone-context=+64;a=%A1").unwrap());
    assert_eq!(n, parse_in("NZ", "tel:03-331-6005;isub=12345;phone-context=+64").unwrap());
    assert_eq!(n, parse_in("NZ", "tel:+64-3-331-6005;isub=12345").unwrap());
    assert_eq!(n, parse_in("NZ", "03-331-6005;phone-context=+64").unwrap());

    n.code.source = Source::Idd;
    assert_eq!(n, parse_in("NZ", "0064 3 331 6005").unwrap());
    assert_eq!(n, parse_in("US", "01164 3 331 6005").unwrap());

    n.code.source = Source::Plus;
    assert_eq!(n, parse_in("US", "+64 3 331 6005").unwrap());
    assert_eq!(n, parse_in("US", "+01164 3 331 6005").unwrap());
    assert_eq!(n, parse_in("NZ", "+0064 3 331 6005").unwrap());
    assert_eq!(n, parse_in("NZ", "+ 00 64 3 331 6005").unwrap());

    assert_eq!(number(64, Source::Number, 64123456), parse_in("NZ", "64(0)64123456").unwrap());
    assert_eq!(number(49, Source::Default, 30123456), parse_in("DE", "301/23456").unwrap());
    assert_eq!(number(81, Source::Plus, 2345), parse_in("JP", "+81 *2345").unwrap());
    assert_eq!(number(64, Source::Default, 12), parse_in("NZ", "12").unwrap());

    let mut br = number(55, Source::Default, 3121286979);
    br.carrier = Some(phonenumber::Carrier(b"12".to_vec()));
    assert_eq!(br, parse_in("BR", "012 3121286979").unwrap());
}

#[test]
fn alternation_matches_whole_number() {
    let rules = vec![rule(r"(\d{2})|(\d{4})", "$1$2", &[], None)];
    assert_eq!(Some(0), formatter::formatter(b"1234", &rules));
    assert_eq!(None, formatter::formatter(b"123", &rules));
}

#[test]
fn carrier_read_before_national_number() {
    let db = database();
    let br = db.by_id(b"BR");
    assert_eq!((b"3121286979".to_vec(), Some(b"12".to_vec())), parser::national_number(br, b"0123121286979".to_vec()));
}
