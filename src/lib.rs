//! Parsing of telephone number text into a country-aware structure, and
//! formatting of that structure back into E.164, international, national and
//! RFC 3966 forms, under per-country rule tables.

pub mod country_code;
pub mod digits;
pub mod extension;
pub mod formatter;
pub mod laws;
pub mod metadata;
pub mod national_number;
pub mod parser;
pub mod pattern;
pub mod phone_number;
pub mod text;
pub mod validator;

pub use country_code::{CountryCode, Source};
pub use extension::{Carrier, Extension};
pub use formatter::{format_with, Formatter, Mode};
pub use metadata::{Database, Format, Metadata};
pub use national_number::NationalNumber;
pub use parser::parse_with;
pub use phone_number::PhoneNumber;
