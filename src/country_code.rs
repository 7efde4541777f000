use vstd::prelude::*;

verus! {

/// Why a country calling code was chosen.
#[derive(Eq, PartialEq, Structural, Copy, Clone, Debug)]
pub enum Source {
    /// The number was written with a leading "+".
    Plus,
    /// The number started with the international dialling prefix of the
    /// country it is dialled from.
    Idd,
    /// The leading digits of the number matched the calling code of the
    /// default country.
    Number,
    /// Nothing in the text named a country: the default country was used.
    Default,
}

impl Default for Source {
    fn default() -> (r: Source)
        ensures
            r == Source::Default,
    {
        Source::Default
    }
}

/// A country calling code together with the evidence it was derived from.
#[derive(Eq, PartialEq, Structural, Copy, Clone, Debug)]
pub struct CountryCode {
    pub value: u16,
    pub source: Source,
}

impl CountryCode {
    pub fn value(&self) -> (r: u16)
        ensures
            r == self.value,
    {
        self.value
    }

    pub fn source(&self) -> (r: Source)
        ensures
            r == self.source,
    {
        self.source
    }
}

} // verus!
