use vstd::prelude::*;
use crate::country_code::CountryCode;
use crate::extension::{Carrier, Extension};
use crate::national_number::NationalNumber;

verus! {

/// A parsed phone number.
#[derive(Clone, Eq, PartialEq, Debug)]
pub struct PhoneNumber {
    pub code: CountryCode,
    pub national: NationalNumber,
    pub extension: Option<Extension>,
    pub carrier: Option<Carrier>,
}

impl PhoneNumber {
    pub fn country(&self) -> (r: CountryCode)
        ensures
            r == self.code,
    {
        self.code
    }

    pub fn national(&self) -> (r: NationalNumber)
        ensures
            r == self.national,
    {
        self.national
    }

    pub fn extension(&self) -> (r: Option<&Extension>)
        ensures
            r matches Some(e) ==> self.extension == Some(*e),
            r is None <==> self.extension is None,
    {
        match &self.extension {
            Some(e) => Some(e),
            None => None,
        }
    }

    pub fn carrier(&self) -> (r: Option<&Carrier>)
        ensures
            r matches Some(c) ==> self.carrier == Some(*c),
            r is None <==> self.carrier is None,
    {
        match &self.carrier {
            Some(c) => Some(c),
            None => None,
        }
    }
}

} // verus!
