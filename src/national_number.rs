use vstd::prelude::*;
use crate::text::{decimal, zeros};

verus! {

/// A national significant number.
#[derive(Copy, Clone, Eq, PartialEq, Structural, Debug)]
pub struct NationalNumber {
    /// The number without its leading zeros.
    pub value: u64,
    /// How many leading zeros the number keeps even when dialled from abroad,
    /// when there are any.
    pub zeroes: Option<u8>,
}

impl NationalNumber {
    pub fn value(&self) -> (r: u64)
        ensures
            r == self.value,
    {
        self.value
    }

    pub fn zeroes(&self) -> (r: Option<u8>)
        ensures
            r == self.zeroes,
    {
        self.zeroes
    }

    /// The number of leading zeros, zero when none are recorded.
    pub open spec fn zero_count(&self) -> nat {
        match self.zeroes {
            Some(z) => z as nat,
            None => 0,
        }
    }

    /// The digits of the number as written: its leading zeros, then its value.
    pub open spec fn text(&self) -> Seq<u8> {
        zeros(self.zero_count()) + decimal(self.value as nat)
    }
}

} // verus!
