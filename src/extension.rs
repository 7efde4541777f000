use vstd::prelude::*;

verus! {

/// The extension of a phone number, as written.
#[derive(Clone, Eq, PartialEq, Debug)]
pub struct Extension(pub String);

impl Extension {
    pub fn as_str(&self) -> (r: &str)
        ensures
            r@ == self.0@,
    {
        self.0.as_str()
    }
}

/// A carrier selection code, as written.
#[derive(Clone, Eq, PartialEq, Debug)]
pub struct Carrier(pub Vec<u8>);

impl Carrier {
    pub fn as_bytes(&self) -> (r: &[u8])
        ensures
            r@ == self.0@,
    {
        self.0.as_slice()
    }
}

} // verus!
