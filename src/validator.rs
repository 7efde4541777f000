use vstd::prelude::*;

verus! {

/// How the length of a national number compares with the lengths a country
/// allows.
#[derive(Copy, Clone, Eq, PartialEq, Structural, Debug)]
pub enum Validation {
    IsPossible,
    TooShort,
    TooLong,
    InvalidLength,
}

/// The class of a national number of `len` digits among `lengths`.
pub open spec fn classify(lengths: Seq<u8>, len: nat) -> Validation {
    if exists|i: int| 0 <= i < lengths.len() && lengths[i] == len {
        Validation::IsPossible
    } else if lengths.len() > 0 && forall|i: int| 0 <= i < lengths.len() ==> len < lengths[i] {
        Validation::TooShort
    } else if lengths.len() > 0 && forall|i: int| 0 <= i < lengths.len() ==> len > lengths[i] {
        Validation::TooLong
    } else {
        Validation::InvalidLength
    }
}

/// Classifies a national number of `len` digits against `lengths`.
pub fn length(lengths: &Vec<u8>, len: usize) -> (r: Validation)
    ensures
        r == classify(lengths@, len as nat),
{
    let mut found = false;
    let mut all_above = true;
    let mut all_below = true;
    let mut i: usize = 0;
    while i < lengths.len()
        invariant
            i <= lengths@.len(),
            found == exists|j: int| 0 <= j < i && lengths@[j] == len,
            all_above == forall|j: int| 0 <= j < i ==> len < lengths@[j],
            all_below == forall|j: int| 0 <= j < i ==> len > lengths@[j],
        decreases lengths@.len() - i,
    {
        let l = lengths[i] as usize;
        if l == len {
            found = true;
        }
        if !(len < l) {
            all_above = false;
        }
        if !(len > l) {
            all_below = false;
        }
        i = i + 1;
    }
    if found {
        Validation::IsPossible
    } else if lengths.len() > 0 && all_above {
        Validation::TooShort
    } else if lengths.len() > 0 && all_below {
        Validation::TooLong
    } else {
        Validation::InvalidLength
    }
}

} // verus!
