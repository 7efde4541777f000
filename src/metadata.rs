use vstd::prelude::*;

verus! {

/// One formatting rule of a country.
#[derive(Clone, Debug)]
pub struct Format {
    /// Regular expression over the national significant number, whose
    /// capture groups are the blocks of the formatted number.
    pub pattern: String,
    /// Display template with `$1`, `$2`, ... references to the groups.
    pub format: Vec<u8>,
    /// Pre-filters on the leading digits; the last one is the most specific.
    pub leading_digits: Vec<String>,
    /// Template for the national prefix (`$NP`) and first group (`$FG`) in
    /// national formatting.
    pub national_prefix: Option<Vec<u8>>,
    /// Template for a carrier code (`$CC`) and first group (`$FG`).
    pub domestic_carrier: Option<Vec<u8>>,
}

impl Format {
    pub fn pattern(&self) -> (r: &str)
        ensures
            r@ == self.pattern@,
    {
        self.pattern.as_str()
    }

    pub fn format(&self) -> (r: &Vec<u8>)
        ensures
            r@ == self.format@,
    {
        &self.format
    }

    pub fn national_prefix(&self) -> (r: Option<&Vec<u8>>)
        ensures
            r matches Some(p) ==> self.national_prefix == Some(*p),
            r is None <==> self.national_prefix is None,
    {
        match &self.national_prefix {
            Some(p) => Some(p),
            None => None,
        }
    }

    pub fn domestic_carrier(&self) -> (r: Option<&Vec<u8>>)
        ensures
            r matches Some(p) ==> self.domestic_carrier == Some(*p),
            r is None <==> self.domestic_carrier is None,
    {
        match &self.domestic_carrier {
            Some(p) => Some(p),
            None => None,
        }
    }
}

/// The rules of one country.
#[derive(Clone, Debug)]
pub struct Metadata {
    /// Region identifier, such as `NZ`.
    pub id: Vec<u8>,
    /// The country calling code.
    pub country_code: u16,
    /// Regular expression for the international dialling prefix used when
    /// calling out of this country.
    pub international_prefix: Option<String>,
    /// The digits dialled before a national number inside the country.
    pub national_prefix: Option<Vec<u8>>,
    /// Regular expression for what may precede a national number when it is
    /// dialled inside the country; its first group, when present, captures a
    /// carrier selection code.
    pub national_prefix_for_parsing: Option<String>,
    /// Template, over the groups of `national_prefix_for_parsing`, that gives
    /// the national number; without one, the matched prefix is dropped.
    pub national_prefix_transform_rule: Option<Vec<u8>>,
    /// What goes before an extension when one is displayed.
    pub preferred_extension_prefix: Option<Vec<u8>>,
    /// Rules for national formatting, in order of precedence.
    pub formats: Vec<Format>,
    /// Rules for international formatting; when empty, `formats` apply.
    pub international_formats: Vec<Format>,
    /// The lengths a national significant number of this country may have.
    pub possible_lengths: Vec<u8>,
}

/// A table of country rules.
#[derive(Clone, Debug)]
pub struct Database {
    pub regions: Vec<Metadata>,
}

/// Whether two byte strings are equal.
pub fn bytes_eq(a: &[u8], b: &[u8]) -> (r: bool)
    ensures
        r == (a@ == b@),
{
    if a.len() != b.len() {
        return false;
    }
    let mut i: usize = 0;
    while i < a.len()
        invariant
            a@.len() == b@.len(),
            i <= a@.len(),
            a@.subrange(0, i as int) == b@.subrange(0, i as int),
        decreases a@.len() - i,
    {
        if a[i] != b[i] {
            assert(a@[i as int] != b@[i as int]);
            return false;
        }
        assert(a@.subrange(0, i + 1) == a@.subrange(0, i as int).push(a@[i as int]));
        assert(b@.subrange(0, i + 1) == b@.subrange(0, i as int).push(b@[i as int]));
        i = i + 1;
    }
    assert(a@ == a@.subrange(0, i as int));
    assert(b@ == b@.subrange(0, i as int));
    true
}

impl Database {
    /// The rules of the first region with the given identifier.
    pub open spec fn region_with_id(&self, id: Seq<u8>) -> Option<Metadata> {
        match first_with_id(self.regions@, id, 0) {
            Some(i) => Some(self.regions@[i]),
            None => None,
        }
    }

    /// The first region with the given identifier.
    pub fn by_id(&self, id: &[u8]) -> (r: Option<&Metadata>)
        ensures
            r matches Some(m) ==> self.region_with_id(id@) == Some(*m),
            r is None <==> self.region_with_id(id@) is None,
    {
        let mut i: usize = 0;
        while i < self.regions.len()
            invariant
                i <= self.regions@.len(),
                first_with_id(self.regions@, id@, 0) == first_with_id(self.regions@, id@, i as int),
            decreases self.regions@.len() - i,
        {
            if bytes_eq(self.regions[i].id.as_slice(), id) {
                return Some(&self.regions[i]);
            }
            i = i + 1;
        }
        None
    }

    /// The rules of the first region with the given calling code.
    pub open spec fn region_for(&self, code: u16) -> Option<Metadata> {
        match first_with_code(self.regions@, code, 0) {
            Some(i) => Some(self.regions@[i]),
            None => None,
        }
    }

    /// The first region with the given calling code.
    pub fn by_code(&self, code: u16) -> (r: Option<&Metadata>)
        ensures
            r matches Some(m) ==> self.region_for(code) == Some(*m),
            r is None <==> self.region_for(code) is None,
    {
        let mut i: usize = 0;
        while i < self.regions.len()
            invariant
                i <= self.regions@.len(),
                first_with_code(self.regions@, code, 0) == first_with_code(self.regions@, code, i as int),
            decreases self.regions@.len() - i,
        {
            if self.regions[i].country_code == code {
                return Some(&self.regions[i]);
            }
            i = i + 1;
        }
        None
    }

}

/// The index of the first region at or after `i` with the given identifier.
pub open spec fn first_with_id(regions: Seq<Metadata>, id: Seq<u8>, i: int) -> Option<int>
    decreases regions.len() - i,
{
    if i < 0 || i >= regions.len() {
        None
    } else if regions[i].id@ == id {
        Some(i)
    } else {
        first_with_id(regions, id, i + 1)
    }
}

/// The index of the first region at or after `i` with the given calling code.
pub open spec fn first_with_code(regions: Seq<Metadata>, code: u16, i: int) -> Option<int>
    decreases regions.len() - i,
{
    if i < 0 || i >= regions.len() {
        None
    } else if regions[i].country_code == code {
        Some(i)
    } else {
        first_with_code(regions, code, i + 1)
    }
}

} // verus!
