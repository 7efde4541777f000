use vstd::prelude::*;

verus! {

/// Where the regular expression `pattern` first matches in `haystack`, as
/// the start and end byte offsets of the leftmost-first match, or `None` when
/// it does not match or does not compile.
pub uninterp spec fn regex_find(pattern: Seq<char>, haystack: Seq<u8>) -> Option<(int, int)>;

/// The text `haystack` with the leftmost-first match of `pattern` replaced by
/// `template`, whose `$n` references are expanded to the captured groups.
pub uninterp spec fn regex_replace(pattern: Seq<char>, haystack: Seq<u8>, template: Seq<u8>) -> Seq<u8>;

/// Where capture group `group` of the leftmost-first match of `pattern` in
/// `haystack` stands, as byte offsets, or `None` when there is no match, the
/// group took no part in it, or the pattern does not compile.
pub uninterp spec fn regex_group(pattern: Seq<char>, haystack: Seq<u8>, group: int) -> Option<(int, int)>;

/// The text `haystack` with every non-overlapping match of `pattern`
/// replaced by `template`.
pub uninterp spec fn regex_replace_all(pattern: Seq<char>, haystack: Seq<u8>, template: Seq<u8>) -> Seq<u8>;

/// Relies on `regex::bytes::Regex::new`, `regex::bytes::Regex::captures` and
/// `regex::bytes::Captures::get`: a group that matched lies inside the
/// haystack.
#[verifier::external_body]
pub(crate) fn find_group(pattern: &str, haystack: &[u8], group: usize) -> (r: Option<(usize, usize)>)
    ensures
        r matches Some((s, e)) ==> regex_group(pattern@, haystack@, group as int) == Some(
            (s as int, e as int),
        ) && s <= e <= haystack@.len(),
        r is None ==> regex_group(pattern@, haystack@, group as int) is None,
{
    match regex::bytes::Regex::new(pattern) {
        Ok(re) => re.captures(haystack).and_then(|c| c.get(group)).map(|m| (m.start(), m.end())),
        Err(_) => None,
    }
}

/// Relies on `regex::bytes::Regex::new` and `regex::bytes::Regex::replace_all`:
/// every match is replaced, and a haystack without a match comes back
/// unchanged.
#[verifier::external_body]
pub(crate) fn replace_every(pattern: &str, haystack: &[u8], template: &[u8]) -> (r: Vec<u8>)
    ensures
        r@ == regex_replace_all(pattern@, haystack@, template@),
        regex_find(pattern@, haystack@) is None ==> r@ == haystack@,
{
    match regex::bytes::Regex::new(pattern) {
        Ok(re) => re.replace_all(haystack, template).into_owned(),
        Err(_) => haystack.to_vec(),
    }
}

/// Relies on `regex::bytes::Regex::new` and `regex::bytes::Regex::find`: the
/// leftmost-first match, given by byte offsets inside the haystack.
#[verifier::external_body]
pub(crate) fn find_match(pattern: &str, haystack: &[u8]) -> (r: Option<(usize, usize)>)
    ensures
        r matches Some((s, e)) ==> regex_find(pattern@, haystack@) == Some((s as int, e as int))
            && s <= e <= haystack@.len(),
        r is None ==> regex_find(pattern@, haystack@) is None,
{
    match regex::bytes::Regex::new(pattern) {
        Ok(re) => re.find(haystack).map(|m| (m.start(), m.end())),
        Err(_) => None,
    }
}

/// Relies on `regex::bytes::Regex::new` and `regex::bytes::Regex::replace`:
/// the first match is replaced by the expanded template, and a haystack
/// without a match comes back unchanged.
#[verifier::external_body]
pub(crate) fn replace_first(pattern: &str, haystack: &[u8], template: &[u8]) -> (r: Vec<u8>)
    ensures
        r@ == regex_replace(pattern@, haystack@, template@),
        regex_find(pattern@, haystack@) is None ==> r@ == haystack@,
{
    match regex::bytes::Regex::new(pattern) {
        Ok(re) => re.replace(haystack, template).into_owned(),
        Err(_) => haystack.to_vec(),
    }
}

} // verus!
