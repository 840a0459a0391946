//! Byte search.
use vstd::prelude::*;

verus! {

/// Whether `index` is the first place in `haystack` that holds `needle1` or `needle2`.
pub open spec fn is_first_of_either(
    haystack: Seq<u8>,
    needle1: u8,
    needle2: u8,
    index: int,
) -> bool {
    &&& 0 <= index < haystack.len()
    &&& (haystack[index] == needle1 || haystack[index] == needle2)
    &&& forall|j: int| 0 <= j < index ==> haystack[j] != needle1 && haystack[j] != needle2
}

/// Whether neither `needle1` nor `needle2` occurs in `haystack`.
pub open spec fn has_neither(haystack: Seq<u8>, needle1: u8, needle2: u8) -> bool {
    forall|j: int| 0 <= j < haystack.len() ==> haystack[j] != needle1 && haystack[j] != needle2
}

/// `memchr::memchr2`: the index of the first occurrence of one of the two
/// needle bytes in the haystack, or `None` if neither occurs. Trusted: the
/// search itself is the outside crate's.
#[verifier::external_body]
pub(crate) fn memchr2(needle1: u8, needle2: u8, haystack: &[u8]) -> (found: Option<usize>)
    ensures
        match found {
            Some(index) => is_first_of_either(haystack@, needle1, needle2, index as int),
            None => has_neither(haystack@, needle1, needle2),
        },
{
    memchr::memchr2(needle1, needle2, haystack)
}

} // verus!
