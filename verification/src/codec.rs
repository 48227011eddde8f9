//! Label codec: a fixed, read-only mapping between small integer class codes
//! and human-readable species names. Lookup is total over the known codes and
//! returns nothing for an unknown code, never an error.

use vstd::prelude::*;

verus! {

/// The fixed label map: which species name, if any, a class code denotes.
pub open spec fn spec_decode(code: int) -> Option<Seq<char>> {
    if code == 0 {
        Some("Iris-setosa"@)
    } else if code == 1 {
        Some("Iris-versicolor"@)
    } else if code == 2 {
        Some("Iris-virginica"@)
    } else {
        None
    }
}

/// The view of an optional owned string, for relating exec results to
/// `spec_decode`.
pub open spec fn name_view(r: Option<String>) -> Option<Seq<char>> {
    match r {
        Some(s) => Some(s@),
        None => None,
    }
}

/// Translate a numeric class code to its species name: `Some` exactly on the
/// known codes `0`, `1`, `2`, and `None` for every other code.
pub fn decode(code: u64) -> (r: Option<String>)
    ensures
        name_view(r) == spec_decode(code as int),
{
    if code == 0 {
        Some(String::from_str("Iris-setosa"))
    } else if code == 1 {
        Some(String::from_str("Iris-versicolor"))
    } else if code == 2 {
        Some(String::from_str("Iris-virginica"))
    } else {
        None
    }
}

} // verus!
