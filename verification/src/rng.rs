use vstd::prelude::*;

verus! {

/// Relies on `rand::random_range`: a uniform draw from a non-empty integer
/// range lies within that range.  The draw depends on a thread-local
/// generator, so nothing beyond membership in the range is assumed.
#[verifier::external_body]
pub(crate) fn random_in_range(lo: i32, hi: i32) -> (r: i32)
    requires
        lo < hi,
    ensures
        lo <= r < hi,
{
    rand::random_range(lo..hi)
}

} // verus!
