use vstd::prelude::*;

verus! {

/// Relies on `rand::random_range` over the half-open range `0..high`: it
/// returns a value of that range and panics only when the range is empty.
#[verifier::external_body]
pub(crate) fn random_below(high: i32) -> (r: i32)
    requires
        0 < high,
    ensures
        0 <= r < high,
{
    rand::random_range(0..high)
}

} // verus!
