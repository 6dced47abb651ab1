//! The one randomness seam of the library.

use vstd::prelude::*;

verus! {

/// Relies on rand::random_range over a half-open `u16` range: it samples the
/// thread-local generator and returns a value inside the range, and it panics
/// only when the range is empty, which the precondition rules out. Nothing
/// more is assumed of which value comes back.
#[verifier::external_body]
pub(crate) fn rand_range(low: u16, high: u16) -> (r: u16)
    requires
        low < high,
    ensures
        low <= r < high,
{
    rand::random_range(low..high)
}

} // verus!
