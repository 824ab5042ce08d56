//! The two things the engine leaves to chance: fresh identifiers and the
//! choice of a word.

use rand::Rng;
use uuid::Uuid;
use vstd::prelude::*;

verus! {

/// A fresh random identifier.
///
/// Trusted: calls `Uuid::new_v4` and takes the value as a number with
/// `Uuid::as_u128`. Nothing is promised of the value: two calls may even
/// return the same one, so callers test what they get.
#[verifier::external_body]
pub(crate) fn fresh_id() -> u128 {
    Uuid::new_v4().as_u128()
}

/// A random place in a list of `len` entries.
///
/// Trusted: calls `Rng::gen_range` on the thread's generator with the range
/// from 0 up to and without `len`. The function panics on an empty range,
/// which `requires` leaves out, and returns a value of the range.
#[verifier::external_body]
pub(crate) fn random_index(len: usize) -> (r: usize)
    requires
        len > 0,
    ensures
        r < len,
{
    rand::thread_rng().gen_range(0..len)
}

} // verus!
