//! Random numbers.
use vstd::prelude::*;

verus! {

/// A random number, drawn with `rand::random`.
///
/// Every value can come back, so nothing is claimed of the result.
#[verifier::external_body]
pub(crate) fn random_u32() -> (r: u32) {
    rand::random::<u32>()
}

} // verus!
