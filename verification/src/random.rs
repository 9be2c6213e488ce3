//! Fresh random bytes for salts and nonces.

use rand::Rng;
use vstd::prelude::*;

verus! {

/// `rand::Rng::random` on the thread-local generator `rand::rng()`: `N`
/// random bytes. Nothing is promised of their values.
#[verifier::external_body]
pub(crate) fn random_bytes<const N: usize>() -> [u8; N] {
    rand::rng().random()
}

} // verus!
