//! The keyed 64-bit hash that routes items to registers.

use vstd::prelude::*;
use std::hash::{Hash, Hasher};

verus! {

/// `std::hash::SipHasher`, the state of a hash that is under way.
#[verifier::external_type_specification]
#[verifier::external_body]
#[allow(deprecated)]
pub struct ExSipHasher(std::hash::SipHasher);

/// Starts a hash under the two key words by `SipHasher::new_with_keys`.
///
/// Nothing is claimed of the hasher: it is carried to the two calls below.
#[verifier::external_body]
#[allow(deprecated)]
pub(crate) fn keyed_hasher(key0: u64, key1: u64) -> (hasher: std::hash::SipHasher) {
    std::hash::SipHasher::new_with_keys(key0, key1)
}

/// Feeds a value to the hasher by the value's own `Hash::hash`.
///
/// Nothing is claimed of the hasher afterwards: what is fed is for the
/// value's type to say.
#[verifier::external_body]
#[allow(deprecated)]
pub(crate) fn feed<H: Hash>(hasher: &mut std::hash::SipHasher, value: &H) {
    value.hash(hasher)
}

/// Reads the hash of what was fed by `Hasher::finish`.
///
/// Nothing is claimed of the word.
#[verifier::external_body]
#[allow(deprecated)]
pub(crate) fn digest(hasher: &std::hash::SipHasher) -> (hash: u64) {
    hasher.finish()
}

} // verus!
