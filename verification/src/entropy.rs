//! The operating system's random source, from which hash seeds are drawn.

use vstd::prelude::*;
use rand::Rng;

verus! {

/// `rand::OsRng`, the handle on the random source; nothing inside it is read here.
#[verifier::external_type_specification]
#[verifier::external_body]
pub struct ExOsRng(rand::OsRng);

/// `std::io::Error`, what a source that cannot be opened reports.
#[verifier::external_type_specification]
#[verifier::external_body]
pub struct ExIoError(std::io::Error);

/// Opens the random source by `rand::OsRng::new`.
///
/// Nothing is claimed of the outcome: whether the source can be opened is
/// for the operating system to say.
#[verifier::external_body]
pub(crate) fn open_random_source() -> (source: Result<rand::OsRng, std::io::Error>) {
    rand::OsRng::new()
}

/// Draws one 64-bit word from the source by `rand::Rng::gen`.
///
/// Nothing is claimed of the word: it is random.  A source that fails
/// while it is read makes `rand` panic.
#[verifier::external_body]
pub(crate) fn random_word(source: &mut rand::OsRng) -> (word: u64) {
    source.gen()
}

} // verus!
