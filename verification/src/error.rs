//! The errors of the library.

use vstd::prelude::*;

verus! {

/// Why an operation on a sketch was refused.
#[derive(Debug, PartialEq, Eq)]
pub enum HllError {
    /// A sketch was asked for with a precision outside 4 to 16.
    InvalidPrecision { precision: u8 },
    /// The operating system's random source could not be opened; `reason`
    /// is what it reported.
    RandomSourceUnavailable { reason: String },
    /// Two sketches that differ in precision or in hash seed were to be merged.
    IncompatibleSketch {
        precision: u8,
        other_precision: u8,
        seed: (u64, u64),
        other_seed: (u64, u64),
    },
}

} // verus!
