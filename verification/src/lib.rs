//! HyperLogLog cardinality sketches with machine-checked contracts.
//!
//! A sketch keeps `2^precision` one-byte registers.  Every inserted item is
//! hashed to 64 bits; the low `precision` bits pick a register and the rest
//! of the hash yields a rank, of which each register keeps the maximum.
//! Two sketches of one precision and one hash seed merge into the sketch of
//! both their streams.
//!
//! The library holds everything that is exact: the registers, the routing
//! of hashes, ranks, merging, the bias constant as a fraction, the choice
//! between the two estimators and the histogram of register values.  The
//! estimate itself is floating-point arithmetic over these and is left to
//! the caller.

pub mod bias;
pub mod bits;
mod entropy;
pub mod error;
pub mod estimator;
mod hashing;
pub mod histogram;
pub mod model;
pub mod registers;
pub mod sketch;

pub use crate::bias::{get_alpha, BiasConstant};
pub use crate::bits::{count_leading_zeros, position_of_leftmost_one_bit};
pub use crate::error::HllError;
pub use crate::estimator::Estimator;
pub use crate::registers::count_zero_registers;
pub use crate::sketch::HyperLogLog;
