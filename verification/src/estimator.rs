//! The two estimators of a sketch, and the rule that picks one.

use vstd::prelude::*;

verus! {

/// The estimator that a cardinality estimate was made with.
#[derive(Debug, Clone, Copy, PartialEq, Eq, Structural)]
pub enum Estimator {
    /// The harmonic-mean estimate over all registers.
    HyperLogLog,
    /// The estimate from the share of registers that are still zero, used in
    /// the small range.
    LinearCounting,
}

impl Estimator {
    /// The estimator that answers: linear counting where the raw estimate is
    /// below the small-range threshold and some register is still zero, the
    /// raw estimate everywhere else.
    pub open spec fn selected(below_threshold: bool, zero_registers: nat) -> Estimator {
        if below_threshold && zero_registers != 0 {
            Estimator::LinearCounting
        } else {
            Estimator::HyperLogLog
        }
    }

    /// Picks the estimator from the two facts that decide it: whether the
    /// raw estimate is below five halves of the register count, and how many
    /// registers are zero.
    pub fn select(below_threshold: bool, zero_registers: usize) -> (estimator: Estimator)
        ensures
            estimator == Estimator::selected(below_threshold, zero_registers as nat),
    {
        if below_threshold {
            match zero_registers {
                0 => Estimator::HyperLogLog,
                _ => Estimator::LinearCounting,
            }
        } else {
            Estimator::HyperLogLog
        }
    }
}

} // verus!
