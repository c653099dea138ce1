//! The bias constant of the raw estimator, as an exact fraction.
//!
//! The constant is 673/1000, 697/1000 and 709/1000 for the precisions 4, 5
//! and 6.  For a larger precision, with `m = 2^precision` registers, it is
//! 7213/10000 divided by `1 + (1079/1000)/m`, which is the fraction
//! `7213 m / (10000 m + 10790)`.

use vstd::prelude::*;
use vstd::arithmetic::power2::pow2;
use crate::bits::power_of_two;
use crate::error::HllError;

verus! {

/// A bias constant: the fraction `numerator / denominator`.
#[derive(Debug, Clone, Copy, PartialEq, Eq, Structural)]
pub struct BiasConstant {
    pub numerator: u64,
    pub denominator: u64,
}

/// The numerator of the bias constant of a precision.
pub open spec fn bias_numerator(precision: nat) -> nat {
    if precision == 4 {
        673
    } else if precision == 5 {
        697
    } else if precision == 6 {
        709
    } else {
        7213 * pow2(precision)
    }
}

/// The denominator of the bias constant of a precision.
pub open spec fn bias_denominator(precision: nat) -> nat {
    if 4 <= precision <= 6 {
        1000
    } else {
        10000 * pow2(precision) + 10790
    }
}

/// The bias constant of a precision.
pub open spec fn bias_constant(precision: nat) -> BiasConstant {
    BiasConstant {
        numerator: bias_numerator(precision) as u64,
        denominator: bias_denominator(precision) as u64,
    }
}

/// The bias constant of a valid precision is a fraction between a half and
/// one, of machine-sized parts.
pub proof fn lemma_bias_constant_range(precision: nat)
    requires
        4 <= precision <= 16,
    ensures
        0 < bias_numerator(precision) < bias_denominator(precision) <= u64::MAX,
        bias_denominator(precision) < 2 * bias_numerator(precision),
{
    vstd::arithmetic::power2::lemma2_to64();
    if precision > 6 {
        vstd::arithmetic::power2::lemma_pow2_strictly_increases(6, precision);
        if precision < 16 {
            vstd::arithmetic::power2::lemma_pow2_strictly_increases(precision, 16);
        }
    }
}

/// Above precision 6 the bias constant is 7213/10000 divided by
/// `1 + (1079/1000)/m`, that is `(7213 * 1000 m) / (10000 * (1000 m + 1079))`
/// for `m = 2^precision`: the two fractions are equal, as their cross
/// products are.
pub proof fn lemma_bias_constant_formula(precision: nat)
    requires
        6 < precision <= 16,
    ensures
        bias_numerator(precision) * (10000 * (1000 * pow2(precision) + 1079)) == bias_denominator(
            precision,
        ) * (7213 * 1000 * pow2(precision)),
{
    let m = pow2(precision) as int;
    assert((7213 * m) * (10000 * (1000 * m + 1079)) == (10000 * m + 10790) * (7213 * 1000 * m))
        by (nonlinear_arith);
}

/// Computes the bias constant of the precision `b`, and refuses a precision
/// outside 4 to 16.
pub fn get_alpha(b: u8) -> (r: Result<BiasConstant, HllError>)
    ensures
        4 <= b <= 16 ==> r == Ok::<BiasConstant, HllError>(bias_constant(b as nat)),
        !(4 <= b <= 16) ==> r == Err::<BiasConstant, HllError>(
            HllError::InvalidPrecision { precision: b },
        ),
{
    if b < 4 || b > 16 {
        return Err(HllError::InvalidPrecision { precision: b });
    }
    proof {
        lemma_bias_constant_range(b as nat);
    }
    Ok(
        match b {
            4 => BiasConstant { numerator: 673, denominator: 1000 },
            5 => BiasConstant { numerator: 697, denominator: 1000 },
            6 => BiasConstant { numerator: 709, denominator: 1000 },
            _ => {
                let m: u64 = power_of_two(b) as u64;
                BiasConstant { numerator: 7213 * m, denominator: 10000 * m + 10790 }
            },
        },
    )
}

} // verus!
