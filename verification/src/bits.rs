//! Bit counting on hash words: leading zeros and ranks.

use vstd::prelude::*;
use vstd::arithmetic::power2::{lemma_pow2_pos, lemma_pow2_strictly_increases, lemma_pow2_unfold, pow2};
use vstd::std_specs::bits::u64_leading_zeros;

verus! {

/// The number of binary digits of `n`: zero for zero, and otherwise the
/// position of the highest set bit, counted from one.
pub open spec fn bit_length(n: nat) -> nat
    decreases n,
{
    if n == 0 {
        0
    } else {
        1 + bit_length(n / 2)
    }
}

/// The rank of the word `s` of `width` bits: one more than its number of
/// leading zero bits, and `width` itself for the zero word.
pub open spec fn rank_of(s: nat, width: nat) -> int {
    if s == 0 {
        width as int
    } else {
        width - bit_length(s) + 1
    }
}

/// A positive `n` lies between the two powers of two that its bit length names.
pub proof fn lemma_bit_length_bounds(n: nat)
    ensures
        n < pow2(bit_length(n)),
        n > 0 ==> pow2((bit_length(n) - 1) as nat) <= n,
    decreases n,
{
    if n == 0 {
        lemma_pow2_pos(0);
    } else {
        lemma_bit_length_bounds(n / 2);
        lemma_pow2_unfold(bit_length(n));
        if n / 2 > 0 {
            lemma_pow2_unfold((bit_length(n) - 1) as nat);
        } else {
            lemma_pow2_pos(0);
            assert(pow2(0) == 1) by {
                vstd::arithmetic::power2::lemma2_to64();
            }
        }
    }
}

/// A number fits in `width` bits exactly when it is below `2^width`.
pub proof fn lemma_bit_length_fits(n: nat, width: nat)
    ensures
        bit_length(n) <= width <==> n < pow2(width),
{
    lemma_bit_length_bounds(n);
    if bit_length(n) <= width {
        if bit_length(n) < width {
            lemma_pow2_strictly_increases(bit_length(n), width);
        }
    } else {
        if width < bit_length(n) - 1 {
            lemma_pow2_strictly_increases(width, (bit_length(n) - 1) as nat);
        }
    }
}

/// The hardware count of leading zeros of a 64-bit word is 64 less its bit length.
pub proof fn lemma_leading_zeros_is_bit_length(s: u64)
    ensures
        u64_leading_zeros(s) == 64 - bit_length(s as nat),
    decreases s,
{
    reveal(u64_leading_zeros);
    if s != 0 {
        lemma_leading_zeros_is_bit_length(s / 2);
    }
}

/// Computes `2^exponent` for an exponent of at most 16.
pub fn power_of_two(exponent: u8) -> (power: usize)
    requires
        exponent <= 16,
    ensures
        power == pow2(exponent as nat),
        0 < power <= 65536,
{
    proof {
        vstd::arithmetic::power2::lemma2_to64();
        lemma_pow2_pos(exponent as nat);
        if exponent < 16 {
            lemma_pow2_strictly_increases(exponent as nat, 16);
        }
        vstd::bits::lemma_usize_shl_is_mul(1usize, exponent as usize);
    }
    1usize << (exponent as usize)
}

/// Counts the leading zero bits of `s` read as a word of `max_width` bits.
pub fn count_leading_zeros(s: u64, max_width: u8) -> (lz: u8)
    requires
        bit_length(s as nat) <= max_width,
    ensures
        lz == max_width - bit_length(s as nat),
{
    proof {
        lemma_leading_zeros_is_bit_length(s);
    }
    let used: u32 = 64 - s.leading_zeros();
    max_width - (used as u8)
}

/// The rank of `s` among words of `max_width` bits: the position of its
/// leftmost one bit counted from one, and `max_width` for the zero word.
pub fn position_of_leftmost_one_bit(s: u64, max_width: u8) -> (rank: u8)
    requires
        bit_length(s as nat) <= max_width,
    ensures
        rank == rank_of(s as nat, max_width as nat),
{
    if s == 0 {
        max_width
    } else {
        count_leading_zeros(s, max_width) + 1
    }
}

} // verus!
