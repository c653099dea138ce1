//! Counting over a register array.

use vstd::prelude::*;
use crate::model::occurrences;

verus! {

/// Counting in a sequence that grew by one register counts that register too.
pub proof fn lemma_occurrences_push(registers: Seq<u8>, last: u8, value: u8)
    ensures
        occurrences(registers.push(last), value) == occurrences(registers, value) + if last
            == value {
            1nat
        } else {
            0nat
        },
{
    assert(registers.push(last).drop_last() =~= registers);
}

/// No value occurs more often than there are registers.
pub proof fn lemma_occurrences_bound(registers: Seq<u8>, value: u8)
    ensures
        occurrences(registers, value) <= registers.len(),
    decreases registers.len(),
{
    if registers.len() > 0 {
        lemma_occurrences_bound(registers.drop_last(), value);
    }
}

/// Counts the registers that are zero.
pub fn count_zero_registers(registers: &[u8]) -> (zeros: usize)
    ensures
        zeros == occurrences(registers@, 0),
{
    let mut zeros: usize = 0;
    let mut i: usize = 0;
    while i < registers.len()
        invariant
            i <= registers.len(),
            zeros == occurrences(registers@.take(i as int), 0),
            zeros <= i,
        decreases registers.len() - i,
    {
        proof {
            lemma_occurrences_push(registers@.take(i as int), registers@[i as int], 0);
            assert(registers@.take(i as int).push(registers@[i as int]) =~= registers@.take(
                i + 1,
            ));
        }
        if registers[i] == 0 {
            zeros += 1;
        }
        i += 1;
    }
    assert(registers@.take(i as int) =~= registers@);
    zeros
}

} // verus!
