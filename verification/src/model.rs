//! The mathematical model of a sketch, and the laws that it obeys.
//!
//! A sketch is modelled by its precision, its hash seed and the sequence of
//! its registers.  Inserting an item is modelled on the item's 64-bit hash:
//! the low `precision` bits of the hash name a register, the remaining bits
//! give a rank, and the register keeps the larger of its value and that rank.

use vstd::prelude::*;
use vstd::arithmetic::div_mod::{lemma_mod_bound, lemma_multiply_divide_lt};
use vstd::arithmetic::power2::{lemma2_to64, lemma_pow2_adds, lemma_pow2_pos, pow2};
use crate::bits::{bit_length, lemma_bit_length_fits, rank_of};
use crate::estimator::Estimator;

verus! {

/// The larger of two register values.
pub open spec fn max_rank(a: u8, b: u8) -> u8 {
    if a < b {
        b
    } else {
        a
    }
}

/// The register that a hash is routed to: its low `precision` bits.
pub open spec fn register_index(precision: nat, hash: u64) -> int {
    (hash as nat % pow2(precision)) as int
}

/// The bits of a hash that are left once the register index is taken off.
pub open spec fn hash_remainder(precision: nat, hash: u64) -> nat {
    hash as nat / pow2(precision)
}

/// The rank of a hash: the rank of its remainder among words of
/// `64 - precision` bits.
pub open spec fn hash_rank(precision: nat, hash: u64) -> u8 {
    rank_of(hash_remainder(precision, hash), (64 - precision) as nat) as u8
}

/// How many registers hold the value `value`.
pub open spec fn occurrences(registers: Seq<u8>, value: u8) -> nat
    decreases registers.len(),
{
    if registers.len() == 0 {
        0
    } else {
        occurrences(registers.drop_last(), value) + if registers.last() == value {
            1nat
        } else {
            0nat
        }
    }
}

/// Whether `rank` is the highest rank among those of `hashes` that are routed
/// to register `index`, or zero where none is routed there.
pub open spec fn is_highest_rank(precision: nat, hashes: Seq<u64>, index: int, rank: u8) -> bool {
    &&& forall|j: int|
        0 <= j < hashes.len() && register_index(precision, hashes[j]) == index
            ==> hash_rank(precision, #[trigger] hashes[j]) <= rank
    &&& rank == 0 || exists|j: int|
        0 <= j < hashes.len() && register_index(precision, #[trigger] hashes[j]) == index
            && hash_rank(precision, hashes[j]) == rank
}

/// What a sketch is: a precision, a hash seed and `2^precision` registers.
pub struct SketchModel {
    pub precision: nat,
    pub seed: (u64, u64),
    pub registers: Seq<u8>,
}

impl SketchModel {
    /// The validity of a sketch: a precision from 4 to 16, `2^precision`
    /// registers, and no register above the widest rank, `64 - precision`.
    pub open spec fn wf(self) -> bool {
        &&& 4 <= self.precision <= 16
        &&& self.registers.len() == pow2(self.precision)
        &&& forall|i: int|
            0 <= i < self.registers.len() ==> #[trigger] self.registers[i] <= 64 - self.precision
    }

    /// The sketch that has seen nothing: every register is zero.
    pub open spec fn empty(precision: nat, seed: (u64, u64)) -> SketchModel {
        SketchModel { precision, seed, registers: Seq::new(pow2(precision), |i: int| 0u8) }
    }

    /// The sketch after an item with the hash `hash` has been inserted.
    pub open spec fn inserted(self, hash: u64) -> SketchModel {
        let index = register_index(self.precision, hash);
        SketchModel {
            precision: self.precision,
            seed: self.seed,
            registers: self.registers.update(
                index,
                max_rank(self.registers[index], hash_rank(self.precision, hash)),
            ),
        }
    }

    /// The sketch after items with the hashes `hashes` have been inserted, in order.
    pub open spec fn inserted_all(self, hashes: Seq<u64>) -> SketchModel
        decreases hashes.len(),
    {
        if hashes.len() == 0 {
            self
        } else {
            self.inserted_all(hashes.drop_last()).inserted(hashes.last())
        }
    }

    /// Two sketches can be merged when they agree on precision and seed.
    pub open spec fn compatible(self, other: SketchModel) -> bool {
        self.precision == other.precision && self.seed == other.seed
    }

    /// The union of two sketches: register by register, the larger value.
    pub open spec fn merged(self, other: SketchModel) -> SketchModel {
        SketchModel {
            precision: self.precision,
            seed: self.seed,
            registers: Seq::new(
                self.registers.len(),
                |i: int| max_rank(self.registers[i], other.registers[i]),
            ),
        }
    }

    /// The number of registers that are still zero.
    pub open spec fn zero_registers(self) -> nat {
        occurrences(self.registers, 0)
    }
}

/// A hash splits into a register index below `2^precision` and a remainder
/// of at most `64 - precision` bits, whose rank lies from 1 to `64 - precision`.
pub proof fn lemma_hash_parts(precision: nat, hash: u64)
    requires
        precision < 64,
    ensures
        0 <= register_index(precision, hash) < pow2(precision),
        bit_length(hash_remainder(precision, hash)) <= 64 - precision,
        1 <= rank_of(hash_remainder(precision, hash), (64 - precision) as nat) <= 64 - precision,
        1 <= hash_rank(precision, hash) <= 64 - precision,
{
    let width = (64 - precision) as nat;
    lemma_pow2_pos(precision);
    lemma_mod_bound(hash as int, pow2(precision) as int);
    lemma_pow2_adds(precision, width);
    lemma2_to64();
    lemma_multiply_divide_lt(hash as int, pow2(precision) as int, pow2(width) as int);
    lemma_bit_length_fits(hash_remainder(precision, hash), width);
}

/// A valid precision gives from 16 to 65536 registers.
pub proof fn lemma_register_count_range(precision: nat)
    requires
        4 <= precision <= 16,
    ensures
        16 <= pow2(precision) <= 65536,
{
    lemma2_to64();
    if 4 < precision {
        vstd::arithmetic::power2::lemma_pow2_strictly_increases(4, precision);
    }
    if precision < 16 {
        vstd::arithmetic::power2::lemma_pow2_strictly_increases(precision, 16);
    }
}

/// Inserting keeps a sketch valid.
pub proof fn lemma_inserted_wf(sketch: SketchModel, hash: u64)
    requires
        sketch.wf(),
    ensures
        sketch.inserted(hash).wf(),
{
    lemma_hash_parts(sketch.precision, hash);
}

/// Inserting any number of items keeps a sketch valid, and changes neither
/// its precision nor its seed.
pub proof fn lemma_inserted_all_wf(sketch: SketchModel, hashes: Seq<u64>)
    requires
        sketch.wf(),
    ensures
        sketch.inserted_all(hashes).wf(),
        sketch.inserted_all(hashes).precision == sketch.precision,
        sketch.inserted_all(hashes).seed == sketch.seed,
    decreases hashes.len(),
{
    if hashes.len() > 0 {
        lemma_inserted_all_wf(sketch, hashes.drop_last());
        lemma_inserted_wf(sketch.inserted_all(hashes.drop_last()), hashes.last());
    }
}

/// Merging two valid sketches of one precision gives a valid sketch.
pub proof fn lemma_merged_wf(sketch: SketchModel, other: SketchModel)
    requires
        sketch.wf(),
        other.wf(),
        sketch.precision == other.precision,
    ensures
        sketch.merged(other).wf(),
{
}

/// No insertion lowers a register: each one keeps its value or rises to the
/// rank of the inserted hash.
pub proof fn lemma_insert_never_lowers(sketch: SketchModel, hash: u64)
    requires
        sketch.wf(),
    ensures
        sketch.inserted(hash).registers.len() == sketch.registers.len(),
        forall|i: int|
            0 <= i < sketch.registers.len() ==> sketch.registers[i]
                <= #[trigger] sketch.inserted(hash).registers[i],
{
    lemma_hash_parts(sketch.precision, hash);
}

/// Inserting one sequence of items and then another is inserting the two
/// sequences joined.
pub proof fn lemma_inserted_all_concat(sketch: SketchModel, first: Seq<u64>, second: Seq<u64>)
    ensures
        sketch.inserted_all(first + second) == sketch.inserted_all(first).inserted_all(second),
    decreases second.len(),
{
    if second.len() > 0 {
        lemma_inserted_all_concat(sketch, first, second.drop_last());
        assert((first + second).drop_last() =~= first + second.drop_last());
    }
}

/// Over any sequence of insertions every register is non-decreasing: what a
/// register holds after more items is at least what it held before them.
pub proof fn lemma_registers_never_decrease(sketch: SketchModel, hashes: Seq<u64>, more: Seq<u64>)
    requires
        sketch.wf(),
    ensures
        sketch.inserted_all(hashes + more).registers.len() == sketch.registers.len(),
        forall|i: int|
            0 <= i < sketch.registers.len() ==> sketch.inserted_all(hashes).registers[i]
                <= #[trigger] sketch.inserted_all(hashes + more).registers[i],
    decreases more.len(),
{
    lemma_inserted_all_wf(sketch, hashes);
    if more.len() > 0 {
        let earlier = hashes + more.drop_last();
        lemma_registers_never_decrease(sketch, hashes, more.drop_last());
        assert((hashes + more).drop_last() =~= earlier);
        lemma_inserted_all_wf(sketch, earlier);
        lemma_insert_never_lowers(sketch.inserted_all(earlier), more.last());
    }
}

/// After any sequence of insertions into an empty sketch, each register
/// holds the highest rank among the inserted hashes that are routed to it,
/// and zero where none is.
pub proof fn lemma_register_holds_highest_rank(
    precision: nat,
    seed: (u64, u64),
    hashes: Seq<u64>,
    index: int,
)
    requires
        4 <= precision <= 16,
        0 <= index < pow2(precision),
    ensures
        is_highest_rank(
            precision,
            hashes,
            index,
            SketchModel::empty(precision, seed).inserted_all(hashes).registers[index],
        ),
    decreases hashes.len(),
{
    let start = SketchModel::empty(precision, seed);
    if hashes.len() > 0 {
        let earlier = hashes.drop_last();
        let hash = hashes.last();
        let new_rank = start.inserted_all(hashes).registers[index];
        lemma_register_holds_highest_rank(precision, seed, earlier, index);
        lemma_inserted_all_wf(start, earlier);
        lemma_hash_parts(precision, hash);
        assert forall|j: int|
            0 <= j < hashes.len() && register_index(precision, hashes[j]) == index implies hash_rank(
            precision,
            #[trigger] hashes[j],
        ) <= new_rank by {
            if j < earlier.len() {
                assert(hashes[j] == earlier[j]);
            }
        }
    }
}

/// Inserting a hash a second time changes nothing.
pub proof fn lemma_insert_idempotent(sketch: SketchModel, hash: u64)
    requires
        sketch.wf(),
    ensures
        sketch.inserted(hash).inserted(hash) == sketch.inserted(hash),
{
    lemma_hash_parts(sketch.precision, hash);
    assert(sketch.inserted(hash).inserted(hash).registers =~= sketch.inserted(hash).registers);
}

/// The order of two insertions does not matter.
pub proof fn lemma_insert_commutes(sketch: SketchModel, first: u64, second: u64)
    requires
        sketch.wf(),
    ensures
        sketch.inserted(first).inserted(second) == sketch.inserted(second).inserted(first),
{
    lemma_hash_parts(sketch.precision, first);
    lemma_hash_parts(sketch.precision, second);
    assert(sketch.inserted(first).inserted(second).registers =~= sketch.inserted(second).inserted(
        first,
    ).registers);
}

/// Inserting one hash any number of times, at least once, leaves the sketch
/// as a single insertion of it does.
pub proof fn lemma_repeated_insert(sketch: SketchModel, hash: u64, times: nat)
    requires
        sketch.wf(),
        times >= 1,
    ensures
        sketch.inserted_all(Seq::new(times, |i: int| hash)) == sketch.inserted(hash),
    decreases times,
{
    let copies = Seq::new(times, |i: int| hash);
    let fewer = Seq::new((times - 1) as nat, |i: int| hash);
    assert(copies.drop_last() =~= fewer);
    if times == 1 {
        assert(sketch.inserted_all(fewer) == sketch);
    } else {
        lemma_repeated_insert(sketch, hash, (times - 1) as nat);
        lemma_insert_idempotent(sketch, hash);
    }
}

/// A sketch that has already seen a hash is not changed by seeing it again.
pub proof fn lemma_duplicate_absorbed(sketch: SketchModel, hashes: Seq<u64>, hash: u64)
    requires
        sketch.wf(),
        hashes.contains(hash),
    ensures
        sketch.inserted_all(hashes).inserted(hash) == sketch.inserted_all(hashes),
    decreases hashes.len(),
{
    let earlier = hashes.drop_last();
    let before = sketch.inserted_all(earlier);
    lemma_inserted_all_wf(sketch, earlier);
    if hashes.last() == hash {
        lemma_insert_idempotent(before, hash);
    } else {
        let j = choose|j: int| 0 <= j < hashes.len() && hashes[j] == hash;
        assert(earlier[j] == hash);
        lemma_duplicate_absorbed(sketch, earlier, hash);
        lemma_insert_commutes(before, hashes.last(), hash);
    }
}

/// Merging with a sketch that then sees one more item is merging first and
/// inserting that item into the union.
pub proof fn lemma_merge_insert(sketch: SketchModel, other: SketchModel, hash: u64)
    requires
        sketch.wf(),
        other.wf(),
        sketch.precision == other.precision,
    ensures
        sketch.merged(other.inserted(hash)) == sketch.merged(other).inserted(hash),
{
    lemma_hash_parts(sketch.precision, hash);
    assert(sketch.merged(other.inserted(hash)).registers =~= sketch.merged(other).inserted(
        hash,
    ).registers);
}

/// Merging the sketches of two streams gives the sketch of the two streams
/// joined: register by register the union holds the larger value, and that
/// is what inserting every item of both into one empty sketch leaves.
pub proof fn lemma_merge_is_union(precision: nat, seed: (u64, u64), left: Seq<u64>, right: Seq<u64>)
    requires
        4 <= precision <= 16,
    ensures
        SketchModel::empty(precision, seed).inserted_all(left).merged(
            SketchModel::empty(precision, seed).inserted_all(right),
        ) == SketchModel::empty(precision, seed).inserted_all(left + right),
    decreases right.len(),
{
    let start = SketchModel::empty(precision, seed);
    let a = start.inserted_all(left);
    lemma_inserted_all_wf(start, left);
    if right.len() == 0 {
        assert(a.merged(start).registers =~= a.registers);
    } else {
        let earlier = right.drop_last();
        lemma_merge_is_union(precision, seed, left, earlier);
        lemma_inserted_all_wf(start, earlier);
        lemma_merge_insert(a, start.inserted_all(earlier), right.last());
        assert((left + right).drop_last() =~= left + earlier);
    }
}

/// Merging is symmetric in the registers it leaves.
pub proof fn lemma_merge_commutes(sketch: SketchModel, other: SketchModel)
    requires
        sketch.wf(),
        other.wf(),
        sketch.compatible(other),
    ensures
        sketch.merged(other) == other.merged(sketch),
{
    assert(sketch.merged(other).registers =~= other.merged(sketch).registers);
}

/// In an empty sketch every register is zero, so the zero registers are all
/// `2^precision` of them, and in the small range the estimate is made by
/// linear counting.
pub proof fn lemma_empty_sketch(precision: nat, seed: (u64, u64))
    requires
        4 <= precision <= 16,
    ensures
        SketchModel::empty(precision, seed).wf(),
        SketchModel::empty(precision, seed).zero_registers() == pow2(precision),
        pow2(precision) > 0,
        Estimator::selected(true, SketchModel::empty(precision, seed).zero_registers())
            == Estimator::LinearCounting,
{
    lemma_pow2_pos(precision);
    lemma_all_zero(SketchModel::empty(precision, seed).registers);
}

/// A sequence of zeros holds as many zeros as it is long.
proof fn lemma_all_zero(registers: Seq<u8>)
    requires
        forall|i: int| 0 <= i < registers.len() ==> registers[i] == 0,
    ensures
        occurrences(registers, 0) == registers.len(),
    decreases registers.len(),
{
    if registers.len() > 0 {
        lemma_all_zero(registers.drop_last());
    }
}

} // verus!
