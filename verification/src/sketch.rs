//! The sketch: construction, insertion and merging.

use vstd::prelude::*;
use vstd::arithmetic::power2::pow2;
use std::hash::Hash;
use crate::bias::{bias_constant, get_alpha, BiasConstant};
use crate::bits::{position_of_leftmost_one_bit, power_of_two};
use crate::entropy::{open_random_source, random_word};
use crate::error::HllError;
use crate::hashing::{digest, feed, keyed_hasher};
use crate::model::{lemma_hash_parts, lemma_register_count_range, max_rank, SketchModel};

verus! {

/// A HyperLogLog sketch of `2^b` one-byte registers.
pub struct HyperLogLog {
    /// The number of hash bits that address a register, from 4 to 16.
    b: u8,
    /// The mask that takes the low `b` bits of a hash.
    b_mask: usize,
    /// The number of registers, `2^b`.
    m: usize,
    /// The bias constant of the raw estimator.
    alpha: BiasConstant,
    /// The registers, `m` bytes.
    registers: Vec<u8>,
    /// The two key words of the hash.
    hasher_key0: u64,
    hasher_key1: u64,
}

impl View for HyperLogLog {
    type V = SketchModel;

    closed spec fn view(&self) -> SketchModel {
        SketchModel {
            precision: self.b as nat,
            seed: (self.hasher_key0, self.hasher_key1),
            registers: self.registers@,
        }
    }
}

/// Raises the register at `index` to `rank`, unless it is there already.
fn raise(registers: &mut Vec<u8>, index: usize, rank: u8)
    requires
        index < old(registers).len(),
    ensures
        final(registers)@ == old(registers)@.update(
            index as int,
            max_rank(old(registers)@[index as int], rank),
        ),
    no_unwind
{
    if registers[index] < rank {
        registers[index] = rank;
    }
}

impl HyperLogLog {
    #[verifier::type_invariant]
    spec fn well_formed(&self) -> bool {
        &&& self@.wf()
        &&& self.m == pow2(self.b as nat)
        &&& self.b_mask == self.m - 1
        &&& self.alpha == bias_constant(self.b as nat)
    }

    /// Makes an empty sketch of precision `b` under the hash seed
    /// `(key0, key1)`, and refuses a precision outside 4 to 16.
    pub fn with_seed(b: u8, key0: u64, key1: u64) -> (r: Result<Self, HllError>)
        ensures
            4 <= b <= 16 ==> r is Ok && r->Ok_0@ == SketchModel::empty(b as nat, (key0, key1))
                && r->Ok_0@.wf(),
            !(4 <= b <= 16) ==> r is Err && r->Err_0 == (HllError::InvalidPrecision {
                precision: b,
            }),
    {
        if b < 4 || b > 16 {
            return Err(HllError::InvalidPrecision { precision: b });
        }
        let m: usize = power_of_two(b);
        let alpha = match get_alpha(b) {
            Ok(alpha) => alpha,
            Err(e) => {
                return Err(e);
            },
        };
        let registers: Vec<u8> = vec![0u8; m];
        assert(registers@ =~= SketchModel::empty(b as nat, (key0, key1)).registers);
        Ok(
            HyperLogLog {
                b,
                b_mask: m - 1,
                m,
                alpha,
                registers,
                hasher_key0: key0,
                hasher_key1: key1,
            },
        )
    }

    /// Makes an empty sketch of precision `b` under a hash seed drawn from
    /// the operating system's random source.
    ///
    /// A precision outside 4 to 16 is refused before the source is asked.
    /// For a valid precision the outcome is the source's to decide: an empty
    /// sketch, or the report that the source could not be opened.
    pub fn new(b: u8) -> (r: Result<Self, HllError>)
        ensures
            !(4 <= b <= 16) ==> r is Err && r->Err_0 == (HllError::InvalidPrecision {
                precision: b,
            }),
            4 <= b <= 16 ==> match r {
                Ok(sketch) => sketch@ == SketchModel::empty(b as nat, sketch@.seed) && sketch@.wf(),
                Err(e) => e is RandomSourceUnavailable,
            },
    {
        if b < 4 || b > 16 {
            return Err(HllError::InvalidPrecision { precision: b });
        }
        match open_random_source() {
            Err(e) => Err(HllError::RandomSourceUnavailable { reason: e.to_string() }),
            Ok(mut source) => {
                let key0: u64 = random_word(&mut source);
                let key1: u64 = random_word(&mut source);
                HyperLogLog::with_seed(b, key0, key1)
            },
        }
    }

    /// Makes an empty sketch with the precision, the bias constant and the
    /// hash seed of `template`, so that the two can be merged.
    pub fn from_template(template: &HyperLogLog) -> (sketch: Self)
        ensures
            sketch@ == SketchModel::empty(template@.precision, template@.seed),
            sketch@.compatible(template@),
            sketch@.wf(),
    {
        proof {
            use_type_invariant(template);
        }
        let m: usize = template.m;
        let registers: Vec<u8> = vec![0u8; m];
        assert(registers@ =~= SketchModel::empty(template@.precision, template@.seed).registers);
        HyperLogLog {
            b: template.b,
            b_mask: m - 1,
            m,
            alpha: template.alpha,
            registers,
            hasher_key0: template.hasher_key0,
            hasher_key1: template.hasher_key1,
        }
    }

    /// Hashes a value under the sketch's seed.
    ///
    /// Nothing is claimed of the hash.  What a value feeds to the hasher is
    /// for its `Hash` implementation to say, which may go by more than the
    /// value itself, an address for one; `insert_hash` is proved for every
    /// hash that can come back.
    fn hash<H: Hash>(&self, value: &H) -> (hash: u64) {
        let mut hasher = keyed_hasher(self.hasher_key0, self.hasher_key1);
        feed(&mut hasher, value);
        digest(&hasher)
    }

    /// Inserts a value: hashes it under the sketch's seed and inserts the hash.
    ///
    /// Which hash a value has is for its `Hash` implementation and the keyed
    /// hasher to say; whatever it is, the sketch is left as `insert_hash`
    /// leaves it for that hash.
    pub fn insert<H: Hash>(&mut self, value: &H)
        ensures
            exists|hash: u64| final(self)@ == old(self)@.inserted(hash),
            old(self)@.wf(),
            final(self)@.wf(),
            final(self)@.registers.len() == old(self)@.registers.len(),
            forall|i: int|
                0 <= i < old(self)@.registers.len() ==> old(self)@.registers[i]
                    <= #[trigger] final(self)@.registers[i],
    {
        let x: u64 = self.hash(value);
        self.insert_hash(x);
    }

    /// Inserts an item by its 64-bit hash: the register that the low
    /// `precision` bits name rises to the rank of the remaining bits, unless
    /// it is there already.
    pub fn insert_hash(&mut self, hash: u64)
        ensures
            final(self)@ == old(self)@.inserted(hash),
            old(self)@.wf(),
            final(self)@.wf(),
            final(self)@.registers.len() == old(self)@.registers.len(),
            forall|i: int|
                0 <= i < old(self)@.registers.len() ==> old(self)@.registers[i]
                    <= #[trigger] final(self)@.registers[i],
    {
        proof {
            use_type_invariant(&*self);
            lemma_hash_parts(self.b as nat, hash);
            vstd::bits::lemma_u64_low_bits_mask_is_mod(hash, self.b as nat);
            vstd::bits::lemma_u64_shr_is_div(hash, self.b as u64);
        }
        let j: usize = (hash & (self.b_mask as u64)) as usize;
        let w: u64 = hash >> (self.b as u64);
        let p1: u8 = position_of_leftmost_one_bit(w, 64 - self.b);
        raise(&mut self.registers, j, p1);
    }

    /// Folds `other` into this sketch: each register rises to the larger of
    /// the two sketches' values.
    ///
    /// The two must agree on precision and hash seed; where they do not, the
    /// merge is refused and this sketch stays as it was.
    pub fn merge(&mut self, other: &HyperLogLog) -> (r: Result<(), HllError>)
        ensures
            old(self)@.compatible(other@) ==> r is Ok && final(self)@ == old(self)@.merged(other@),
            !old(self)@.compatible(other@) ==> final(self)@ == old(self)@ && r is Err && r->Err_0
                == (HllError::IncompatibleSketch {
                precision: old(self)@.precision as u8,
                other_precision: other@.precision as u8,
                seed: old(self)@.seed,
                other_seed: other@.seed,
            }),
            old(self)@.wf(),
            other@.wf(),
            final(self)@.wf(),
    {
        proof {
            use_type_invariant(&*self);
            use_type_invariant(other);
        }
        if self.b == other.b && self.m == other.m && self.hasher_key0 == other.hasher_key0
            && self.hasher_key1 == other.hasher_key1 {
            let mut i: usize = 0;
            while i < self.m
                invariant
                    self.well_formed(),
                    other.well_formed(),
                    self.b == other.b,
                    self.m == old(self).m,
                    old(self).registers@.len() == self.m,
                    self@.precision == old(self)@.precision,
                    self@.seed == old(self)@.seed,
                    i <= self.m,
                    forall|k: int|
                        0 <= k < i ==> self.registers@[k] == old(self)@.merged(other@).registers[k],
                    forall|k: int|
                        i <= k < self.m ==> self.registers@[k] == old(self).registers@[k],
                decreases self.m - i,
            {
                let p2: u8 = other.registers[i];
                raise(&mut self.registers, i, p2);
                i += 1;
            }
            assert(self@.registers =~= old(self)@.merged(other@).registers);
            Ok(())
        } else {
            Err(
                HllError::IncompatibleSketch {
                    precision: self.b,
                    other_precision: other.b,
                    seed: (self.hasher_key0, self.hasher_key1),
                    other_seed: (other.hasher_key0, other.hasher_key1),
                },
            )
        }
    }

    /// The precision: the number of hash bits that address a register.
    pub fn precision(&self) -> (b: u8)
        ensures
            b == self@.precision,
            self@.wf(),
    {
        proof {
            use_type_invariant(self);
        }
        self.b
    }

    /// The number of registers, `2^precision`.
    pub fn register_count(&self) -> (m: usize)
        ensures
            m == pow2(self@.precision),
            m == self@.registers.len(),
            16 <= m <= 65536,
            self@.wf(),
    {
        proof {
            use_type_invariant(self);
            lemma_register_count_range(self.b as nat);
        }
        self.m
    }

    /// The registers, in order.
    pub fn registers(&self) -> (registers: &Vec<u8>)
        ensures
            registers@ == self@.registers,
            self@.wf(),
    {
        proof {
            use_type_invariant(self);
        }
        &self.registers
    }

    /// The two key words of the hash.
    pub fn hash_seed(&self) -> (seed: (u64, u64))
        ensures
            seed == self@.seed,
    {
        (self.hasher_key0, self.hasher_key1)
    }

    /// The bias constant of the raw estimator, as an exact fraction.
    pub fn bias_constant(&self) -> (alpha: BiasConstant)
        ensures
            alpha == bias_constant(self@.precision),
    {
        proof {
            use_type_invariant(self);
        }
        self.alpha
    }
}

} // verus!
