//! The Bloom filter: a fixed-size bit array, a fixed hash count, and a seeded
//! hash strategy. `insert` sets the bits an item maps to; `contains` reports
//! whether all of them are set — possibly-present, never a false negative.
//!
//! This variant is exclusively owned: `insert` takes `&mut self`, so the
//! caller serializes writers; any number of readers may share it between
//! inserts.

use vstd::prelude::*;
use crate::bits::{and_words, get_bit, or_words, set_bit, spec_bit, zero_words};
use crate::hasher::{hash_index, positions, sip13_of, DefaultHasher, RandomDefaultHasher};
use crate::hasher::CloneBuildHasher;
use crate::sizing::{optimal_hashes, spec_optimal_hashes};

verus! {

/// Whether some of the `k` bit positions that `h1` maps to in an array of
/// `num_bits` bits is exactly `i`.
pub open spec fn hits(h1: u64, k: int, num_bits: int, i: int) -> bool {
    exists|j: int| 0 <= j < k && #[trigger] hash_index(h1, j, num_bits) == i
}

/// Whether every one of the `k` bit positions that `h1` maps to is set in
/// `words`: the membership answer for an item hashing to `h1`.
pub open spec fn spec_contains(words: Seq<u64>, h1: u64, k: int) -> bool {
    forall|j: int| 0 <= j < k ==> spec_bit(words, #[trigger] hash_index(h1, j, words.len() as int * 64))
}

/// The number of 64-bit words backing an array of `num_bits` bits: rounded
/// up, and at least one word.
pub open spec fn spec_word_count(num_bits: int) -> int {
    if num_bits == 0 {
        1
    } else {
        (num_bits - 1) / 64 + 1
    }
}

/// Signals an operation over two filters whose bit arrays have different
/// lengths; no safe interpretation of such a pair exists.
#[derive(Clone, Copy, Debug, PartialEq, Eq, Structural)]
pub enum FilterError {
    SizeMismatch,
}

/// A Bloom filter builder with an immutable number of bits.
///
/// Finalized into a [`BloomFilter`] by choosing the hash count, either
/// explicitly or from an expected item count.
#[derive(Clone, Debug)]
pub struct BuilderWithBits {
    pub data: Vec<u64>,
    pub hasher: DefaultHasher,
}

impl BuilderWithBits {
    /// The backing array is nonempty and its bit count fits a `usize`.
    pub open spec fn wf(self) -> bool {
        &&& self.data@.len() >= 1
        &&& self.data@.len() * 64 <= usize::MAX
    }
}

/// The exclusively-owned Bloom filter variant.
#[derive(Clone, Debug)]
pub struct BloomFilter {
    pub bits: Vec<u64>,
    pub num_hashes: u32,
    pub hasher: DefaultHasher,
}

impl BloomFilter {
    /// Structural invariant: at least one backing word (so `num_bits >= 64`),
    /// a total bit count that fits a `usize`, and at least one hash per item.
    pub open spec fn wf(self) -> bool {
        &&& self.bits@.len() >= 1
        &&& self.bits@.len() * 64 <= usize::MAX
        &&& self.num_hashes >= 1
    }

    /// The seed key of the filter's hash strategy.
    pub open spec fn spec_key(self) -> Seq<u8> {
        self.hasher.hasher.key@
    }

    /// A builder over a zeroed array of at least `num_bits` bits, rounded up
    /// to whole words (at least one), with a hasher keyed from process
    /// entropy.
    pub fn with_num_bits(num_bits: usize) -> (r: BuilderWithBits)
        requires
            num_bits <= usize::MAX - 63,
        ensures
            r.wf(),
            r.data@.len() == spec_word_count(num_bits as int),
            num_bits <= r.data@.len() * 64,
            forall|t: int| 0 <= t < r.data@.len() * 64 ==> !spec_bit(r.data@, t),
    {
        let words: usize = if num_bits == 0 {
            1
        } else {
            (num_bits - 1) / 64 + 1
        };
        proof {
            assert(words * 64 <= usize::MAX && num_bits <= words * 64) by (nonlinear_arith)
                requires
                    num_bits <= usize::MAX - 63,
                    words == spec_word_count(num_bits as int),
            ;
        }
        BuilderWithBits {
            data: zero_words(words),
            hasher: CloneBuildHasher { hasher: RandomDefaultHasher::default() },
        }
    }

    /// A builder over the given backing words, with a hasher keyed from
    /// process entropy.
    pub fn from_vec(data: Vec<u64>) -> (r: BuilderWithBits)
        requires
            data@.len() >= 1,
            data@.len() * 64 <= usize::MAX,
        ensures
            r.wf(),
            r.data@ == data@,
    {
        BuilderWithBits {
            data,
            hasher: CloneBuildHasher { hasher: RandomDefaultHasher::default() },
        }
    }

    /// The fixed capacity of the bit array, in bits: 64 bits per word.
    pub fn num_bits(&self) -> (r: usize)
        requires
            self.wf(),
        ensures
            r == self.bits@.len() * 64,
    {
        self.bits.len() * 64
    }

    /// The fixed number of bit positions each item maps to.
    pub fn num_hashes(&self) -> (r: u32)
        ensures
            r == self.num_hashes,
    {
        self.num_hashes
    }

    /// Sets the `num_hashes` bit positions derived from the 64-bit hash `h1`.
    /// Monotonic: bits are only ever set, never cleared, so the positions of
    /// `h1` test set afterwards and every previously set bit stays set.
    pub fn insert_hash(&mut self, h1: u64)
        requires
            old(self).wf(),
        ensures
            final(self).wf(),
            final(self).bits@.len() == old(self).bits@.len(),
            final(self).num_hashes == old(self).num_hashes,
            final(self).hasher == old(self).hasher,
            forall|t: int|
                0 <= t < final(self).bits@.len() * 64 ==> (spec_bit(final(self).bits@, t) <==> (
                spec_bit(old(self).bits@, t) || hits(
                    h1,
                    old(self).num_hashes as int,
                    old(self).bits@.len() as int * 64,
                    t,
                ))),
            spec_contains(final(self).bits@, h1, final(self).num_hashes as int),
    {
        let nb = self.bits.len() * 64;
        let ps = positions(h1, self.num_hashes, nb);
        let ghost nbi = nb as int;
        let ghost k = self.num_hashes as int;
        let mut j: usize = 0;
        while j < ps.len()
            invariant
                j <= ps@.len(),
                ps@.len() == k,
                self.bits@.len() == old(self).bits@.len(),
                self.bits@.len() >= 1,
                self.bits@.len() * 64 <= usize::MAX,
                self.num_hashes == old(self).num_hashes,
                self.hasher == old(self).hasher,
                k == old(self).num_hashes as int,
                nbi == old(self).bits@.len() as int * 64,
                forall|q: int|
                    0 <= q < ps@.len() ==> #[trigger] ps@[q] as int == hash_index(h1, q, nbi)
                        && ps@[q] < nbi,
                forall|t: int|
                    0 <= t < nbi ==> (spec_bit(self.bits@, t) <==> (spec_bit(old(self).bits@, t)
                        || exists|q: int| 0 <= q < j && hash_index(h1, q, nbi) == t)),
            decreases ps@.len() - j,
        {
            let idx = ps[j];
            set_bit(&mut self.bits, idx);
            proof {
                assert forall|t: int|
                    0 <= t < nbi implies (spec_bit(self.bits@, t) <==> (spec_bit(
                    old(self).bits@,
                    t,
                ) || exists|q: int| 0 <= q < j + 1 && hash_index(h1, q, nbi) == t)) by {
                    if spec_bit(self.bits@, t) {
                        if t == idx as int {
                            assert(hash_index(h1, j as int, nbi) == t);
                        }
                    }
                    if exists|q: int| 0 <= q < j + 1 && hash_index(h1, q, nbi) == t {
                        let q = choose|q: int| 0 <= q < j + 1 && hash_index(h1, q, nbi) == t;
                        if q == j {
                            assert(t == idx as int);
                        }
                    }
                }
            }
            j = j + 1;
        }
        proof {
            assert forall|jj: int| 0 <= jj < k implies spec_bit(
                self.bits@,
                #[trigger] hash_index(h1, jj, self.bits@.len() as int * 64),
            ) by {
                let t = hash_index(h1, jj, nbi);
                assert(0 <= t < nbi);
                assert(hits(h1, k, nbi, t));
            }
        }
    }

    /// Inserts a whole sequence of 64-bit hashes, in order. The final bit
    /// array is exactly the [`crate::laws::bit_after_inserts`] model of the
    /// run, so the laws proved of that model — no false negatives, order
    /// independence — hold of this function's results.
    pub fn insert_hashes(&mut self, hashes: &Vec<u64>)
        requires
            old(self).wf(),
        ensures
            final(self).wf(),
            final(self).bits@.len() == old(self).bits@.len(),
            final(self).num_hashes == old(self).num_hashes,
            final(self).hasher == old(self).hasher,
            forall|i: int|
                0 <= i < final(self).bits@.len() * 64 ==> (spec_bit(final(self).bits@, i)
                    <==> crate::laws::bit_after_inserts(
                    old(self).bits@,
                    hashes@,
                    old(self).num_hashes as int,
                    i,
                )),
    {
        let ghost k = self.num_hashes as int;
        let mut m: usize = 0;
        while m < hashes.len()
            invariant
                m <= hashes@.len(),
                self.wf(),
                self.bits@.len() == old(self).bits@.len(),
                self.num_hashes == old(self).num_hashes,
                self.hasher == old(self).hasher,
                k == old(self).num_hashes as int,
                forall|i: int|
                    0 <= i < self.bits@.len() * 64 ==> (spec_bit(self.bits@, i)
                        <==> crate::laws::bit_after_inserts(
                        old(self).bits@,
                        hashes@.take(m as int),
                        k,
                        i,
                    )),
            decreases hashes@.len() - m,
        {
            let h = hashes[m];
            self.insert_hash(h);
            proof {
                assert(hashes@.take(m as int + 1).drop_last() =~= hashes@.take(m as int));
                assert(hashes@.take(m as int + 1).last() == hashes@[m as int]);
            }
            m = m + 1;
        }
        proof {
            assert(hashes@.take(hashes@.len() as int) =~= hashes@);
        }
    }

    /// Whether every one of the `num_hashes` bit positions derived from `h1`
    /// is set: `false` means no item hashing to `h1` was ever inserted;
    /// `true` means possibly present.
    pub fn contains_hash(&self, h1: u64) -> (r: bool)
        requires
            self.wf(),
        ensures
            r == spec_contains(self.bits@, h1, self.num_hashes as int),
    {
        let nb = self.bits.len() * 64;
        let ps = positions(h1, self.num_hashes, nb);
        let ghost nbi = nb as int;
        let ghost k = self.num_hashes as int;
        let mut j: usize = 0;
        while j < ps.len()
            invariant
                j <= ps@.len(),
                ps@.len() == k,
                self.wf(),
                k == self.num_hashes as int,
                nbi == self.bits@.len() as int * 64,
                forall|q: int|
                    0 <= q < ps@.len() ==> #[trigger] ps@[q] as int == hash_index(h1, q, nbi)
                        && ps@[q] < nbi,
                forall|q: int| 0 <= q < j ==> spec_bit(self.bits@, hash_index(h1, q, nbi)),
            decreases ps@.len() - j,
        {
            if !get_bit(&self.bits, ps[j]) {
                proof {
                    assert(!spec_bit(self.bits@, hash_index(h1, j as int, nbi)));
                }
                return false;
            }
            j = j + 1;
        }
        true
    }

    /// Inserts an item by its byte representation: hashes it once under the
    /// filter's seed, then sets the derived bit positions. Always succeeds;
    /// positions are reduced modulo the bit count, so none is out of range.
    pub fn insert(&mut self, data: &[u8])
        requires
            old(self).wf(),
        ensures
            final(self).wf(),
            final(self).bits@.len() == old(self).bits@.len(),
            final(self).num_hashes == old(self).num_hashes,
            final(self).hasher == old(self).hasher,
            forall|t: int|
                0 <= t < final(self).bits@.len() * 64 ==> (spec_bit(final(self).bits@, t) <==> (
                spec_bit(old(self).bits@, t) || hits(
                    sip13_of(old(self).spec_key(), data@),
                    old(self).num_hashes as int,
                    old(self).bits@.len() as int * 64,
                    t,
                ))),
            spec_contains(
                final(self).bits@,
                sip13_of(old(self).spec_key(), data@),
                final(self).num_hashes as int,
            ),
    {
        let h1 = self.hasher.hasher.hash_bytes(data);
        self.insert_hash(h1);
    }

    /// Whether the item is possibly present: `true` iff every bit position
    /// derived from the item's hash is set. `false` is definite absence.
    pub fn contains(&self, data: &[u8]) -> (r: bool)
        requires
            self.wf(),
        ensures
            r == spec_contains(
                self.bits@,
                sip13_of(self.spec_key(), data@),
                self.num_hashes as int,
            ),
    {
        let h1 = self.hasher.hasher.hash_bytes(data);
        self.contains_hash(h1)
    }

    /// Resets every bit to 0, keeping the array length, hash count and seed.
    pub fn clear(&mut self)
        requires
            old(self).wf(),
        ensures
            final(self).wf(),
            final(self).bits@.len() == old(self).bits@.len(),
            final(self).num_hashes == old(self).num_hashes,
            final(self).hasher == old(self).hasher,
            forall|t: int| 0 <= t < final(self).bits@.len() * 64 ==> !spec_bit(final(self).bits@, t),
    {
        let len = self.bits.len();
        self.bits = zero_words(len);
    }

    /// The word-wise OR of two filters of identical bit-array length: the
    /// result's set bits are exactly the bits set in either. Returns
    /// `FilterError::SizeMismatch`, and nothing else, exactly when the
    /// lengths differ. The result keeps `self`'s hash count and seed.
    pub fn union(&self, other: &BloomFilter) -> (r: Result<BloomFilter, FilterError>)
        requires
            self.wf(),
        ensures
            r is Ok <==> self.bits@.len() == other.bits@.len(),
            r matches Ok(f) ==> {
                &&& f.wf()
                &&& f.bits@.len() == self.bits@.len()
                &&& forall|w: int| 0 <= w < f.bits@.len() ==> f.bits@[w] == (self.bits@[w]
                    | other.bits@[w])
                &&& f.num_hashes == self.num_hashes
                &&& f.hasher == self.hasher
            },
            r matches Ok(f) ==> forall|h1: u64|
                (spec_contains(self.bits@, h1, self.num_hashes as int) || spec_contains(
                    other.bits@,
                    h1,
                    self.num_hashes as int,
                )) ==> spec_contains(f.bits@, h1, self.num_hashes as int),
            r matches Err(e) ==> e == FilterError::SizeMismatch,
    {
        if self.bits.len() != other.bits.len() {
            return Err(FilterError::SizeMismatch);
        }
        let merged = or_words(&self.bits, &other.bits);
        proof {
            assert forall|h1: u64|
                (spec_contains(self.bits@, h1, self.num_hashes as int) || spec_contains(
                    other.bits@,
                    h1,
                    self.num_hashes as int,
                )) implies spec_contains(merged@, h1, self.num_hashes as int) by {
                crate::laws::lemma_union_contains(
                    self.bits@,
                    other.bits@,
                    merged@,
                    h1,
                    self.num_hashes as int,
                );
            }
        }
        Ok(BloomFilter { bits: merged, num_hashes: self.num_hashes, hasher: self.hasher })
    }

    /// The word-wise AND of two filters of identical bit-array length: the
    /// result's set bits are exactly the bits set in both. Returns
    /// `FilterError::SizeMismatch`, and nothing else, exactly when the
    /// lengths differ. The result keeps `self`'s hash count and seed.
    pub fn intersect(&self, other: &BloomFilter) -> (r: Result<BloomFilter, FilterError>)
        requires
            self.wf(),
        ensures
            r is Ok <==> self.bits@.len() == other.bits@.len(),
            r matches Ok(f) ==> {
                &&& f.wf()
                &&& f.bits@.len() == self.bits@.len()
                &&& forall|w: int| 0 <= w < f.bits@.len() ==> f.bits@[w] == (self.bits@[w]
                    & other.bits@[w])
                &&& f.num_hashes == self.num_hashes
                &&& f.hasher == self.hasher
            },
            r matches Ok(f) ==> forall|h1: u64|
                spec_contains(f.bits@, h1, self.num_hashes as int) ==> (spec_contains(
                    self.bits@,
                    h1,
                    self.num_hashes as int,
                ) && spec_contains(other.bits@, h1, self.num_hashes as int)),
            r matches Err(e) ==> e == FilterError::SizeMismatch,
    {
        if self.bits.len() != other.bits.len() {
            return Err(FilterError::SizeMismatch);
        }
        let merged = and_words(&self.bits, &other.bits);
        proof {
            assert forall|h1: u64|
                spec_contains(merged@, h1, self.num_hashes as int) implies (spec_contains(
                self.bits@,
                h1,
                self.num_hashes as int,
            ) && spec_contains(other.bits@, h1, self.num_hashes as int)) by {
                crate::laws::lemma_intersect_contains(
                    self.bits@,
                    other.bits@,
                    merged@,
                    h1,
                    self.num_hashes as int,
                );
            }
        }
        Ok(BloomFilter { bits: merged, num_hashes: self.num_hashes, hasher: self.hasher })
    }
}

impl BuilderWithBits {
    /// Replaces the hasher with one keyed off the given seed, in big-endian
    /// byte order. The later constructed Bloom filter will use this seed when
    /// hashing items, so equal seeds give identical filters for equal input.
    pub fn seed(self, seed: &u128) -> (r: Self)
        ensures
            r.data@ == self.data@,
            r.hasher.hasher.key@ == spec_u128_be_bytes(*seed),
    {
        let s = *seed;
        let key: [u8; 16] = [
            be_byte(s, 0),
            be_byte(s, 1),
            be_byte(s, 2),
            be_byte(s, 3),
            be_byte(s, 4),
            be_byte(s, 5),
            be_byte(s, 6),
            be_byte(s, 7),
            be_byte(s, 8),
            be_byte(s, 9),
            be_byte(s, 10),
            be_byte(s, 11),
            be_byte(s, 12),
            be_byte(s, 13),
            be_byte(s, 14),
            be_byte(s, 15),
        ];
        proof {
            assert(key@ =~= spec_u128_be_bytes(s));
        }
        BuilderWithBits { data: self.data, hasher: DefaultHasher::seeded(&key) }
    }

    /// Consumes this builder, returning an empty [`BloomFilter`] that maps
    /// each item to the provided `num_hashes` bit positions.
    pub fn hashes(self, num_hashes: u32) -> (r: BloomFilter)
        requires
            self.wf(),
            num_hashes >= 1,
        ensures
            r.wf(),
            r.bits@ == self.data@,
            r.num_hashes == num_hashes,
            r.hasher == self.hasher,
    {
        BloomFilter { bits: self.data, num_hashes, hasher: self.hasher }
    }

    /// Consumes this builder, returning an empty [`BloomFilter`] whose hash
    /// count is optimized for the expected number of items, to minimize the
    /// false-positive chance of `contains`. More or fewer items may be
    /// inserted. An `expected_items` of 0 is treated as 1.
    pub fn expected_items(self, expected_items: usize) -> (r: BloomFilter)
        requires
            self.wf(),
        ensures
            r.wf(),
            r.bits@ == self.data@,
            r.hasher == self.hasher,
            r.num_hashes == spec_optimal_hashes(
                (self.data@.len() * 64) as nat,
                (if expected_items == 0 {
                    1usize
                } else {
                    expected_items
                }) as nat,
            ),
    {
        let items: usize = if expected_items == 0 {
            1
        } else {
            expected_items
        };
        let num_bits = self.data.len() * 64;
        let k = optimal_hashes(num_bits, items);
        self.hashes(k)
    }

    /// Consumes this builder, returning a [`BloomFilter`] containing every
    /// one of the given items (each given by its byte representation), with
    /// the hash count optimized for the number of items.
    pub fn items(self, items: &Vec<Vec<u8>>) -> (r: BloomFilter)
        requires
            self.wf(),
        ensures
            r.wf(),
            r.bits@.len() == self.data@.len(),
            r.hasher == self.hasher,
            r.num_hashes == spec_optimal_hashes(
                (self.data@.len() * 64) as nat,
                (if items@.len() == 0 {
                    1int
                } else {
                    items@.len() as int
                }) as nat,
            ),
            forall|m: int|
                0 <= m < items@.len() ==> spec_contains(
                    r.bits@,
                    sip13_of(r.spec_key(), #[trigger] items@[m]@),
                    r.num_hashes as int,
                ),
    {
        let mut filter = self.expected_items(items.len());
        let ghost start = filter;
        let mut m: usize = 0;
        while m < items.len()
            invariant
                m <= items@.len(),
                filter.wf(),
                filter.bits@.len() == start.bits@.len(),
                filter.num_hashes == start.num_hashes,
                filter.hasher == start.hasher,
                forall|q: int|
                    0 <= q < m ==> spec_contains(
                        filter.bits@,
                        sip13_of(filter.spec_key(), #[trigger] items@[q]@),
                        filter.num_hashes as int,
                    ),
            decreases items@.len() - m,
        {
            let ghost pre = filter.bits@;
            filter.insert(items[m].as_slice());
            proof {
                assert forall|q: int|
                    0 <= q < m + 1 implies spec_contains(
                    filter.bits@,
                    sip13_of(filter.spec_key(), #[trigger] items@[q]@),
                    filter.num_hashes as int,
                ) by {
                    if q < m {
                        crate::laws::lemma_contains_monotone(
                            pre,
                            filter.bits@,
                            sip13_of(filter.spec_key(), items@[q]@),
                            filter.num_hashes as int,
                        );
                    }
                }
            }
            m = m + 1;
        }
        filter
    }
}

/// The 16 bytes of `x` in big-endian order.
pub open spec fn spec_u128_be_bytes(x: u128) -> Seq<u8> {
    Seq::new(16, |i: int| spec_be_byte(x, i))
}

/// Byte `i` (0 = most significant) of the big-endian representation of `x`.
pub open spec fn spec_be_byte(x: u128, i: int) -> u8 {
    ((x >> (((15 - i) * 8) as u128)) & 0xff) as u8
}

/// Byte `pos` (0 = most significant) of the big-endian representation of `x`.
fn be_byte(x: u128, pos: usize) -> (r: u8)
    requires
        pos < 16,
    ensures
        r == spec_be_byte(x, pos as int),
{
    ((x >> (((15 - pos) * 8) as u128)) & 0xff) as u8
}

} // verus!
