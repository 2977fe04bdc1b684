//! Hash derivation: a seedable default hash strategy (SipHash-1-3 keyed by a
//! 16-byte seed) and the double-hashing engine that derives an arbitrary
//! number of well-distributed 64-bit values from a single 64-bit hash.

use vstd::prelude::*;

verus! {

/// Odd 64-bit mixing constant for double hashing; 2^64 / this constant
/// approximates pi, which avoids short cycles.
pub const DOUBLE_HASH_MIX: u64 = 0x517c_c1b7_2722_0a95;

/// A `BuildHasher`-style factory that hands out copies of one stored hasher
/// state, so that every hash of one filter starts from the same seed.
#[derive(Clone, Copy, Debug)]
pub struct CloneBuildHasher<H> {
    pub hasher: H,
}

impl<H: Clone> CloneBuildHasher<H> {
    pub fn new(hasher: H) -> (r: Self)
        ensures
            r.hasher == hasher,
    {
        CloneBuildHasher { hasher }
    }

    /// A fresh copy of the stored hasher state.
    pub fn build_hasher(&self) -> (r: H)
        ensures
            vstd::pervasive::cloned(self.hasher, r),
    {
        self.hasher.clone()
    }
}

/// The seed state of the default hash strategy: the 16-byte key of a
/// SipHash-1-3 instance. Hashing an item runs SipHash-1-3 with this key over
/// the item's byte representation.
#[derive(Clone, Copy, Debug)]
pub struct RandomDefaultHasher {
    pub key: [u8; 16],
}

/// The default hasher for `BloomFilter`: a cloneable factory around the
/// seeded SipHash-1-3 state.
pub type DefaultHasher = CloneBuildHasher<RandomDefaultHasher>;

/// The 64-bit SipHash-1-3 digest of `data` under the 16-byte `key`. The
/// digest is determined by `key` and `data` alone.
pub uninterp spec fn sip13_of(key: Seq<u8>, data: Seq<u8>) -> u64;

/// Relies on siphasher's `SipHasher13`: `new_with_key` keys the hasher off the
/// 16 given bytes, and `Hasher::write` followed by `Hasher::finish` computes
/// the SipHash-1-3 digest of the written bytes, a value determined by the key
/// and the bytes alone.
#[verifier::external_body]
fn sip13(key: &[u8; 16], data: &[u8]) -> (r: u64)
    ensures
        r == sip13_of(key@, data@),
{
    let mut h = siphasher::sip::SipHasher13::new_with_key(key);
    core::hash::Hasher::write(&mut h, data);
    core::hash::Hasher::finish(&h)
}

/// Relies on rand's thread-local generator: `fill_bytes` fills the buffer
/// with bytes from process entropy. Nothing is assumed of the values.
#[verifier::external_body]
fn random_seed() -> (r: [u8; 16]) {
    let mut seed = [0u8; 16];
    rand::Rng::fill_bytes(&mut rand::rng(), &mut seed);
    seed
}

impl RandomDefaultHasher {
    /// A hasher state keyed off the provided 16-byte seed. The same seed
    /// always yields the same hash for the same data.
    pub fn seeded(seed: &[u8; 16]) -> (r: Self)
        ensures
            r.key@ == seed@,
    {
        RandomDefaultHasher { key: *seed }
    }

    /// The SipHash-1-3 digest of `data` under this state's key.
    pub fn hash_bytes(&self, data: &[u8]) -> (r: u64)
        ensures
            r == sip13_of(self.key@, data@),
    {
        sip13(&self.key, data)
    }
}

impl Default for RandomDefaultHasher {
    /// A hasher state keyed off 16 bytes of process entropy, so that distinct
    /// filters hash differently unless seeded explicitly.
    fn default() -> Self {
        RandomDefaultHasher { key: random_seed() }
    }
}

impl DefaultHasher {
    /// A factory whose copies all carry the given 16-byte seed.
    pub fn seeded(seed: &[u8; 16]) -> (r: Self)
        ensures
            r.hasher.key@ == seed@,
    {
        CloneBuildHasher { hasher: RandomDefaultHasher::seeded(seed) }
    }
}

/// `x` rotated left by 5 bits.
pub open spec fn rotl5(x: u64) -> u64 {
    (x << 5) | (x >> 59)
}

/// The second hash of the pair: a fixed odd multiplicative mix of the first,
/// so that the two behave as independent uniform hash functions.
pub open spec fn spec_h2(h1: u64) -> u64 {
    vstd::wrapping::u64_specs::wrapping_mul(h1, DOUBLE_HASH_MIX)
}

/// One step of the double-hashing recurrence: rotate the running hash left by
/// 5 and add the second hash, wrapping.
pub open spec fn dh_step(h: u64, h2: u64) -> u64 {
    vstd::wrapping::u64_specs::wrapping_add(rotl5(h), h2)
}

/// The running hash after `n` steps of the recurrence seeded from `h1`.
pub open spec fn nth_hash(h1: u64, n: nat) -> u64
    decreases n,
{
    if n == 0 {
        h1
    } else {
        dh_step(nth_hash(h1, (n - 1) as nat), spec_h2(h1))
    }
}

/// The `j`-th bit position (0-based) derived from `h1` for an array of
/// `num_bits` bits: the (j+1)-st hash of the recurrence, reduced modulo
/// `num_bits`.
pub open spec fn hash_index(h1: u64, j: int, num_bits: int) -> int {
    (nth_hash(h1, (j + 1) as nat) as int) % num_bits
}

/// The first two hashes of the value, h1 and h2.
///
/// Subsequent hashes are derived from these two by `next`, at the cost of a
/// rotate and an add each, instead of one independent hash per position.
#[derive(Clone, Copy, Debug)]
pub struct DoubleHasher {
    pub h1: u64,
    pub h2: u64,
}

impl DoubleHasher {
    pub fn new(h1: u64) -> (r: Self)
        ensures
            r.h1 == h1,
            r.h2 == spec_h2(h1),
            r.h1 == nth_hash(h1, 0),
    {
        let h2 = h1.wrapping_mul(DOUBLE_HASH_MIX);
        DoubleHasher { h1, h2 }
    }

    /// "Double hashing" produces a new hash efficiently from two original
    /// hashes. The result is a function of the starting state alone: the same
    /// state always steps to the same hash.
    pub fn next(&mut self) -> (r: u64)
        ensures
            final(self).h2 == old(self).h2,
            final(self).h1 == dh_step(old(self).h1, old(self).h2),
            r == final(self).h1,
    {
        let rotated = (self.h1 << 5u64) | (self.h1 >> 59u64);
        self.h1 = rotated.wrapping_add(self.h2);
        self.h1
    }
}

/// The full position sequence for one item: the `num_hashes` bit positions
/// that hash `h1` maps to in an array of `num_bits` bits. The result is a
/// function of the arguments alone, so insert and contains, which both call
/// this, always regenerate identical sequences for the same item.
pub fn positions(h1: u64, num_hashes: u32, num_bits: usize) -> (r: Vec<usize>)
    requires
        num_bits >= 1,
    ensures
        r@.len() == num_hashes as int,
        forall|j: int|
            0 <= j < num_hashes as int ==> #[trigger] r@[j] as int == hash_index(
                h1,
                j,
                num_bits as int,
            ) && r@[j] < num_bits,
{
    let mut dh = DoubleHasher::new(h1);
    let mut out: Vec<usize> = Vec::new();
    let mut j: u32 = 0;
    while j < num_hashes
        invariant
            j <= num_hashes,
            num_bits >= 1,
            dh.h2 == spec_h2(h1),
            dh.h1 == nth_hash(h1, j as nat),
            out@.len() == j as int,
            forall|t: int|
                0 <= t < j as int ==> #[trigger] out@[t] as int == hash_index(
                    h1,
                    t,
                    num_bits as int,
                ) && out@[t] < num_bits,
        decreases num_hashes - j,
    {
        let h = dh.next();
        assert(dh.h1 == nth_hash(h1, (j + 1) as nat));
        let idx = (h % (num_bits as u64)) as usize;
        out.push(idx);
        j = j + 1;
    }
    out
}

} // verus!
