//! A Bloom filter: a probabilistic set-membership structure over a fixed-size
//! bit array. Items map to a small, fixed number of bit positions derived by
//! double hashing; `contains` answers "definitely not present" or "possibly
//! present" with a tunable false-positive rate and no false negatives.

mod bits;
mod filter;
mod hasher;
mod laws;
mod sizing;

pub use filter::BloomFilter;
pub use filter::BuilderWithBits;
pub use filter::FilterError;
pub use hasher::CloneBuildHasher;
pub use hasher::DefaultHasher;
pub use hasher::DoubleHasher;
pub use hasher::RandomDefaultHasher;
pub use hasher::positions;
pub use laws::bit_after_inserts;
pub use laws::lemma_bit_after_inserts;
pub use laws::lemma_contains_monotone;
pub use laws::lemma_intersect_contains;
pub use laws::lemma_no_false_negatives;
pub use laws::lemma_order_independence;
pub use laws::lemma_union_contains;
pub use sizing::optimal_hashes;
pub use sizing::optimal_size_fixed;
