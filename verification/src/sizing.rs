//! Sizing mathematics: the optimal number of hashes for a bit budget and item
//! count, and the smallest bit-array size meeting a target false-positive
//! rate. Both are computed exactly in fixed-point integer arithmetic.

use vstd::prelude::*;

verus! {

/// ln(2) in 0.64 fixed point: floor(ln(2) * 2^64).
pub const LN2_Q64: u64 = 12786308645202655659;

/// ln(2)^2 in 0.32 fixed point: floor(ln(2)^2 * 2^32).
pub const LN2_SQ_Q32: u64 = 2063529982;

/// The optimal hash count `round(ln(2) * num_bits / num_items)`, evaluated in
/// Q64 fixed point, clamped to `[1, u32::MAX]`.
pub open spec fn spec_optimal_hashes(num_bits: nat, num_items: nat) -> nat
    recommends
        num_items >= 1,
{
    let q: int = (num_bits as int * LN2_Q64 as int) / num_items as int;
    let rounded: int = (q + 0x8000_0000_0000_0000) / 0x1_0000_0000_0000_0000;
    if rounded < 1 {
        1nat
    } else if rounded > u32::MAX as int {
        u32::MAX as nat
    } else {
        rounded as nat
    }
}

/// Returns the optimal (for false positive rate) number of hashes to perform
/// for an item given the expected number of items in the bloom filter.
///
/// Computes `round(ln(2) * num_bits / num_items)`, clamped to a minimum of 1,
/// in 64-bit fixed-point arithmetic. Callers must normalize a zero item count
/// to 1 before calling.
pub fn optimal_hashes(num_bits: usize, num_items: usize) -> (k: u32)
    requires
        num_items >= 1,
    ensures
        k == spec_optimal_hashes(num_bits as nat, num_items as nat),
        k >= 1,
{
    let scaled: u128 = (num_bits as u128) * (LN2_Q64 as u128);
    let q: u128 = scaled / (num_items as u128);
    proof {
        assert(num_bits <= u64::MAX);
        assert(scaled <= u64::MAX as u128 * LN2_Q64 as u128);
        assert(q <= scaled);
    }
    let rounded: u128 = (q + 0x8000_0000_0000_0000) / 0x1_0000_0000_0000_0000;
    if rounded < 1 {
        1
    } else if rounded > u32::MAX as u128 {
        u32::MAX
    } else {
        rounded as u32
    }
}

/// The smallest bit-array size meeting a target false-positive rate:
/// `8 * ceil(num_items * neg_log_fp / (8 * ln(2)^2))` bits, clamped to a
/// minimum of 64 and always a multiple of 8. `neg_log_fp` stands for
/// `-ln(target_fp)` in Q32 fixed point.
pub open spec fn spec_optimal_size(num_items: int, neg_log_fp: int) -> int {
    let denom = 8 * LN2_SQ_Q32;
    let blocks = (num_items * neg_log_fp + denom - 1) / denom;
    if 8 * blocks < 64 {
        64
    } else {
        8 * blocks
    }
}

/// Returns the smallest size in bits of a Bloom filter containing `num_items`
/// items to achieve the target false positive rate, whose natural logarithm,
/// negated and scaled by 2^32, is `neg_log_fp`.
///
/// The result is at least 64 bits and a multiple of 8 bits, to keep byte and
/// word alignment.
pub fn optimal_size_fixed(num_items: usize, neg_log_fp: u64) -> (num_bits: usize)
    requires
        num_items as int * neg_log_fp as int + 8 * LN2_SQ_Q32 <= u128::MAX,
        spec_optimal_size(num_items as int, neg_log_fp as int) <= usize::MAX,
    ensures
        num_bits == spec_optimal_size(num_items as int, neg_log_fp as int),
        num_bits >= 64,
        num_bits % 8 == 0,
{
    let denom: u128 = 8 * (LN2_SQ_Q32 as u128);
    let scaled: u128 = (num_items as u128) * (neg_log_fp as u128);
    let blocks: u128 = (scaled + denom - 1) / denom;
    proof {
        assert(8 * (blocks as int) < 64 || 8 * (blocks as int) == spec_optimal_size(
            num_items as int,
            neg_log_fp as int,
        ));
        assert((8 * blocks as int) % 8 == 0 && 64int % 8 == 0) by (nonlinear_arith);
    }
    let bits: u128 = 8 * blocks;
    if bits < 64 {
        64
    } else {
        bits as usize
    }
}

} // verus!
