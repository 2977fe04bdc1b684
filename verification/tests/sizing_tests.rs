use fastbloom::{optimal_hashes, optimal_size_fixed, BloomFilter};

/// -ln(0.0001) in Q32 fixed point.
const NEG_LN_1E4_Q32: u64 = 39558110682;

#[test]
fn data_size() {
    let size_bits: usize = 512 * 1000;
    let bloom = BloomFilter::with_num_bits(size_bits).hashes(4);
    assert_eq!(bloom.num_bits(), size_bits);
}

#[test]
fn specified_hashes() {
    for num_hashes in 1u32..1000u32 {
        assert_eq!(
            num_hashes,
            BloomFilter::with_num_bits(1).hashes(num_hashes).num_hashes()
        );
        assert_eq!(
            num_hashes,
            BloomFilter::with_num_bits(1).hashes(num_hashes).num_hashes()
        );
    }
}

#[test]
fn optimal_hashes_exact_values() {
    // round(ln(2) * num_bits / num_items), clamped to a minimum of 1
    assert_eq!(optimal_hashes(16384, 1024), 11);
    assert_eq!(optimal_hashes(64, 1), 44);
    assert_eq!(optimal_hashes(512000, 10000), 35);
    assert_eq!(optimal_hashes(1048576, 1000), 727);
    assert_eq!(optimal_hashes(4096, 256), 11);
}

#[test]
fn optimal_hashes_clamps_to_one() {
    // ln(2) * 100 / 1000 rounds to 0; the count is clamped to 1
    assert_eq!(optimal_hashes(100, 1000), 1);
    assert_eq!(optimal_hashes(0, 5), 1);
}

#[test]
fn optimal_size_for_target_rate() {
    // target false-positive 0.0001 at 10000 expected items
    let num_bits: usize = optimal_size_fixed(10000, NEG_LN_1E4_Q32);
    assert_eq!(num_bits, 191704);
    assert!(num_bits >= 64);
    assert_eq!(num_bits % 8, 0);
}

#[test]
fn optimal_size_clamps_to_minimum() {
    // zero items, or very few, still yield a usable 64-bit array
    assert_eq!(optimal_size_fixed(0, NEG_LN_1E4_Q32), 64);
    assert_eq!(optimal_size_fixed(1, 1), 64);
}

#[test]
fn expected_items_picks_optimal_hashes() {
    let bloom = BloomFilter::with_num_bits(16384).expected_items(1024);
    assert_eq!(bloom.num_hashes(), 11);
    assert_eq!(bloom.num_bits(), 16384);
}

#[test]
fn expected_items_zero_treated_as_one() {
    // 64 bits, one item: round(ln(2) * 64) = 44
    let bloom = BloomFilter::with_num_bits(1).expected_items(0);
    assert_eq!(bloom.num_hashes(), 44);
}

#[test]
fn scenario_target_false_positive_construction() {
    // target false-positive 0.0001, expected items 10000
    let num_bits: usize = optimal_size_fixed(10000, NEG_LN_1E4_Q32);
    let bloom = BloomFilter::with_num_bits(num_bits).expected_items(10000);
    assert!(bloom.num_bits() >= 64);
    assert_eq!(num_bits % 8, 0);
    assert!(bloom.num_bits() >= num_bits);
}
