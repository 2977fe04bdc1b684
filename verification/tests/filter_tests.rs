use fastbloom::{BloomFilter, FilterError};

#[test]
fn scenario_insert_and_query() {
    let mut bloom = BloomFilter::with_num_bits(1024).hashes(4);
    bloom.insert(&1u64.to_le_bytes());
    bloom.insert(&2u64.to_le_bytes());
    bloom.insert(&3u64.to_le_bytes());
    assert!(bloom.contains(&1u64.to_le_bytes()));
    assert!(bloom.contains(&2u64.to_le_bytes()));
    assert!(bloom.contains(&3u64.to_le_bytes()));
    assert_eq!(bloom.num_bits(), 1024);
}

#[test]
fn no_false_negatives_after_many_inserts() {
    let mut bloom = BloomFilter::with_num_bits(2048).hashes(5);
    for x in 0u64..100u64 {
        bloom.insert(&x.to_le_bytes());
        assert!(bloom.contains(&x.to_le_bytes()));
    }
    // every earlier item is still reported present after all later inserts
    for x in 0u64..100u64 {
        assert!(bloom.contains(&x.to_le_bytes()));
    }
}

#[test]
fn order_independence() {
    let forward_order: [u64; 5] = [11, 22, 33, 44, 55];
    let reverse_order: [u64; 5] = [55, 44, 33, 22, 11];
    let mut a = BloomFilter::with_num_bits(1024).seed(&99).hashes(4);
    let mut b = BloomFilter::with_num_bits(1024).seed(&99).hashes(4);
    for x in forward_order {
        a.insert(&x.to_le_bytes());
    }
    for x in reverse_order {
        b.insert(&x.to_le_bytes());
    }
    // same seed and same item set: identical answers for every probe
    for x in 0u64..200u64 {
        assert_eq!(
            a.contains(&x.to_le_bytes()),
            b.contains(&x.to_le_bytes())
        );
    }
}

#[test]
fn seeded_filters_agree() {
    let mut a = BloomFilter::with_num_bits(4096).seed(&7).hashes(3);
    let mut b = BloomFilter::with_num_bits(4096).seed(&7).hashes(3);
    for x in 0u64..50u64 {
        a.insert(&x.to_le_bytes());
        b.insert(&x.to_le_bytes());
    }
    for x in 0u64..500u64 {
        assert_eq!(
            a.contains(&x.to_le_bytes()),
            b.contains(&x.to_le_bytes())
        );
    }
}

#[test]
fn clear_resets_every_bit() {
    let mut bloom = BloomFilter::with_num_bits(1024).hashes(4);
    for x in 0u64..20u64 {
        bloom.insert(&x.to_le_bytes());
    }
    bloom.clear();
    // all bits are zero, so nothing can test as present
    for x in 0u64..20u64 {
        assert!(!bloom.contains(&x.to_le_bytes()));
    }
    assert_eq!(bloom.num_bits(), 1024);
}

#[test]
fn union_contains_items_of_both() {
    let mut a = BloomFilter::with_num_bits(2048).seed(&5).hashes(4);
    let mut b = BloomFilter::with_num_bits(2048).seed(&5).hashes(4);
    for x in 1u64..50u64 {
        a.insert(&x.to_le_bytes());
    }
    for x in 40u64..90u64 {
        b.insert(&x.to_le_bytes());
    }
    let u = a.union(&b).unwrap();
    for x in 1u64..90u64 {
        assert!(u.contains(&x.to_le_bytes()));
    }
}

#[test]
fn intersect_implies_both_contain() {
    let mut a = BloomFilter::with_num_bits(2048).seed(&5).hashes(4);
    let mut b = BloomFilter::with_num_bits(2048).seed(&5).hashes(4);
    for x in 1u64..50u64 {
        a.insert(&x.to_le_bytes());
    }
    for x in 40u64..90u64 {
        b.insert(&x.to_le_bytes());
    }
    let i = a.intersect(&b).unwrap();
    // items inserted into both are definitely in the intersection
    for x in 40u64..50u64 {
        assert!(i.contains(&x.to_le_bytes()));
    }
    // anything the intersection reports is reported by both inputs
    for x in 0u64..200u64 {
        if i.contains(&x.to_le_bytes()) {
            assert!(a.contains(&x.to_le_bytes()));
            assert!(b.contains(&x.to_le_bytes()));
        }
    }
}

#[test]
fn union_size_mismatch_is_an_error() {
    let a = BloomFilter::with_num_bits(64).hashes(2);
    let b = BloomFilter::with_num_bits(128).hashes(2);
    assert_eq!(a.union(&b).unwrap_err(), FilterError::SizeMismatch);
    assert_eq!(a.intersect(&b).unwrap_err(), FilterError::SizeMismatch);
    assert!(a.union(&a.clone()).is_ok());
}

#[test]
fn from_vec_keeps_the_words() {
    let bloom = BloomFilter::from_vec(vec![0u64; 8]).hashes(2);
    assert_eq!(bloom.num_bits(), 512);
}

#[test]
fn bulk_load_items() {
    let data: Vec<Vec<u8>> = (0u64..30u64).map(|x| x.to_le_bytes().to_vec()).collect();
    let bloom = BloomFilter::with_num_bits(2048).items(&data);
    for x in 0u64..30u64 {
        assert!(bloom.contains(&x.to_le_bytes()));
    }
    assert_eq!(bloom.num_hashes(), fastbloom::optimal_hashes(2048, 30));
}

#[test]
fn insert_hashes_order_independent() {
    let mut a = BloomFilter::with_num_bits(1024).seed(&1).hashes(4);
    let mut b = BloomFilter::with_num_bits(1024).seed(&1).hashes(4);
    a.insert_hashes(&vec![10u64, 20u64, 30u64, 40u64]);
    b.insert_hashes(&vec![40u64, 10u64, 30u64, 20u64]);
    // the same multiset of hashes, in another order: identical answers
    for h in 0u64..512u64 {
        assert_eq!(a.contains_hash(h), b.contains_hash(h));
    }
    for h in [10u64, 20u64, 30u64, 40u64] {
        assert!(a.contains_hash(h));
        assert!(b.contains_hash(h));
    }
}
