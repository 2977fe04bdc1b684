use core::hash::Hasher;
use fastbloom::{positions, CloneBuildHasher, DoubleHasher, RandomDefaultHasher};

#[test]
fn hash_bytes_matches_siphash13() {
    // the library's hashing is exactly SipHash-1-3 under the given key
    let state = RandomDefaultHasher::seeded(&[7u8; 16]);
    let mut reference = siphasher::sip::SipHasher13::new_with_key(&[7u8; 16]);
    reference.write(b"hello world");
    assert_eq!(state.hash_bytes(b"hello world"), reference.finish());

    let empty_state = RandomDefaultHasher::seeded(&[0u8; 16]);
    let empty_reference = siphasher::sip::SipHasher13::new_with_key(&[0u8; 16]);
    assert_eq!(empty_state.hash_bytes(b""), empty_reference.finish());
}

#[test]
fn seeded_hashing_is_deterministic() {
    let a = RandomDefaultHasher::seeded(&[1u8; 16]);
    let b = RandomDefaultHasher::seeded(&[1u8; 16]);
    assert_eq!(a.hash_bytes(b"item"), b.hash_bytes(b"item"));

    let c = RandomDefaultHasher::seeded(&[2u8; 16]);
    assert_ne!(a.hash_bytes(b"item"), c.hash_bytes(b"item"));
}

#[test]
fn default_hashers_use_distinct_seeds() {
    let a = RandomDefaultHasher::default();
    let b = RandomDefaultHasher::default();
    assert_ne!(a.hash_bytes(b""), b.hash_bytes(b""));
}

#[test]
fn clone_build_hasher_hands_out_equal_states() {
    let factory = CloneBuildHasher::new(RandomDefaultHasher::seeded(&[3u8; 16]));
    let copy = factory.build_hasher();
    let fresh = RandomDefaultHasher::seeded(&[3u8; 16]);
    assert_eq!(copy.hash_bytes(b"abc"), fresh.hash_bytes(b"abc"));
}

#[test]
fn double_hasher_is_deterministic() {
    let mut a = DoubleHasher::new(0x0123_4567_89ab_cdef);
    let mut b = DoubleHasher::new(0x0123_4567_89ab_cdef);
    for _ in 0u32..64u32 {
        assert_eq!(a.next(), b.next());
    }
}

#[test]
fn position_sequences_are_reproducible() {
    let first = positions(12345, 7, 1024);
    let second = positions(12345, 7, 1024);
    assert_eq!(first, second);
    assert_eq!(first.len(), 7);
    for p in first {
        assert!(p < 1024);
    }
}

#[test]
fn positions_follow_the_recurrence() {
    // each position is the next hash of the recurrence, reduced mod num_bits
    let h1: u64 = 0xdead_beef_0bad_cafe;
    let ps = positions(h1, 5, 4096);
    let mut dh = DoubleHasher::new(h1);
    for j in 0usize..5usize {
        let expected = (dh.next() % 4096) as usize;
        assert_eq!(ps[j], expected);
    }
}
