//! The filter's general guarantees, stated over the spec-level model and
//! proved once and for all: no false negatives, order independence of
//! inserts, monotonicity of queries, and soundness of union and intersection.

use vstd::prelude::*;
use crate::bits::{lemma_bit_coords, lemma_word_and_bit, lemma_word_or_bit, spec_bit};
use crate::filter::{hits, spec_contains};
use crate::hasher::hash_index;

verus! {

/// The state of bit `i` after inserting the hashes of `hs`, in order, into a
/// bit array that started as `words`: each insert sets the `k` positions its
/// hash maps to and leaves every other bit unchanged, exactly as
/// `BloomFilter::insert_hash` ensures.
pub open spec fn bit_after_inserts(words: Seq<u64>, hs: Seq<u64>, k: int, i: int) -> bool
    decreases hs.len(),
{
    if hs.len() == 0 {
        spec_bit(words, i)
    } else {
        bit_after_inserts(words, hs.drop_last(), k, i) || hits(
            hs.last(),
            k,
            words.len() as int * 64,
            i,
        )
    }
}

/// After inserting the hashes of `hs`, bit `i` is set exactly when it was set
/// before or some hash of `hs` maps to it — which hash set it, and when, does
/// not matter.
pub proof fn lemma_bit_after_inserts(words: Seq<u64>, hs: Seq<u64>, k: int, i: int)
    ensures
        bit_after_inserts(words, hs, k, i) <==> (spec_bit(words, i) || exists|m: int|
            0 <= m < hs.len() && hits(#[trigger] hs[m], k, words.len() as int * 64, i)),
    decreases hs.len(),
{
    let nb = words.len() as int * 64;
    if hs.len() > 0 {
        lemma_bit_after_inserts(words, hs.drop_last(), k, i);
        assert(hs.last() == hs[hs.len() - 1]);
        assert forall|m: int| 0 <= m < hs.len() - 1 implies hs.drop_last()[m] == hs[m] by {}
        if exists|m: int| 0 <= m < hs.len() && hits(#[trigger] hs[m], k, nb, i) {
            let m = choose|m: int| 0 <= m < hs.len() && hits(#[trigger] hs[m], k, nb, i);
            if m < hs.len() - 1 {
                assert(hits(hs.drop_last()[m], k, nb, i));
            }
        }
    }
}

/// No false negatives: once an item's hash stands anywhere in the sequence of
/// inserted hashes, every bit position of that item is set after the whole
/// sequence of inserts completes — however many other items follow it and in
/// whatever order.
pub proof fn lemma_no_false_negatives(words: Seq<u64>, hs: Seq<u64>, h1: u64, k: int)
    requires
        words.len() >= 1,
        hs.contains(h1),
    ensures
        forall|j: int|
            0 <= j < k ==> bit_after_inserts(
                words,
                hs,
                k,
                #[trigger] hash_index(h1, j, words.len() as int * 64),
            ),
{
    let nb = words.len() as int * 64;
    assert forall|j: int| 0 <= j < k implies bit_after_inserts(
        words,
        hs,
        k,
        #[trigger] hash_index(h1, j, nb),
    ) by {
        let i = hash_index(h1, j, nb);
        let m = choose|m: int| 0 <= m < hs.len() && hs[m] == h1;
        assert(hits(hs[m], k, nb, i));
        lemma_bit_after_inserts(words, hs, k, i);
    }
}

/// Monotonic bit-set: an item contained in a bit array stays contained in any
/// array of the same length whose set bits are a superset — in particular
/// after any further insert.
pub proof fn lemma_contains_monotone(b1: Seq<u64>, b2: Seq<u64>, h1: u64, k: int)
    requires
        b1.len() >= 1,
        b1.len() == b2.len(),
        forall|i: int| 0 <= i < b1.len() * 64 ==> (spec_bit(b1, i) ==> spec_bit(b2, i)),
        spec_contains(b1, h1, k),
    ensures
        spec_contains(b2, h1, k),
{
    let nb = b1.len() as int * 64;
    assert forall|j: int| 0 <= j < k implies spec_bit(b2, #[trigger] hash_index(h1, j, nb)) by {
        let i = hash_index(h1, j, nb);
        assert(0 <= i < nb);
        assert(spec_bit(b1, i));
    }
}

/// Order independence: inserting the same multiset of hashes, in any order,
/// yields the same set bits, and therefore the same `contains` answer for
/// every item.
pub proof fn lemma_order_independence(words: Seq<u64>, hs1: Seq<u64>, hs2: Seq<u64>, k: int)
    requires
        hs1.to_multiset() == hs2.to_multiset(),
    ensures
        forall|i: int|
            #[trigger] bit_after_inserts(words, hs1, k, i) <==> #[trigger] bit_after_inserts(
                words,
                hs2,
                k,
                i,
            ),
{
    broadcast use vstd::seq_lib::group_to_multiset_ensures;

    let nb = words.len() as int * 64;
    assert forall|i: int|
        #[trigger] bit_after_inserts(words, hs1, k, i) <==> #[trigger] bit_after_inserts(
        words,
        hs2,
        k,
        i,
    ) by {
        lemma_bit_after_inserts(words, hs1, k, i);
        lemma_bit_after_inserts(words, hs2, k, i);
        if exists|m: int| 0 <= m < hs1.len() && hits(#[trigger] hs1[m], k, nb, i) {
            let m = choose|m: int| 0 <= m < hs1.len() && hits(#[trigger] hs1[m], k, nb, i);
            assert(hs1.contains(hs1[m]));
            assert(hs1.to_multiset().count(hs1[m]) > 0);
            assert(hs2.to_multiset().count(hs1[m]) > 0);
            assert(hs2.contains(hs1[m]));
            let m2 = choose|m2: int| 0 <= m2 < hs2.len() && hs2[m2] == hs1[m];
            assert(hits(hs2[m2], k, nb, i));
        }
        if exists|m: int| 0 <= m < hs2.len() && hits(#[trigger] hs2[m], k, nb, i) {
            let m = choose|m: int| 0 <= m < hs2.len() && hits(#[trigger] hs2[m], k, nb, i);
            assert(hs2.contains(hs2[m]));
            assert(hs2.to_multiset().count(hs2[m]) > 0);
            assert(hs1.to_multiset().count(hs2[m]) > 0);
            assert(hs1.contains(hs2[m]));
            let m1 = choose|m1: int| 0 <= m1 < hs1.len() && hs1[m1] == hs2[m];
            assert(hits(hs1[m1], k, nb, i));
        }
    }
}

/// Union soundness: a filter whose words are the word-wise OR of `a`'s and
/// `b`'s contains every item that `a` or `b` contains.
pub proof fn lemma_union_contains(a: Seq<u64>, b: Seq<u64>, u: Seq<u64>, h1: u64, k: int)
    requires
        a.len() >= 1,
        b.len() == a.len(),
        u.len() == a.len(),
        forall|w: int| 0 <= w < u.len() ==> u[w] == (a[w] | b[w]),
        spec_contains(a, h1, k) || spec_contains(b, h1, k),
    ensures
        spec_contains(u, h1, k),
{
    let nb = a.len() as int * 64;
    assert forall|j: int| 0 <= j < k implies spec_bit(u, #[trigger] hash_index(h1, j, nb)) by {
        let i = hash_index(h1, j, nb);
        assert(0 <= i < nb);
        lemma_bit_coords(i, a.len() as int);
        lemma_word_or_bit(a[i / 64], b[i / 64], (i % 64) as u64);
        assert(spec_bit(a, i) || spec_bit(b, i));
    }
}

/// Intersection soundness: an item contained in a filter whose words are the
/// word-wise AND of `a`'s and `b`'s is contained in both `a` and `b`.
pub proof fn lemma_intersect_contains(a: Seq<u64>, b: Seq<u64>, n: Seq<u64>, h1: u64, k: int)
    requires
        a.len() >= 1,
        b.len() == a.len(),
        n.len() == a.len(),
        forall|w: int| 0 <= w < n.len() ==> n[w] == (a[w] & b[w]),
        spec_contains(n, h1, k),
    ensures
        spec_contains(a, h1, k),
        spec_contains(b, h1, k),
{
    let nb = a.len() as int * 64;
    assert forall|j: int| 0 <= j < k implies spec_bit(a, #[trigger] hash_index(h1, j, nb))
        && spec_bit(b, hash_index(h1, j, nb)) by {
        let i = hash_index(h1, j, nb);
        assert(0 <= i < nb);
        lemma_bit_coords(i, a.len() as int);
        assert(spec_bit(n, i));
        lemma_word_and_bit(a[i / 64], b[i / 64], (i % 64) as u64);
    }
}

} // verus!
