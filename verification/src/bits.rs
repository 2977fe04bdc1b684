//! The word-level bit-array layer: a fixed-length sequence of 64-bit words,
//! with single-bit set and test, clearing, and word-wise OR / AND.

use vstd::prelude::*;

verus! {

/// Whether bit `i` of the array modelled by `words` is set. Bit `i` lives in
/// word `i / 64` at offset `i % 64`.
pub open spec fn spec_bit(words: Seq<u64>, i: int) -> bool
    recommends
        0 <= i < words.len() * 64,
{
    (words[i / 64] >> ((i % 64) as u64)) & 1 == 1
}

/// Bit `i` of an array of `len` words lies in a valid word at a valid offset.
pub proof fn lemma_bit_coords(i: int, len: int)
    requires
        0 <= i < len * 64,
    ensures
        0 <= i / 64 < len,
        0 <= i % 64 < 64,
        i == (i / 64) * 64 + i % 64,
{
    vstd::arithmetic::div_mod::lemma_fundamental_div_mod(i, 64);
    assert(0 <= i / 64 < len) by (nonlinear_arith)
        requires
            0 <= i < len * 64,
    ;
}

/// Two bits share an index exactly when they share a word and an offset.
pub proof fn lemma_bit_coords_injective(i: int, t: int)
    requires
        0 <= i,
        0 <= t,
    ensures
        (i == t) <==> (i / 64 == t / 64 && i % 64 == t % 64),
{
    vstd::arithmetic::div_mod::lemma_fundamental_div_mod(i, 64);
    vstd::arithmetic::div_mod::lemma_fundamental_div_mod(t, 64);
}

/// Setting one bit of a word leaves that bit set and every other bit as it
/// was.
proof fn lemma_word_set_bit(w: u64, s: u64, t: u64)
    requires
        s < 64,
        t < 64,
    ensures
        ((w | (1u64 << s)) >> t) & 1 == 1 <==> ((w >> t) & 1 == 1 || t == s),
{
    assert(((w | (1u64 << s)) >> t) & 1 == 1 <==> ((w >> t) & 1 == 1 || t == s)) by (bit_vector)
        requires
            s < 64,
            t < 64,
    ;
}

/// A bit of an OR of two words is set exactly when it is set in either word.
pub proof fn lemma_word_or_bit(a: u64, b: u64, t: u64)
    requires
        t < 64,
    ensures
        ((a | b) >> t) & 1 == 1 <==> ((a >> t) & 1 == 1 || (b >> t) & 1 == 1),
{
    assert(((a | b) >> t) & 1 == 1 <==> ((a >> t) & 1 == 1 || (b >> t) & 1 == 1)) by (bit_vector)
        requires
            t < 64,
    ;
}

/// A bit of an AND of two words is set exactly when it is set in both words.
pub proof fn lemma_word_and_bit(a: u64, b: u64, t: u64)
    requires
        t < 64,
    ensures
        ((a & b) >> t) & 1 == 1 <==> ((a >> t) & 1 == 1 && (b >> t) & 1 == 1),
{
    assert(((a & b) >> t) & 1 == 1 <==> ((a >> t) & 1 == 1 && (b >> t) & 1 == 1)) by (bit_vector)
        requires
            t < 64,
    ;
}

/// No bit of a zero word is set.
pub proof fn lemma_word_zero_bit(t: u64)
    requires
        t < 64,
    ensures
        (0u64 >> t) & 1 == 0,
{
    assert((0u64 >> t) & 1 == 0) by (bit_vector)
        requires
            t < 64,
    ;
}

/// Sets bit `i` to 1, leaving every other bit as it was. Idempotent in
/// effect: setting an already-set bit changes nothing observable.
pub fn set_bit(words: &mut Vec<u64>, i: usize)
    requires
        i < old(words)@.len() * 64,
    ensures
        final(words)@.len() == old(words)@.len(),
        forall|t: int|
            0 <= t < final(words)@.len() * 64 ==> (spec_bit(final(words)@, t) <==> (spec_bit(
                old(words)@,
                t,
            ) || t == i as int)),
{
    proof {
        lemma_bit_coords(i as int, words@.len() as int);
    }
    let w = i / 64;
    let s = (i % 64) as u64;
    let updated = words[w] | (1u64 << s);
    words[w] = updated;
    proof {
        assert(words@[i as int / 64] == (old(words)@[i as int / 64] | (1u64 << s)));
        assert forall|t: int| 0 <= t < words@.len() * 64 implies (spec_bit(words@, t) <==> (
        spec_bit(old(words)@, t) || t == i as int)) by {
            lemma_bit_coords(t, words@.len() as int);
            lemma_bit_coords_injective(t, i as int);
            if t / 64 == i as int / 64 {
                lemma_word_set_bit(old(words)@[t / 64], s, (t % 64) as u64);
                assert(spec_bit(words@, t) <==> (spec_bit(old(words)@, t) || t % 64 == i as int
                    % 64));
            } else {
                assert(words@[t / 64] == old(words)@[t / 64]);
            }
        }
    }
}

/// Whether bit `i` is set.
pub fn get_bit(words: &Vec<u64>, i: usize) -> (r: bool)
    requires
        i < words@.len() * 64,
    ensures
        r == spec_bit(words@, i as int),
{
    proof {
        lemma_bit_coords(i as int, words@.len() as int);
    }
    let w = i / 64;
    let s = (i % 64) as u64;
    (words[w] >> s) & 1 == 1
}

/// A fresh vector of `len` zeroed words.
pub fn zero_words(len: usize) -> (r: Vec<u64>)
    ensures
        r@.len() == len,
        forall|w: int| 0 <= w < len ==> r@[w] == 0u64,
        forall|t: int| 0 <= t < len * 64 ==> !spec_bit(r@, t),
{
    let mut v: Vec<u64> = Vec::new();
    while v.len() < len
        invariant
            v@.len() <= len,
            forall|w: int| 0 <= w < v@.len() ==> v@[w] == 0u64,
        decreases len - v@.len(),
    {
        v.push(0u64);
    }
    proof {
        assert forall|t: int| 0 <= t < len * 64 implies !spec_bit(v@, t) by {
            lemma_bit_coords(t, len as int);
            lemma_word_zero_bit((t % 64) as u64);
        }
    }
    v
}

/// The word-wise OR of two arrays of equal length.
pub fn or_words(a: &Vec<u64>, b: &Vec<u64>) -> (r: Vec<u64>)
    requires
        a@.len() == b@.len(),
    ensures
        r@.len() == a@.len(),
        forall|w: int| 0 <= w < r@.len() ==> r@[w] == (a@[w] | b@[w]),
{
    let mut v: Vec<u64> = Vec::new();
    let mut w: usize = 0;
    while w < a.len()
        invariant
            w <= a@.len(),
            a@.len() == b@.len(),
            v@.len() == w,
            forall|t: int| 0 <= t < w ==> v@[t] == (a@[t] | b@[t]),
        decreases a@.len() - w,
    {
        v.push(a[w] | b[w]);
        w = w + 1;
    }
    v
}

/// The word-wise AND of two arrays of equal length.
pub fn and_words(a: &Vec<u64>, b: &Vec<u64>) -> (r: Vec<u64>)
    requires
        a@.len() == b@.len(),
    ensures
        r@.len() == a@.len(),
        forall|w: int| 0 <= w < r@.len() ==> r@[w] == (a@[w] & b@[w]),
{
    let mut v: Vec<u64> = Vec::new();
    let mut w: usize = 0;
    while w < a.len()
        invariant
            w <= a@.len(),
            a@.len() == b@.len(),
            v@.len() == w,
            forall|t: int| 0 <= t < w ==> v@[t] == (a@[t] & b@[t]),
        decreases a@.len() - w,
    {
        v.push(a[w] & b[w]);
        w = w + 1;
    }
    v
}

} // verus!
