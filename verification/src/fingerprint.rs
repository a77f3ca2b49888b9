//! Fingerprints are bit vectors of a fixed length, compared by Hamming
//! distance only.

use vstd::prelude::*;

verus! {

/// Number of bytes in a fingerprint.
pub const FINGERPRINT_BYTES: usize = 8;

/// Number of bits in a fingerprint.
pub const FINGERPRINT_BITS: u64 = 64;

/// Number of bits set in `x`.
pub open spec fn bit_count(x: u8) -> nat
    decreases x,
{
    if x == 0 {
        0
    } else {
        ((x % 2) as nat) + bit_count(x / 2)
    }
}

/// Number of bit positions in which the first `n` bytes of `a` and of `b`
/// differ, byte by byte.
pub open spec fn differing_bits(a: Seq<u8>, b: Seq<u8>, n: int) -> nat
    decreases n,
{
    if n <= 0 {
        0
    } else {
        differing_bits(a, b, n - 1) + bit_count(a[n - 1] ^ b[n - 1])
    }
}

/// Number of bit positions in which `a` and `b` differ, byte by byte, over
/// the bytes that both have.
pub open spec fn hamming(a: Seq<u8>, b: Seq<u8>) -> nat {
    differing_bits(a, b, if a.len() <= b.len() { a.len() as int } else { b.len() as int })
}

/// The threshold that a search applies: a threshold above the fingerprint's
/// bit length stands for that length.
pub open spec fn clamped(threshold: u64) -> u64 {
    if threshold > FINGERPRINT_BITS {
        FINGERPRINT_BITS
    } else {
        threshold
    }
}

/// A byte has at most eight bits set.
pub proof fn lemma_bit_count_bound(x: u8)
    ensures
        bit_count(x) <= 8,
{
    reveal_with_fuel(bit_count, 10);
}

/// Only the zero byte has no bit set.
pub proof fn lemma_bit_count_zero(x: u8)
    ensures
        bit_count(x) == 0 <==> x == 0,
    decreases x,
{
    if x != 0 {
        if x % 2 == 0 {
            lemma_bit_count_zero(x / 2);
        }
    }
}

/// The first `n` bytes of two fingerprints differ in at most `8 * n` bits.
pub proof fn lemma_differing_bits_bound(a: Seq<u8>, b: Seq<u8>, n: int)
    requires
        0 <= n,
    ensures
        differing_bits(a, b, n) <= 8 * n,
    decreases n,
{
    if n > 0 {
        lemma_differing_bits_bound(a, b, n - 1);
        lemma_bit_count_bound(a[n - 1] ^ b[n - 1]);
    }
}

/// Two fingerprints differ in at most eight bits for each byte that both
/// have.
pub proof fn lemma_hamming_bound(a: Seq<u8>, b: Seq<u8>)
    ensures
        hamming(a, b) <= 8 * a.len(),
        hamming(a, b) <= 8 * b.len(),
{
    lemma_differing_bits_bound(a, b, if a.len() <= b.len() { a.len() as int } else { b.len() as int });
}

/// The count does not depend on the order of the two fingerprints.
pub proof fn lemma_differing_bits_symmetric(a: Seq<u8>, b: Seq<u8>, n: int)
    ensures
        differing_bits(a, b, n) == differing_bits(b, a, n),
    decreases n,
{
    if n > 0 {
        lemma_differing_bits_symmetric(a, b, n - 1);
        let x = a[n - 1];
        let y = b[n - 1];
        assert(x ^ y == y ^ x) by (bit_vector);
    }
}

/// The distance does not depend on the order of the two fingerprints.
pub proof fn lemma_hamming_symmetric(a: Seq<u8>, b: Seq<u8>)
    ensures
        hamming(a, b) == hamming(b, a),
{
    lemma_differing_bits_symmetric(a, b, if a.len() <= b.len() { a.len() as int } else { b.len() as int });
}

/// The first `n` bytes differ in no bit exactly when they are the same.
pub proof fn lemma_differing_bits_zero(a: Seq<u8>, b: Seq<u8>, n: int)
    requires
        0 <= n <= a.len(),
        n <= b.len(),
    ensures
        differing_bits(a, b, n) == 0 <==> forall|i: int| 0 <= i < n ==> a[i] == b[i],
    decreases n,
{
    if n > 0 {
        lemma_differing_bits_zero(a, b, n - 1);
        let x = a[n - 1];
        let y = b[n - 1];
        lemma_bit_count_zero(x ^ y);
        assert((x ^ y == 0) <==> x == y) by (bit_vector);
    }
}

/// Fingerprints of one length are at distance zero exactly when they are
/// equal.
pub proof fn lemma_hamming_zero_iff_equal(a: Seq<u8>, b: Seq<u8>)
    requires
        a.len() == b.len(),
    ensures
        hamming(a, b) == 0 <==> a == b,
{
    lemma_differing_bits_zero(a, b, a.len() as int);
    if forall|i: int| 0 <= i < a.len() ==> a[i] == b[i] {
        assert(a =~= b);
    }
}

/// Every threshold selects what its clamped value selects.
pub proof fn lemma_clamped_threshold(a: Seq<u8>, b: Seq<u8>, threshold: u64)
    requires
        a.len() == FINGERPRINT_BYTES || b.len() == FINGERPRINT_BYTES,
    ensures
        hamming(a, b) <= threshold <==> hamming(a, b) <= clamped(threshold),
{
    lemma_hamming_bound(a, b);
}

/// Counts the bits set in `x`.
pub fn count_bits(x: u8) -> (n: u64)
    ensures
        n == bit_count(x),
        n <= 8,
{
    let mut rest: u8 = x;
    let mut n: u64 = 0;
    proof {
        lemma_bit_count_bound(x);
    }
    while rest != 0
        invariant
            n + bit_count(rest) == bit_count(x),
            bit_count(x) <= 8,
        decreases rest,
    {
        n = n + (rest % 2) as u64;
        rest = rest / 2;
    }
    n
}

/// Hamming distance of two fingerprints: the number of bits set in their
/// bitwise exclusive or.
pub fn hamming_distance(a: &[u8; 8], b: &[u8; 8]) -> (d: u64)
    ensures
        d == hamming(a@, b@),
        d <= FINGERPRINT_BITS,
{
    let mut d: u64 = 0;
    let mut i: usize = 0;
    while i < 8
        invariant
            i <= 8,
            d == differing_bits(a@, b@, i as int),
            d <= 8 * i,
        decreases 8 - i,
    {
        let x: u8 = a[i] ^ b[i];
        let c = count_bits(x);
        d = d + c;
        i = i + 1;
    }
    d
}

/// Whether two fingerprints are the same.
pub fn same_fingerprint(a: &[u8; 8], b: &[u8; 8]) -> (same: bool)
    ensures
        same == (a@ == b@),
{
    let mut i: usize = 0;
    while i < 8
        invariant
            i <= 8,
            forall|j: int| 0 <= j < i ==> a@[j] == b@[j],
        decreases 8 - i,
    {
        if a[i] != b[i] {
            return false;
        }
        i = i + 1;
    }
    assert(a@ =~= b@);
    true
}

/// Clamps a threshold to the fingerprint's bit length.
pub fn clamp_threshold(threshold: u64) -> (t: u64)
    ensures
        t == clamped(threshold),
        t <= FINGERPRINT_BITS,
{
    if threshold > FINGERPRINT_BITS {
        FINGERPRINT_BITS
    } else {
        threshold
    }
}

/// Whether `candidate` lies within `threshold` bits of `query`.
pub fn within_threshold(candidate: &[u8; 8], query: &[u8; 8], threshold: u64) -> (near: bool)
    ensures
        near == (hamming(candidate@, query@) <= threshold),
{
    proof {
        lemma_clamped_threshold(candidate@, query@, threshold);
    }
    hamming_distance(candidate, query) <= clamp_threshold(threshold)
}

} // verus!
