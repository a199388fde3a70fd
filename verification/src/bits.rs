//! Bit-level vocabulary for 64-bit patterns: single bits, population count
//! and the number of positions in which two patterns differ.

use vstd::prelude::*;

verus! {

/// Whether bit `i` of `x` is set. Bit 0 is the least significant one.
pub open spec fn bit_at(x: u64, i: nat) -> bool {
    (x >> (i as u64)) & 1 == 1
}

/// The number of set bits among the lowest `n` bits of `x`.
pub open spec fn count_set(x: u64, n: nat) -> nat
    decreases n,
{
    if n == 0 {
        0
    } else {
        count_set(x, (n - 1) as nat) + if bit_at(x, (n - 1) as nat) {
            1nat
        } else {
            0nat
        }
    }
}

/// The number of set bits of `x`.
pub open spec fn popcount_spec(x: u64) -> nat {
    count_set(x, 64)
}

/// The number of positions below `n` in which `a` and `b` differ.
pub open spec fn count_differing(a: u64, b: u64, n: nat) -> nat
    decreases n,
{
    if n == 0 {
        0
    } else {
        count_differing(a, b, (n - 1) as nat) + if bit_at(a, (n - 1) as nat) != bit_at(
            b,
            (n - 1) as nat,
        ) {
            1nat
        } else {
            0nat
        }
    }
}

/// The Hamming distance of two 64-bit patterns.
pub open spec fn hamming_spec(a: u64, b: u64) -> nat {
    count_differing(a, b, 64)
}

/// A bit of `a ^ b` is set exactly where `a` and `b` differ.
pub proof fn lemma_xor_bit(a: u64, b: u64, i: nat)
    requires
        i < 64,
    ensures
        bit_at(a ^ b, i) == (bit_at(a, i) != bit_at(b, i)),
{
    let s: u64 = i as u64;
    assert((((a ^ b) >> s) & 1 == 1) == (((a >> s) & 1 == 1) != ((b >> s) & 1 == 1)))
        by (bit_vector)
        requires
            s < 64,
    ;
}

/// The set bits of `a ^ b` are counted by the differing positions of `a` and `b`.
pub proof fn lemma_xor_counts_differing(a: u64, b: u64, n: nat)
    requires
        n <= 64,
    ensures
        count_set(a ^ b, n) == count_differing(a, b, n),
    decreases n,
{
    if n > 0 {
        lemma_xor_counts_differing(a, b, (n - 1) as nat);
        lemma_xor_bit(a, b, (n - 1) as nat);
    }
}

/// The lowest `n` bits of `x`, the others cleared.
pub open spec fn low_bits(x: u64, n: nat) -> u64 {
    if n == 0 {
        0
    } else {
        x & (u64::MAX >> ((64 - n) as u64))
    }
}

/// Patterns that agree in each of their lowest `n` bits have the same
/// lowest `n` bits.
pub proof fn lemma_low_bits_agree(a: u64, b: u64, n: nat)
    requires
        n <= 64,
        forall|i: nat| i < n ==> bit_at(a, i) == bit_at(b, i),
    ensures
        low_bits(a, n) == low_bits(b, n),
    decreases n,
{
    if n > 0 {
        let m: nat = (n - 1) as nat;
        lemma_low_bits_agree(a, b, m);
        assert(bit_at(a, m) == bit_at(b, m));
        let s: u64 = m as u64;
        let u: u64 = (63 - m) as u64;
        let w: u64 = (64 - m) as u64;
        assert(a & (u64::MAX >> u) == b & (u64::MAX >> u)) by (bit_vector)
            requires
                s < 64,
                u < 64,
                u + s == 63,
                w == u + 1,
                s == 0 || (a & (u64::MAX >> w)) == (b & (u64::MAX >> w)),
                ((a >> s) & 1 == 1) == ((b >> s) & 1 == 1),
        ;
    }
}

/// A pattern is determined by its 64 bits.
pub proof fn lemma_bits_determine(a: u64, b: u64)
    requires
        forall|i: nat| i < 64 ==> bit_at(a, i) == bit_at(b, i),
    ensures
        a == b,
{
    lemma_low_bits_agree(a, b, 64);
    assert(a & (u64::MAX >> 0) == a) by (bit_vector);
    assert(b & (u64::MAX >> 0) == b) by (bit_vector);
}

/// Every bit of the all-ones pattern is set, and none of zero.
pub proof fn lemma_extreme_patterns(i: nat)
    requires
        i < 64,
    ensures
        bit_at(u64::MAX, i),
        !bit_at(0, i),
{
    let s: u64 = i as u64;
    assert((u64::MAX >> s) & 1 == 1) by (bit_vector)
        requires
            s < 64,
    ;
    assert(!((0u64 >> s) & 1 == 1)) by (bit_vector);
}

/// Counting differing positions does not depend on the order of the two
/// patterns.
pub proof fn lemma_differing_symmetric(a: u64, b: u64, n: nat)
    ensures
        count_differing(a, b, n) == count_differing(b, a, n),
    decreases n,
{
    if n > 0 {
        lemma_differing_symmetric(a, b, (n - 1) as nat);
    }
}

/// No position differs exactly when the lowest `n` bits agree.
pub proof fn lemma_differing_zero(a: u64, b: u64, n: nat)
    ensures
        count_differing(a, b, n) == 0 <==> (forall|i: nat| i < n ==> bit_at(a, i) == bit_at(b, i)),
    decreases n,
{
    if n > 0 {
        lemma_differing_zero(a, b, (n - 1) as nat);
    }
}

/// Going from `a` to `c` by way of `b` changes at least as many positions
/// as going directly.
pub proof fn lemma_differing_triangle(a: u64, b: u64, c: u64, n: nat)
    ensures
        count_differing(a, c, n) <= count_differing(a, b, n) + count_differing(b, c, n),
    decreases n,
{
    if n > 0 {
        lemma_differing_triangle(a, b, c, (n - 1) as nat);
    }
}

/// The Hamming distance is a metric on 64-bit patterns: it is zero
/// between equal patterns only, symmetric, and obeys the triangle
/// inequality.
pub proof fn lemma_hamming_metric(a: u64, b: u64, c: u64)
    ensures
        hamming_spec(a, b) == 0 <==> a == b,
        hamming_spec(a, b) == hamming_spec(b, a),
        hamming_spec(a, c) <= hamming_spec(a, b) + hamming_spec(b, c),
{
    lemma_differing_zero(a, b, 64);
    if hamming_spec(a, b) == 0 {
        lemma_bits_determine(a, b);
    }
    lemma_differing_symmetric(a, b, 64);
    lemma_differing_triangle(a, b, c, 64);
}

/// The number of set bits of `x`.
pub fn popcount(x: u64) -> (n: u32)
    ensures
        n == popcount_spec(x),
        n <= 64,
{
    let mut n: u32 = 0;
    let mut i: u32 = 0;
    while i < 64
        invariant
            i <= 64,
            n == count_set(x, i as nat),
            n <= i,
        decreases 64 - i,
    {
        if (x >> i) & 1 == 1 {
            n += 1;
        }
        i += 1;
    }
    n
}

/// The number of bit positions in which `a` and `b` differ.
pub fn hamming(a: u64, b: u64) -> (d: u32)
    ensures
        d == popcount_spec(a ^ b),
        d == hamming_spec(a, b),
        d <= 64,
{
    proof {
        lemma_xor_counts_differing(a, b, 64);
    }
    popcount(a ^ b)
}

} // verus!
