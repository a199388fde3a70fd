//! The locality-sensitive hash of an image: one bit per sample of its 8×8
//! grayscale reduction, set where the sample reaches the mean.

use crate::bits::{
    bit_at, hamming, hamming_spec, lemma_bits_determine, lemma_extreme_patterns, popcount,
    popcount_spec,
};
use crate::error::InvalidInput;
use crate::order::Comparison;
use crate::raster::{all_pixels_are, lemma_pixel_channels, RasterImage};
use crate::reduce::{has_reduction, luma_of, luma_plane, reduce, reduced_samples, reducible, SIDE};
use std::cmp::Ordering;
use vstd::prelude::*;
use vstd::std_specs::cmp::PartialOrdSpec;

verus! {

/// The number of samples that a fingerprint is built from.
pub const SAMPLES: usize = 64;

/// The sum of all samples of `s`.
pub open spec fn sum_of(s: Seq<u8>) -> int
    decreases s.len(),
{
    if s.len() == 0 {
        0
    } else {
        sum_of(s.drop_last()) + s.last()
    }
}

/// The integer mean of 64 samples, rounded down.
pub open spec fn mean_of(s: Seq<u8>) -> int {
    sum_of(s) / 64
}

/// The pattern whose bit `i`, for `i < n`, is set exactly where sample `i`
/// reaches `mean`, and whose higher bits are clear.
pub open spec fn pack(s: Seq<u8>, mean: int, n: nat) -> u64
    decreases n,
{
    if n == 0 {
        0
    } else {
        let lower = pack(s, mean, (n - 1) as nat);
        if s[n - 1] >= mean {
            lower | (1u64 << ((n - 1) as u64))
        } else {
            lower
        }
    }
}

/// The fingerprint of 64 samples in scan order.
pub open spec fn fingerprint_of(s: Seq<u8>) -> u64 {
    pack(s, mean_of(s), 64)
}

/// Whether all samples have the same value.
pub open spec fn uniform(s: Seq<u8>) -> bool {
    forall|i: int| 0 <= i < s.len() ==> #[trigger] s[i] == s[0]
}

/// Setting bit `k` changes bit `k` and no other.
proof fn lemma_set_bit(x: u64, k: nat, j: nat)
    requires
        k < 64,
        j < 64,
    ensures
        bit_at(x | (1u64 << (k as u64)), j) == (bit_at(x, j) || j == k),
{
    let ks: u64 = k as u64;
    let js: u64 = j as u64;
    assert((((x | (1u64 << ks)) >> js) & 1 == 1) == (((x >> js) & 1 == 1) || js == ks))
        by (bit_vector)
        requires
            ks < 64,
            js < 64,
    ;
}

/// The bits of a packed pattern: below `n` they follow the samples, from
/// `n` on they are clear.
pub proof fn lemma_pack_bits(s: Seq<u8>, mean: int, n: nat, j: nat)
    requires
        n <= 64,
        j < 64,
    ensures
        bit_at(pack(s, mean, n), j) == (j < n && s[j as int] >= mean),
    decreases n,
{
    if n == 0 {
        let js: u64 = j as u64;
        assert(!((0u64 >> js) & 1 == 1)) by (bit_vector);
    } else {
        let lower = pack(s, mean, (n - 1) as nat);
        lemma_pack_bits(s, mean, (n - 1) as nat, j);
        if s[n - 1] >= mean {
            lemma_set_bit(lower, (n - 1) as nat, j);
        }
    }
}

/// A pattern is the fingerprint of 64 samples exactly when each of its
/// bits tells whether the sample of that position reaches the mean.
pub proof fn lemma_fingerprint_bits(s: Seq<u8>, h: u64)
    ensures
        h == fingerprint_of(s) <==> (forall|i: nat|
            i < 64 ==> bit_at(h, i) == (s[i as int] >= mean_of(s))),
{
    let f = fingerprint_of(s);
    assert forall|i: nat| i < 64 implies bit_at(f, i) == (s[i as int] >= mean_of(s)) by {
        lemma_pack_bits(s, mean_of(s), 64, i);
    }
    if forall|i: nat| i < 64 ==> bit_at(h, i) == (s[i as int] >= mean_of(s)) {
        lemma_bits_determine(h, f);
    }
}

/// Samples that all have the value `v` add up to `v` times their number.
pub proof fn lemma_sum_uniform(s: Seq<u8>, v: u8)
    requires
        forall|i: int| 0 <= i < s.len() ==> s[i] == v,
    ensures
        sum_of(s) == v * s.len(),
    decreases s.len(),
{
    if s.len() == 0 {
        assert(v * s.len() == 0) by (nonlinear_arith)
            requires
                s.len() == 0,
        ;
    } else {
        let rest = s.drop_last();
        lemma_sum_uniform(rest, v);
        assert(sum_of(s) == sum_of(rest) + s.last());
        assert(v * s.len() == v * rest.len() + v) by (nonlinear_arith)
            requires
                s.len() == rest.len() + 1,
        ;
    }
}

/// Where all 64 samples are equal, each of them reaches the mean, and
/// every bit of the fingerprint is set.
pub proof fn lemma_uniform_fingerprint(s: Seq<u8>, v: u8)
    requires
        s.len() == 64,
        forall|i: int| 0 <= i < 64 ==> s[i] == v,
    ensures
        mean_of(s) == v,
        fingerprint_of(s) == u64::MAX,
{
    lemma_sum_uniform(s, v);
    assert forall|i: nat| i < 64 implies bit_at(u64::MAX, i) == (s[i as int] >= mean_of(s)) by {
        lemma_extreme_patterns(i);
    }
    lemma_fingerprint_bits(s, u64::MAX);
}

/// The sum of a sequence is the sum of its two parts.
pub proof fn lemma_sum_split(s: Seq<u8>, k: int)
    requires
        0 <= k <= s.len(),
    ensures
        sum_of(s) == sum_of(s.take(k)) + sum_of(s.skip(k)),
    decreases s.len(),
{
    if k == s.len() {
        assert(s.take(k) =~= s);
        assert(s.skip(k) =~= Seq::<u8>::empty());
    } else {
        lemma_sum_split(s.drop_last(), k);
        assert(s.drop_last().take(k) =~= s.take(k));
        assert(s.drop_last().skip(k) =~= s.skip(k).drop_last());
    }
}

/// Where the first 32 samples have one value and the last 32 a value that
/// is larger by two or more, the mean lies above the first and not above
/// the second: exactly the upper 32 bits of the fingerprint are set.
pub proof fn lemma_two_level_fingerprint(s: Seq<u8>, dark: u8, bright: u8)
    requires
        s.len() == 64,
        dark + 2 <= bright,
        forall|i: int| 0 <= i < 32 ==> s[i] == dark,
        forall|i: int| 32 <= i < 64 ==> s[i] == bright,
    ensures
        dark < mean_of(s) <= bright,
        fingerprint_of(s) == 0xFFFF_FFFF_0000_0000u64,
{
    lemma_sum_split(s, 32);
    lemma_sum_uniform(s.take(32), dark);
    lemma_sum_uniform(s.skip(32), bright);
    assert(sum_of(s) == 32 * dark + 32 * bright);
    assert forall|i: nat| i < 64 implies bit_at(0xFFFF_FFFF_0000_0000u64, i) == (s[i as int]
        >= mean_of(s)) by {
        let at: u64 = i as u64;
        assert(((0xFFFF_FFFF_0000_0000u64 >> at) & 1 == 1) == (at >= 32)) by (bit_vector)
            requires
                at < 64,
        ;
    }
    lemma_fingerprint_bits(s, 0xFFFF_FFFF_0000_0000u64);
}

/// The luminance plane of a buffer of one colour has one value.
pub proof fn lemma_uniform_luma_plane(rgb: Seq<u8>, r: u8, g: u8, b: u8)
    requires
        all_pixels_are(rgb, r, g, b),
    ensures
        uniform(luma_plane(rgb)),
        forall|i: int| 0 <= i < luma_plane(rgb).len() ==> luma_plane(rgb)[i] == luma_of(r, g, b),
{
    let plane = luma_plane(rgb);
    assert forall|i: int| 0 <= i < plane.len() implies plane[i] == luma_of(r, g, b) by {
        lemma_pixel_channels(rgb, r, g, b, i);
    }
}

/// An 8 × 8 image of one colour, whatever the colour, has the fingerprint
/// with every bit set.
pub proof fn lemma_uniform_raster_fingerprint(rgb: Seq<u8>, r: u8, g: u8, b: u8)
    requires
        rgb.len() == 192,
        all_pixels_are(rgb, r, g, b),
    ensures
        fingerprint_of(luma_plane(rgb)) == u64::MAX,
{
    lemma_uniform_luma_plane(rgb, r, g, b);
    lemma_uniform_fingerprint(luma_plane(rgb), luma_of(r, g, b));
}

/// Locality-sensitive hash of an image.
///
/// Two hashes are meant to be compared by equality or by Hamming distance.
/// As a sorting key the hash only separates clusters of hashes with the
/// same number of set bits, so its order is partial.
#[derive(Debug, Clone, Copy, PartialEq, Eq, Structural)]
pub struct LsHash(u64);

impl View for LsHash {
    type V = u64;

    closed spec fn view(&self) -> u64 {
        self.0
    }
}

/// Two hashes are the same value exactly when their patterns are the same.
pub proof fn lemma_same_pattern_same_hash(a: LsHash, b: LsHash)
    ensures
        (a@ == b@) <==> (a == b),
{
}

impl LsHash {
    /// The number of set bits of the hash.
    pub open spec fn ones(self) -> nat {
        popcount_spec(self@)
    }

    /// How `self` relates to `other`: by the number of set bits, with equal
    /// counts of different patterns left unordered.
    pub open spec fn compare_spec(self, other: LsHash) -> Comparison {
        if self@ == other@ {
            Comparison::Equal
        } else if self.ones() < other.ones() {
            Comparison::Less
        } else if self.ones() > other.ones() {
            Comparison::Greater
        } else {
            Comparison::Incomparable
        }
    }

    /// Wraps a 64-bit pattern.
    pub fn new(lshash: u64) -> (h: Self)
        ensures
            h@ == lshash,
    {
        Self(lshash)
    }

    /// The 64-bit pattern of the hash.
    pub fn bits(&self) -> (b: u64)
        ensures
            b == self@,
    {
        self.0
    }

    /// The number of set bits of the hash.
    pub fn count_ones(&self) -> (n: u32)
        ensures
            n == self.ones(),
            n <= 64,
    {
        popcount(self.0)
    }

    /// Builds the hash of 64 grayscale samples in scan order: bit `i` is
    /// set exactly where sample `i` is at least the samples' integer mean.
    /// Any other number of samples is refused.
    pub fn from_samples(samples: &Vec<u8>) -> (r: Result<Self, InvalidInput>)
        ensures
            r is Ok <==> samples@.len() == 64,
            r matches Ok(h) ==> h@ == fingerprint_of(samples@) && forall|i: nat|
                i < 64 ==> bit_at(h@, i) == (samples@[i as int] >= mean_of(samples@)),
            r matches Ok(h) ==> (uniform(samples@) ==> h@ == u64::MAX),
    {
        if samples.len() != SAMPLES {
            return Err(InvalidInput);
        }
        let mut sum: u64 = 0;
        let mut i: usize = 0;
        while i < SAMPLES
            invariant
                samples@.len() == 64,
                i <= 64,
                sum == sum_of(samples@.take(i as int)),
                sum <= 255 * i,
            decreases 64 - i,
        {
            assert(samples@.take(i + 1).drop_last() =~= samples@.take(i as int));
            sum += samples[i] as u64;
            i += 1;
        }
        assert(samples@.take(64) =~= samples@);
        let mean: u64 = sum / 64;
        let mut acc: u64 = 0;
        let mut k: usize = 0;
        while k < SAMPLES
            invariant
                samples@.len() == 64,
                k <= 64,
                mean == mean_of(samples@),
                acc == pack(samples@, mean as int, k as nat),
            decreases 64 - k,
        {
            if samples[k] as u64 >= mean {
                acc = acc | (1u64 << k);
            }
            k += 1;
        }
        proof {
            assert forall|j: nat| j < 64 implies bit_at(acc, j) == (samples@[j as int] >= mean_of(
                samples@,
            )) by {
                lemma_pack_bits(samples@, mean as int, 64, j);
            }
            if uniform(samples@) {
                lemma_uniform_fingerprint(samples@, samples@[0]);
            }
        }
        Ok(Self(acc))
    }

    /// Finds the hash of an image: the raster is reduced to 8 × 8 grayscale
    /// samples, and the hash is built from those. A raster that cannot be
    /// reduced is refused. Where the reduction has one value only, every
    /// bit of the hash is set.
    pub fn find(original: &RasterImage) -> (r: Result<Self, InvalidInput>)
        ensures
            r is Ok <==> reducible(original),
            r matches Ok(h) ==> h@ == fingerprint_of(
                reduced_samples(original.width, original.height, original.pixels@),
            ) && has_reduction(original),
            r matches Ok(h) ==> (original.width == SIDE && original.height == SIDE ==> h@
                == fingerprint_of(luma_plane(original.pixels@))),
            r matches Ok(h) ==> (uniform(
                reduced_samples(original.width, original.height, original.pixels@),
            ) ==> h@ == u64::MAX),
    {
        match reduce(original) {
            Ok(samples) => Self::from_samples(&samples),
            Err(e) => Err(e),
        }
    }

    /// The Hamming distance to `other`: the number of bit positions in
    /// which the two hashes differ. A measure of similarity, not an order.
    pub fn hamming_distance(&self, other: &Self) -> (d: u32)
        ensures
            d == popcount_spec(self@ ^ other@),
            d == hamming_spec(self@, other@),
            d <= 64,
    {
        hamming(self.0, other.0)
    }

    /// Compares two hashes under the partial order of their bit counts.
    pub fn compare(&self, other: &Self) -> (c: Comparison)
        ensures
            c == self.compare_spec(*other),
    {
        if self.0 == other.0 {
            return Comparison::Equal;
        }
        let mine = popcount(self.0);
        let theirs = popcount(other.0);
        if mine < theirs {
            Comparison::Less
        } else if mine > theirs {
            Comparison::Greater
        } else {
            Comparison::Incomparable
        }
    }
}

/// Different hashes with the same number of set bits are unordered, from
/// either side: neither is less than the other, and they are not equal.
pub proof fn lemma_equal_counts_unordered(a: LsHash, b: LsHash)
    requires
        a@ != b@,
        a.ones() == b.ones(),
    ensures
        a.compare_spec(b) == Comparison::Incomparable,
        b.compare_spec(a) == Comparison::Incomparable,
        a.partial_cmp_spec(&b) is None,
        b.partial_cmp_spec(&a) is None,
        a != b,
{
}

/// A hash with fewer set bits is less than one with more, whatever the
/// patterns are.
pub proof fn lemma_fewer_ones_is_less(a: LsHash, b: LsHash)
    requires
        a.ones() < b.ones(),
    ensures
        a.compare_spec(b) == Comparison::Less,
        b.compare_spec(a) == Comparison::Greater,
        a.partial_cmp_spec(&b) == Some(Ordering::Less),
{
}

/// Comparing from the other side reverses the outcome, and only the same
/// hash compares as equal.
pub proof fn lemma_hash_order_reverses(a: LsHash, b: LsHash)
    ensures
        b.compare_spec(a) == a.compare_spec(b).reversed(),
        a.compare_spec(b) == Comparison::Equal <==> a == b,
{
}

/// Being less is transitive.
pub proof fn lemma_hash_order_transitive(a: LsHash, b: LsHash, c: LsHash)
    requires
        a.compare_spec(b) == Comparison::Less,
        b.compare_spec(c) == Comparison::Less,
    ensures
        a.compare_spec(c) == Comparison::Less,
{
}

impl PartialOrd for LsHash {
    /// The standard library's view of [`LsHash::compare`]: `None` where the
    /// two hashes are unordered.
    fn partial_cmp(&self, other: &Self) -> (o: Option<Ordering>) {
        self.compare(other).to_ordering()
    }
}

impl vstd::std_specs::cmp::PartialOrdSpecImpl for LsHash {
    open spec fn obeys_partial_cmp_spec() -> bool {
        true
    }

    open spec fn partial_cmp_spec(&self, other: &LsHash) -> Option<Ordering> {
        self.compare_spec(*other).ordering()
    }
}

} // verus!
