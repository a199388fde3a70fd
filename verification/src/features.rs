//! The features of an image as one comparison key: its hash first, its hue
//! second.

use crate::error::InvalidInput;
use crate::hue::{hue_of, lemma_same_angle_same_hue, Hue};
use crate::img::ImgRaw;
use crate::lshash::{
    fingerprint_of, lemma_same_pattern_same_hash, lemma_uniform_fingerprint, uniform, LsHash,
};
use crate::order::Comparison;
use crate::raster::RasterImage;
use crate::reduce::{has_reduction, luma_plane, reduced_samples, reducible, SIDE};
use std::cmp::Ordering;
use vstd::prelude::*;
use vstd::std_specs::cmp::PartialOrdSpec;

verus! {

/// Features of an image.
///
/// A key for sorting a number of images: the hash has priority over the
/// hue, and the hue is consulted only between images with the same hash.
/// Images whose hashes are unordered stay unordered.
#[derive(Debug, Clone, Copy, PartialEq, Eq, Structural)]
pub struct ImgFeatures {
    /// Locality-sensitive hash of the image.
    pub lshash: LsHash,
    /// Hue characteristic of the image.
    pub hue: Hue,
}

impl ImgFeatures {
    /// How `self` relates to `other`: by the hashes, and between equal
    /// hashes by the hues.
    pub open spec fn compare_spec(self, other: ImgFeatures) -> Comparison {
        match self.lshash.compare_spec(other.lshash) {
            Comparison::Equal => self.hue.compare_spec(other.hue),
            decided => decided,
        }
    }

    /// Whether `self` holds the features of the given raster: the hash of
    /// its reduction, which has 64 samples, and the hue of its pixels.
    pub open spec fn describes(self, original: &RasterImage) -> bool {
        &&& has_reduction(original)
        &&& self.lshash@ == fingerprint_of(
            reduced_samples(original.width, original.height, original.pixels@),
        )
        &&& self.hue@ == hue_of(original.pixels@)
        &&& self.hue.is_normalized()
    }

    /// Finds the features of an image: its hash and its hue, each from the
    /// same pixels and independent of the other.
    pub fn find(original: &ImgRaw) -> (r: Result<Self, InvalidInput>)
        ensures
            r is Ok <==> reducible(&original.data),
            r matches Ok(f) ==> f.describes(&original.data),
            r matches Ok(f) ==> (original.data.width == SIDE && original.data.height == SIDE
                ==> f.lshash@ == fingerprint_of(luma_plane(original.data.pixels@))),
            r matches Ok(f) ==> (uniform(
                reduced_samples(
                    original.data.width,
                    original.data.height,
                    original.data.pixels@,
                ),
            ) ==> f.lshash@ == u64::MAX),
    {
        let lshash = match LsHash::find(&original.data) {
            Ok(h) => h,
            Err(e) => {
                return Err(e);
            },
        };
        let hue = match Hue::find(&original.data) {
            Ok(h) => h,
            Err(e) => {
                return Err(e);
            },
        };
        Ok(ImgFeatures { lshash, hue })
    }

    /// Compares two feature vectors. Unordered hashes make the vectors
    /// unordered, whatever the hues are.
    pub fn compare(&self, other: &Self) -> (c: Comparison)
        ensures
            c == self.compare_spec(*other),
    {
        match self.lshash.compare(&other.lshash) {
            Comparison::Equal => self.hue.compare(&other.hue),
            decided => decided,
        }
    }
}

/// Extraction is a function of the pixels: the features of two rasters
/// with the same dimensions and the same bytes are the same, bit for bit.
pub proof fn lemma_features_determined(
    a: RasterImage,
    b: RasterImage,
    f: ImgFeatures,
    g: ImgFeatures,
)
    requires
        a.width == b.width,
        a.height == b.height,
        a.pixels@ == b.pixels@,
        f.describes(&a),
        g.describes(&b),
    ensures
        f.lshash@ == g.lshash@,
        f.hue@ == g.hue@,
        f == g,
{
    lemma_same_pattern_same_hash(f.lshash, g.lshash);
    lemma_same_angle_same_hue(f.hue, g.hue);
}

/// The features of a raster whose reduction has one value only, whatever
/// the value, hold the hash with every bit set.
pub proof fn lemma_uniform_reduction_sets_every_bit(original: &RasterImage, f: ImgFeatures)
    requires
        f.describes(original),
        uniform(reduced_samples(original.width, original.height, original.pixels@)),
    ensures
        f.lshash@ == u64::MAX,
{
    let samples = reduced_samples(original.width, original.height, original.pixels@);
    lemma_uniform_fingerprint(samples, samples[0]);
}

/// Feature vectors whose hashes are unordered are unordered themselves,
/// whatever their hues are: neither is less than the other, and they are
/// not equal.
pub proof fn lemma_unordered_hashes_propagate(f: ImgFeatures, g: ImgFeatures)
    requires
        f.lshash@ != g.lshash@,
        f.lshash.ones() == g.lshash.ones(),
    ensures
        f.compare_spec(g) == Comparison::Incomparable,
        g.compare_spec(f) == Comparison::Incomparable,
        f.partial_cmp_spec(&g) is None,
        g.partial_cmp_spec(&f) is None,
        f != g,
{
}

/// A feature vector whose hash has fewer set bits is less, whatever the
/// patterns and the hues are.
pub proof fn lemma_fewer_ones_decides(f: ImgFeatures, g: ImgFeatures)
    requires
        f.lshash.ones() < g.lshash.ones(),
    ensures
        f.compare_spec(g) == Comparison::Less,
        g.compare_spec(f) == Comparison::Greater,
        f.partial_cmp_spec(&g) == Some(Ordering::Less),
{
}

/// Between feature vectors with the same hash the hues decide.
pub proof fn lemma_hue_breaks_ties(f: ImgFeatures, g: ImgFeatures)
    requires
        f.lshash@ == g.lshash@,
    ensures
        f.compare_spec(g) == f.hue.compare_spec(g.hue),
        f.compare_spec(g) != Comparison::Incomparable,
{
}

/// Comparing from the other side reverses the outcome, and only the same
/// feature vector compares as equal.
pub proof fn lemma_feature_order_reverses(f: ImgFeatures, g: ImgFeatures)
    ensures
        g.compare_spec(f) == f.compare_spec(g).reversed(),
        f.compare_spec(g) == Comparison::Equal <==> f == g,
{
    lemma_same_pattern_same_hash(f.lshash, g.lshash);
    lemma_same_angle_same_hue(f.hue, g.hue);
}

/// Being less is transitive.
pub proof fn lemma_feature_order_transitive(f: ImgFeatures, g: ImgFeatures, h: ImgFeatures)
    requires
        f.compare_spec(g) == Comparison::Less,
        g.compare_spec(h) == Comparison::Less,
    ensures
        f.compare_spec(h) == Comparison::Less,
{
}

impl PartialOrd for ImgFeatures {
    /// The standard library's view of [`ImgFeatures::compare`]: `None`
    /// where the two vectors are unordered.
    fn partial_cmp(&self, other: &Self) -> (o: Option<Ordering>) {
        self.compare(other).to_ordering()
    }
}

impl vstd::std_specs::cmp::PartialOrdSpecImpl for ImgFeatures {
    open spec fn obeys_partial_cmp_spec() -> bool {
        true
    }

    open spec fn partial_cmp_spec(&self, other: &ImgFeatures) -> Option<Ordering> {
        self.compare_spec(*other).ordering()
    }
}

} // verus!
