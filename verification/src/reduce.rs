//! Reduction of a raster to the 64 grayscale samples that a fingerprint is
//! built from: luminance first, then a resampling to 8 × 8.

use crate::error::InvalidInput;
use crate::raster::RasterImage;
use vstd::prelude::*;

verus! {

/// Width and height of the reduced image.
pub const SIDE: u32 = 8;

/// The luminance of one pixel: the channels weighted by 2126, 7152 and 722
/// parts in 10000, rounded down.
pub open spec fn luma_of(r: u8, g: u8, b: u8) -> u8 {
    ((2126 * r + 7152 * g + 722 * b) / 10000) as u8
}

/// The luminance plane of an RGB buffer: one sample per byte triple.
pub open spec fn luma_plane(rgb: Seq<u8>) -> Seq<u8> {
    Seq::new(rgb.len() / 3, |i: int| luma_of(rgb[3 * i], rgb[3 * i + 1], rgb[3 * i + 2]))
}

/// The samples that resampling a `width` × `height` luminance plane to
/// `nwidth` × `nheight` with a triangle filter gives.
pub uninterp spec fn triangle_resized(
    width: u32,
    height: u32,
    luma: Seq<u8>,
    nwidth: u32,
    nheight: u32,
) -> Seq<u8>;

/// The 64 samples of a raster's 8 × 8 grayscale reduction, in scan order.
pub open spec fn reduced_samples(width: u32, height: u32, rgb: Seq<u8>) -> Seq<u8> {
    triangle_resized(width, height, luma_plane(rgb), SIDE, SIDE)
}

/// Calls `image::DynamicImage::grayscale` on an 8-bit RGB image made of
/// the given buffer. The contract states the crate's integer luminance
/// formula, applied pixel by pixel. It asks for an image of at least one
/// pixel: the crate's walk over the pixels of an image without columns
/// leaves the image.
#[verifier::external_body]
fn grayscale(width: u32, height: u32, rgb: &Vec<u8>) -> (luma: Vec<u8>)
    requires
        width >= 1,
        height >= 1,
        rgb@.len() == 3 * width * height,
    ensures
        luma@ == luma_plane(rgb@),
{
    let buffer = image::RgbImage::from_raw(width, height, rgb.clone()).unwrap();
    image::DynamicImage::ImageRgb8(buffer).grayscale().into_bytes()
}

/// Calls `image::DynamicImage::resize_exact` with the triangle filter on an
/// 8-bit grayscale image made of the given buffer. The contract names the
/// result and states two facts of it: it has one sample for each pixel of
/// the new size, and an image that already has that size comes back
/// unchanged. It asks for the target of 8 × 8, for which each sample has a
/// source pixel of positive weight, and that the buffers of the resampling
/// can be allocated: the intermediate image of `width` × `nheight` pixels
/// at 16 bytes each, and the filter weights, which may take 8 bytes for
/// each row or column of the source.
#[verifier::external_body]
fn resize_exact(width: u32, height: u32, luma: &Vec<u8>, nwidth: u32, nheight: u32) -> (out: Vec<u8>)
    requires
        width >= 1,
        height >= 1,
        nwidth == SIDE,
        nheight == SIDE,
        luma@.len() == width * height,
        16 * width * nheight <= isize::MAX,
        8 * height <= isize::MAX,
    ensures
        out@ == triangle_resized(width, height, luma@, nwidth, nheight),
        out@.len() == nwidth * nheight,
        nwidth == width && nheight == height ==> out@ == luma@,
{
    let buffer = image::GrayImage::from_raw(width, height, luma.clone()).unwrap();
    let filter = image::imageops::FilterType::Triangle;
    image::DynamicImage::ImageLuma8(buffer).resize_exact(nwidth, nheight, filter).into_bytes()
}

/// Whether the buffers that resampling a raster takes can be allocated:
/// 128 bytes for each column and 8 bytes for each row. On a 64-bit machine
/// this holds of every raster.
pub open spec fn fits_memory(original: &RasterImage) -> bool {
    16 * original.width * SIDE <= isize::MAX && 8 * original.height <= isize::MAX
}

/// What holds of the reduction of every raster that can be reduced: it has
/// 64 samples, and for a raster that is 8 × 8 already it is the luminance
/// plane.
pub open spec fn has_reduction(original: &RasterImage) -> bool {
    let samples = reduced_samples(original.width, original.height, original.pixels@);
    &&& samples.len() == 64
    &&& original.width == SIDE && original.height == SIDE ==> samples == luma_plane(
        original.pixels@,
    )
}

/// Whether a raster can be reduced: it is valid, and the reduction fits the
/// machine's memory.
pub open spec fn reducible(original: &RasterImage) -> bool {
    original.valid() && fits_memory(original)
}

/// On a machine with addresses of 64 bits every valid raster can be
/// reduced.
pub proof fn lemma_valid_is_reducible(original: &RasterImage)
    requires
        original.valid(),
        isize::MAX >= 0x7fff_ffff_ffff_ffff,
    ensures
        reducible(original),
{
}

/// Reduces a raster to 64 grayscale samples in scan order: its luminance
/// plane, resampled to 8 × 8 with a triangle filter. The luminance plane of
/// a raster that is 8 × 8 already is its reduction.
pub fn reduce(original: &RasterImage) -> (r: Result<Vec<u8>, InvalidInput>)
    ensures
        r is Ok <==> reducible(original),
        r matches Ok(samples) ==> samples@ == reduced_samples(
            original.width,
            original.height,
            original.pixels@,
        ) && has_reduction(original),
{
    if !original.is_valid() {
        return Err(InvalidInput);
    }
    let limit: u64 = isize::MAX as u64;
    if 128 * (original.width as u64) > limit || 8 * (original.height as u64) > limit {
        return Err(InvalidInput);
    }
    let luma = grayscale(original.width, original.height, &original.pixels);
    assert(luma@.len() == original.width * original.height) by {
        assert(3 * original.width * original.height == 3 * (original.width * original.height))
            by (nonlinear_arith);
    }
    Ok(resize_exact(original.width, original.height, &luma, SIDE, SIDE))
}

} // verus!
