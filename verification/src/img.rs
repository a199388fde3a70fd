//! An image on its way through the analysis: first the raw pixels with the
//! place they came from, then the features found in them.

use crate::error::InvalidInput;
use crate::features::ImgFeatures;
use crate::raster::RasterImage;
use crate::lshash::{fingerprint_of, uniform};
use crate::reduce::{luma_plane, reduced_samples, reducible, SIDE};
use vstd::prelude::*;

verus! {

/// Image: where it was loaded from, and its contents.
///
/// Convert to [`Img`] to make useful.
pub struct ImgRaw {
    /// Path to where the image was loaded from.
    pub path: String,
    /// Contents of the image as RGB pixels.
    pub data: RasterImage,
}

/// An image and its features.
pub struct Img {
    /// Path to where the image was loaded from.
    pub path: String,
    /// Features of the image.
    pub features: ImgFeatures,
}

impl Img {
    /// Finds the features of a raw image and keeps them with its path. The
    /// pixels are dropped.
    pub fn from(original: ImgRaw) -> (r: Result<Img, InvalidInput>)
        ensures
            r is Ok <==> reducible(&original.data),
            r matches Ok(img) ==> img.path == original.path && img.features.describes(
                &original.data,
            ),
            r matches Ok(img) ==> (original.data.width == SIDE && original.data.height == SIDE
                ==> img.features.lshash@ == fingerprint_of(luma_plane(original.data.pixels@))),
            r matches Ok(img) ==> (uniform(
                reduced_samples(
                    original.data.width,
                    original.data.height,
                    original.data.pixels@,
                ),
            ) ==> img.features.lshash@ == u64::MAX),
    {
        match ImgFeatures::find(&original) {
            Ok(features) => Ok(Img { path: original.path, features }),
            Err(e) => Err(e),
        }
    }
}

} // verus!
