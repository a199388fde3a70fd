//! A decoded raster: a grid of RGB byte triples in row-major order.

use vstd::arithmetic::div_mod::lemma_fundamental_div_mod_converse;
use vstd::prelude::*;

verus! {

/// An image as a `width` × `height` grid of pixels. Each pixel takes three
/// bytes of `pixels` (red, green, blue), row after row from the top.
#[derive(Debug, Clone)]
pub struct RasterImage {
    /// Number of pixels in a row.
    pub width: u32,
    /// Number of rows.
    pub height: u32,
    /// The colour channels of all pixels.
    pub pixels: Vec<u8>,
}

/// Whether every pixel of an RGB buffer has the colour `(r, g, b)`.
pub open spec fn all_pixels_are(rgb: Seq<u8>, r: u8, g: u8, b: u8) -> bool {
    forall|i: int|
        0 <= i < rgb.len() ==> #[trigger] rgb[i] == (if i % 3 == 0 {
            r
        } else if i % 3 == 1 {
            g
        } else {
            b
        })
}

/// In a buffer of one colour, pixel `p` holds that colour's channels.
pub proof fn lemma_pixel_channels(rgb: Seq<u8>, r: u8, g: u8, b: u8, p: int)
    requires
        all_pixels_are(rgb, r, g, b),
        0 <= p,
        3 * p + 2 < rgb.len(),
    ensures
        rgb[3 * p] == r,
        rgb[3 * p + 1] == g,
        rgb[3 * p + 2] == b,
{
    lemma_fundamental_div_mod_converse(3 * p, 3, p, 0);
    lemma_fundamental_div_mod_converse(3 * p + 1, 3, p, 1);
    lemma_fundamental_div_mod_converse(3 * p + 2, 3, p, 2);
    let first = 3 * p;
    let second = 3 * p + 1;
    let third = 3 * p + 2;
    assert(first % 3 == 0 && second % 3 == 1 && third % 3 == 2);
    assert(rgb[first] == r);
    assert(rgb[second] == g);
    assert(rgb[third] == b);
}

impl RasterImage {
    /// A raster is valid when it has at least one pixel and its buffer
    /// holds exactly three bytes for each pixel.
    pub open spec fn valid(&self) -> bool {
        &&& self.width >= 1
        &&& self.height >= 1
        &&& self.pixels@.len() == 3 * self.width * self.height
    }

    /// Whether features can be extracted from the raster.
    pub fn is_valid(&self) -> (b: bool)
        ensures
            b == self.valid(),
    {
        if self.width == 0 || self.height == 0 {
            return false;
        }
        assert(self.width * self.height <= 0xffff_ffff * 0xffff_ffff) by (nonlinear_arith)
            requires
                self.width <= 0xffff_ffff,
                self.height <= 0xffff_ffff,
        ;
        let area: u64 = self.width as u64 * self.height as u64;
        assert(3 * self.width * self.height == 3 * (self.width * self.height))
            by (nonlinear_arith);
        let needed: u128 = 3 * (area as u128);
        self.pixels.len() as u128 == needed
    }
}

} // verus!
