//! The one way in which feature extraction can fail.

use vstd::prelude::*;

verus! {

/// The input cannot be worked on: a raster without pixels, or one whose
/// buffer does not match its dimensions; a sample sequence of the wrong
/// length; or a raster so wide or so high that the buffers of its
/// reduction exceed what the machine can address, which a machine with
/// addresses of 64 bits never meets.
#[derive(Debug, Clone, Copy, PartialEq, Eq, Structural)]
pub struct InvalidInput;

} // verus!
