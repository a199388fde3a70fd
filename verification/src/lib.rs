//! Structural fingerprints and mean-hue angles of raster images, with the
//! partial order that makes them usable as keys for approximate lookup.

pub mod bits;
pub mod error;
pub mod features;
pub mod hue;
pub mod img;
pub mod lshash;
pub mod order;
pub mod raster;
pub mod reduce;
