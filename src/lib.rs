//! Reduction of photographs to a small fixed palette on a fixed raster.
//!
//! The library keeps the identifier-to-color table of the palette index,
//! rewrites pixel buffers through a caller-supplied nearest-color search, and
//! normalizes orientation and size of decoded images.
pub mod converter;
pub mod raster;
