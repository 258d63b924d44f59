//! Construction of a 256-entry biome colour ramp and rasterization of a
//! scalar elevation field through it.
//!
//! The library owns the integer core of the terrain pipeline: building the
//! lookup table from ordered interpolation segments (later segments win on
//! contended indices, segment endpoints are written exactly), deriving a
//! table index from each elevation sample by an absolute-value-then-clamp
//! rule, and filling the row-major pixel buffer. The collaborators around
//! it — the fractal-noise sampler, the linear-RGB interpolation of each
//! segment's interior, and the image encoder — work in floating point or do
//! I/O and stay outside, exchanging plain integer values with the core.

pub mod colour;
pub mod ramp;
pub mod raster;
pub mod vector;
