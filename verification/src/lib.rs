//! Tile-sheet gutter extrusion.
//!
//! A tile sheet packs a grid of equally sized square tiles into one raster
//! image. Sampling such a sheet with bilinear filtering bleeds colors across
//! tile edges; the usual cure is a one-pixel "gutter" ring around every tile,
//! filled by duplicating the tile's own border pixels outward.
//!
//! This crate provides the verified core of that post-processing step:
//! a flat RGBA pixel buffer, a grid resizer that inserts blank gutter space
//! at every tile boundary, and the extruder that copies each tile's interior
//! edge pixels into its gutter ring.

pub mod buffer;
pub mod extrude;
pub mod pipeline;
pub mod pixel;
pub mod resize;
