//! Composites terrain tile grids into encoded raster previews.
//!
//! A map's terrain layer is a grid of 16-bit tile indices. Each theme has a
//! placement table, which maps a tile index to a cell of the theme's atlas
//! image, and the atlas itself, a sheet of 32x32 tile images with 64 cells per
//! row. Rendering copies one atlas cell per grid cell into an RGB canvas and
//! encodes the canvas as a PNG.
//!
//! Decoding a theme's compressed atlas is the caller's part: the library says
//! when an atlas is needed, checks what the decoder produced, and keeps it.

pub mod cache;
pub mod codec;
pub mod compositor;
pub mod error;
pub mod geometry;
pub mod placement;
pub mod render;
pub mod theme;
