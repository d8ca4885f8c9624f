use vstd::prelude::*;

verus! {

/// Everything that can go wrong while rendering a grid.
#[derive(Debug, Clone, Copy, PartialEq, Eq, Structural)]
pub enum RenderError {
    /// The grid does not hold `width * height` tiles, or a dimension is zero.
    InvalidDimensions,
    /// The theme number names none of the supported themes.
    UnknownTheme,
    /// The canvas would not fit in memory or in the encoder's 32-bit sizes.
    CanvasTooLarge,
    /// A bundled placement table or atlas could not be decoded.
    AtlasDecodeFailure,
    /// The grid cell `(x, y)` holds a tile index past the end of the placement table.
    TileIndexOutOfRange { x: usize, y: usize, tile: u16 },
    /// Pixel `(i, j)` of grid cell `(x, y)` would be read from byte `offset` of an
    /// atlas that holds only `atlas_len` bytes.
    PixelAddressOutOfRange { x: usize, y: usize, i: usize, j: usize, offset: usize, atlas_len: usize },
    /// The image encoder refused the canvas.
    EncodeFailure,
}

} // verus!
