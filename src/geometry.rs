//! Address translation between grid cells, atlas cells and pixel offsets.
use vstd::arithmetic::div_mod::lemma_fundamental_div_mod_converse;
use vstd::prelude::*;

verus! {

/// Width and height of one tile, in pixels.
pub const TILE_SIZE: usize = 32;

/// Number of tile cells in one row of an atlas.
pub const ATLAS_COLS: usize = 64;

/// Width of an atlas in pixels: `ATLAS_COLS` cells of `TILE_SIZE` pixels.
pub const ATLAS_WIDTH: usize = 2048;

/// Byte offset in the atlas of pixel `(i, j)` of the cell that `placement` names.
pub open spec fn source_offset(placement: u16, i: int, j: int) -> int {
    let input_x = (placement as int % ATLAS_COLS as int) * TILE_SIZE;
    let input_y = (placement as int / ATLAS_COLS as int) * TILE_SIZE;
    ((input_x + i) + (input_y + j) * ATLAS_WIDTH) * 4
}

/// Byte offset in a canvas `width` tiles wide of pixel `(i, j)` of grid cell `(x, y)`.
pub open spec fn dest_offset(width: int, x: int, y: int, i: int, j: int) -> int {
    ((x * TILE_SIZE + i) + (y * TILE_SIZE + j) * (width * TILE_SIZE)) * 3
}

/// The tile index that the grid holds at cell `(x, y)`.
pub open spec fn tile_at(grid: Seq<u16>, width: int, x: int, y: int) -> u16 {
    grid[x + y * width]
}

/// Pixel `(i, j)` of grid cell `(x, y)` can be read: the tile index is in the
/// placement table and the whole RGB triple lies in the atlas.
pub open spec fn pixel_ok(
    grid: Seq<u16>,
    width: int,
    table: Seq<u16>,
    atlas_len: int,
    x: int,
    y: int,
    i: int,
    j: int,
) -> bool {
    let t = tile_at(grid, width, x, y) as int;
    t < table.len() && source_offset(table[t], i, j) + 3 <= atlas_len
}

/// Every pixel of grid cell `(x, y)` can be read.
pub open spec fn cell_ok(
    grid: Seq<u16>,
    width: int,
    table: Seq<u16>,
    atlas_len: int,
    x: int,
    y: int,
) -> bool {
    forall|i: int, j: int|
        0 <= i < 32 && 0 <= j < 32 ==> #[trigger] pixel_ok(grid, width, table, atlas_len, x, y, i, j)
}

/// Every pixel of every cell of the grid can be read.
pub open spec fn all_ok(
    grid: Seq<u16>,
    width: int,
    height: int,
    table: Seq<u16>,
    atlas_len: int,
) -> bool {
    forall|x: int, y: int|
        0 <= x < width && 0 <= y < height ==> #[trigger] cell_ok(grid, width, table, atlas_len, x, y)
}

/// Cell `(x1, y1)` comes before cell `(x2, y2)` in row-major order.
pub open spec fn cell_before(x1: int, y1: int, x2: int, y2: int) -> bool {
    y1 < y2 || (y1 == y2 && x1 < x2)
}

/// Pixel `(i1, j1)` comes before pixel `(i2, j2)` of the same cell in row-major order.
pub open spec fn pixel_before(i1: int, j1: int, i2: int, j2: int) -> bool {
    j1 < j2 || (j1 == j2 && i1 < i2)
}

/// Every cell before `(x, y)` can be read.
pub open spec fn cells_ok_before(
    grid: Seq<u16>,
    width: int,
    table: Seq<u16>,
    atlas_len: int,
    x: int,
    y: int,
) -> bool {
    forall|x2: int, y2: int|
        0 <= x2 < width && 0 <= y2 && cell_before(x2, y2, x, y) ==> #[trigger] cell_ok(
            grid,
            width,
            table,
            atlas_len,
            x2,
            y2,
        )
}

/// The value of canvas byte `k`: the channel `k % 3` of the atlas pixel that
/// lands on canvas pixel `k / 3`.
pub open spec fn canvas_byte(grid: Seq<u16>, width: int, table: Seq<u16>, atlas: Seq<u8>, k: int) -> u8 {
    let p = k / 3;
    let c = k % 3;
    let px = p % (width * 32);
    let py = p / (width * 32);
    let t = tile_at(grid, width, px / 32, py / 32);
    atlas[source_offset(table[t as int], px % 32, py % 32) + c]
}

/// The composited RGB canvas of a `width` x `height` grid.
pub open spec fn canvas_of(
    grid: Seq<u16>,
    width: int,
    height: int,
    table: Seq<u16>,
    atlas: Seq<u8>,
) -> Seq<u8> {
    Seq::new(
        (width * 32 * height * 32 * 3) as nat,
        |k: int| canvas_byte(grid, width, table, atlas, k),
    )
}

/// Canvas byte `dest_offset(width, x, y, i, j) + c` is channel `c` of pixel
/// `(i, j)` of the atlas cell that the tile at `(x, y)` is placed on.
pub proof fn lemma_canvas_pixel(
    grid: Seq<u16>,
    width: int,
    height: int,
    table: Seq<u16>,
    atlas: Seq<u8>,
    x: int,
    y: int,
    i: int,
    j: int,
    c: int,
)
    requires
        0 <= x < width,
        0 <= y < height,
        0 <= i < 32,
        0 <= j < 32,
        0 <= c < 3,
    ensures
        0 <= dest_offset(width, x, y, i, j) + c < canvas_of(grid, width, height, table, atlas).len(),
        canvas_of(grid, width, height, table, atlas)[dest_offset(width, x, y, i, j) + c] == atlas[source_offset(
            table[tile_at(grid, width, x, y) as int],
            i,
            j,
        ) + c],
{
    let w = width * 32;
    let px = x * 32 + i;
    let py = y * 32 + j;
    let p = px + py * w;
    let k = p * 3 + c;
    assert(k == dest_offset(width, x, y, i, j) + c) by (nonlinear_arith)
        requires
            w == width * 32,
            px == x * 32 + i,
            py == y * 32 + j,
            p == px + py * w,
            k == p * 3 + c,
    ;
    assert(0 <= k < width * 32 * height * 32 * 3) by (nonlinear_arith)
        requires
            w == width * 32,
            px == x * 32 + i,
            py == y * 32 + j,
            p == px + py * w,
            k == p * 3 + c,
            0 <= x < width,
            0 <= y < height,
            0 <= i < 32,
            0 <= j < 32,
            0 <= c < 3,
    ;
    assert(0 <= px < w && 0 <= py) by (nonlinear_arith)
        requires
            w == width * 32,
            px == x * 32 + i,
            py == y * 32 + j,
            0 <= x < width,
            0 <= y,
            0 <= i < 32,
            0 <= j < 32,
    ;
    lemma_fundamental_div_mod_converse(k, 3, p, c);
    lemma_fundamental_div_mod_converse(p, w, py, px);
    lemma_fundamental_div_mod_converse(px, 32, x, i);
    lemma_fundamental_div_mod_converse(py, 32, y, j);
}

/// The three colour bytes that start at `offset`.
pub open spec fn rgb_at(bytes: Seq<u8>, offset: int) -> (u8, u8, u8) {
    (bytes[offset], bytes[offset + 1], bytes[offset + 2])
}

/// A one-cell grid of tile index 0, whose placement is atlas cell `(0, 0)`,
/// composites to a 32x32 canvas holding exactly that atlas cell, alpha dropped.
pub proof fn lemma_single_tile_canvas(table: Seq<u16>, atlas: Seq<u8>)
    requires
        table.len() > 0,
        table[0] == 0,
    ensures
        canvas_of(seq![0u16], 1, 1, table, atlas).len() == 32 * 32 * 3,
        forall|i: int, j: int|
            0 <= i < 32 && 0 <= j < 32 ==> rgb_at(
                canvas_of(seq![0u16], 1, 1, table, atlas),
                #[trigger] dest_offset(1, 0, 0, i, j),
            ) == rgb_at(atlas, source_offset(0, i, j)),
        forall|i: int, j: int|
            0 <= i < 32 && 0 <= j < 32 ==> #[trigger] dest_offset(1, 0, 0, i, j) == (i + j * 32) * 3
                && source_offset(0, i, j) == (i + j * 2048) * 4,
{
    let grid = seq![0u16];
    assert forall|i: int, j: int| 0 <= i < 32 && 0 <= j < 32 implies rgb_at(
        canvas_of(grid, 1, 1, table, atlas),
        #[trigger] dest_offset(1, 0, 0, i, j),
    ) == rgb_at(atlas, source_offset(0, i, j)) by {
        assert(tile_at(grid, 1, 0, 0) == 0);
        lemma_canvas_pixel(grid, 1, 1, table, atlas, 0, 0, i, j, 0);
        lemma_canvas_pixel(grid, 1, 1, table, atlas, 0, 0, i, j, 1);
        lemma_canvas_pixel(grid, 1, 1, table, atlas, 0, 0, i, j, 2);
    }
}

} // verus!
