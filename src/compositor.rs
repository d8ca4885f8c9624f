//! Copies one atlas cell per grid cell into an RGB canvas.
use crate::error::RenderError;
use crate::geometry::{
    ATLAS_COLS, ATLAS_WIDTH, TILE_SIZE, all_ok, canvas_byte, canvas_of, cell_before, cell_ok, cells_ok_before, pixel_before, pixel_ok,
    source_offset, tile_at,
};
use vstd::arithmetic::div_mod::lemma_fundamental_div_mod_converse;
use vstd::prelude::*;

verus! {

/// `e` reports the first unreadable pixel of the grid, cells in row-major
/// order and the pixels of a cell in row-major order.
pub open spec fn is_first_fault(
    e: RenderError,
    grid: Seq<u16>,
    width: int,
    height: int,
    table: Seq<u16>,
    atlas_len: int,
) -> bool {
    match e {
        RenderError::TileIndexOutOfRange { x, y, tile } => {
            &&& x < width
            &&& y < height
            &&& tile == tile_at(grid, width, x as int, y as int)
            &&& tile as int >= table.len()
            &&& cells_ok_before(grid, width, table, atlas_len, x as int, y as int)
        },
        RenderError::PixelAddressOutOfRange { x, y, i, j, offset, atlas_len: n } => {
            let t = tile_at(grid, width, x as int, y as int) as int;
            &&& x < width
            &&& y < height
            &&& i < 32
            &&& j < 32
            &&& n == atlas_len
            &&& t < table.len()
            &&& offset == source_offset(table[t], i as int, j as int)
            &&& offset + 3 > atlas_len
            &&& cells_ok_before(grid, width, table, atlas_len, x as int, y as int)
            &&& forall|i2: int, j2: int|
                0 <= i2 < 32 && 0 <= j2 && pixel_before(i2, j2, i as int, j as int)
                    ==> #[trigger] pixel_ok(grid, width, table, atlas_len, x as int, y as int, i2, j2)
        },
        _ => false,
    }
}

/// The cell that fault `e` is reported at, and one of its pixels that cannot be read.
spec fn fault_pixel(e: RenderError) -> (int, int, int, int) {
    match e {
        RenderError::TileIndexOutOfRange { x, y, .. } => (x as int, y as int, 0, 0),
        RenderError::PixelAddressOutOfRange { x, y, i, j, .. } => (x as int, y as int, i as int, j as int),
        _ => (0, 0, 0, 0),
    }
}

proof fn lemma_fault_pixel(
    e: RenderError,
    grid: Seq<u16>,
    width: int,
    height: int,
    table: Seq<u16>,
    atlas_len: int,
)
    requires
        is_first_fault(e, grid, width, height, table, atlas_len),
    ensures
        !pixel_ok(
            grid,
            width,
            table,
            atlas_len,
            fault_pixel(e).0,
            fault_pixel(e).1,
            fault_pixel(e).2,
            fault_pixel(e).3,
        ),
        0 <= fault_pixel(e).0 < width,
        0 <= fault_pixel(e).1,
        0 <= fault_pixel(e).2 < 32,
        0 <= fault_pixel(e).3 < 32,
{
}

/// A grid has at most one first fault.
pub proof fn lemma_first_fault_unique(
    e1: RenderError,
    e2: RenderError,
    grid: Seq<u16>,
    width: int,
    height: int,
    table: Seq<u16>,
    atlas_len: int,
)
    requires
        is_first_fault(e1, grid, width, height, table, atlas_len),
        is_first_fault(e2, grid, width, height, table, atlas_len),
    ensures
        e1 == e2,
{
    lemma_fault_pixel(e1, grid, width, height, table, atlas_len);
    lemma_fault_pixel(e2, grid, width, height, table, atlas_len);
    let (x1, y1, i1, j1) = fault_pixel(e1);
    let (x2, y2, i2, j2) = fault_pixel(e2);
    if cell_before(x1, y1, x2, y2) {
        assert(cell_ok(grid, width, table, atlas_len, x1, y1));
        assert(pixel_ok(grid, width, table, atlas_len, x1, y1, i1, j1));
    } else if cell_before(x2, y2, x1, y1) {
        assert(cell_ok(grid, width, table, atlas_len, x2, y2));
        assert(pixel_ok(grid, width, table, atlas_len, x2, y2, i2, j2));
    } else {
        assert(x1 == x2 && y1 == y2);
        if e1 is PixelAddressOutOfRange && e2 is PixelAddressOutOfRange {
            if pixel_before(i1, j1, i2, j2) {
                assert(pixel_ok(grid, width, table, atlas_len, x1, y1, i1, j1));
            } else if pixel_before(i2, j2, i1, j1) {
                assert(pixel_ok(grid, width, table, atlas_len, x2, y2, i2, j2));
            }
        }
    }
}

proof fn lemma_cell_index(width: int, height: int, x: int, y: int)
    requires
        0 <= x < width,
        0 <= y < height,
    ensures
        0 <= x + y * width < width * height,
{
    assert(0 <= x + y * width < width * height) by (nonlinear_arith)
        requires
            0 <= x < width,
            0 <= y < height,
    ;
}

/// Finds the first unreadable pixel, or reports that every pixel can be read.
pub fn first_fault(grid: &[u16], width: usize, height: usize, table: &[u16], atlas: &[u8]) -> (r:
    Option<RenderError>)
    requires
        grid@.len() == width * height,
    ensures
        r is None <==> all_ok(grid@, width as int, height as int, table@, atlas@.len() as int),
        r matches Some(e) ==> is_first_fault(
            e,
            grid@,
            width as int,
            height as int,
            table@,
            atlas@.len() as int,
        ),
{
    let ghost g = grid@;
    let ghost tb = table@;
    let ghost n = atlas@.len() as int;
    let glen = grid.len();
    let mut y: usize = 0;
    while y < height
        invariant
            y <= height,
            glen == width * height,
            g == grid@,
            tb == table@,
            n == atlas@.len(),
            grid@.len() == width * height,
            forall|x2: int, y2: int|
                0 <= x2 < width && 0 <= y2 < y ==> #[trigger] cell_ok(g, width as int, tb, n, x2, y2),
        decreases height - y,
    {
        let mut x: usize = 0;
        while x < width
            invariant
                x <= width,
                y < height,
                glen == width * height,
                g == grid@,
                tb == table@,
                n == atlas@.len(),
                grid@.len() == width * height,
                forall|x2: int, y2: int|
                    0 <= x2 < width && 0 <= y2 < y ==> #[trigger] cell_ok(g, width as int, tb, n, x2, y2),
                forall|x2: int| 0 <= x2 < x ==> #[trigger] cell_ok(g, width as int, tb, n, x2, y as int),
            decreases width - x,
        {
            proof {
                lemma_cell_index(width as int, height as int, x as int, y as int);
                assert forall|x2: int, y2: int|
                    0 <= x2 < width && 0 <= y2 && cell_before(
                        x2,
                        y2,
                        x as int,
                        y as int,
                    ) implies #[trigger] cell_ok(g, width as int, tb, n, x2, y2) by {
                    if y2 == y {
                        assert(cell_ok(g, width as int, tb, n, x2, y as int));
                    }
                }
            }
            let tile = grid[x + y * width];
            if tile as usize >= table.len() {
                assert(!pixel_ok(g, width as int, tb, n, x as int, y as int, 0, 0));
                assert(!cell_ok(g, width as int, tb, n, x as int, y as int));
                return Some(RenderError::TileIndexOutOfRange { x, y, tile });
            }
            let placement = table[tile as usize];
            let input_x = (placement as usize % ATLAS_COLS) * TILE_SIZE;
            let input_y = (placement as usize / ATLAS_COLS) * TILE_SIZE;
            let mut j: usize = 0;
            while j < TILE_SIZE
                invariant
                    j <= 32,
                    x < width,
                    y < height,
                    g == grid@,
                    tb == table@,
                    n == atlas@.len(),
                    grid@.len() == width * height,
                    (tile as int) < tb.len(),
                    tile == tile_at(g, width as int, x as int, y as int),
                    placement == tb[tile as int],
                    input_x == (placement as int % 64) * 32,
                    input_y == (placement as int / 64) * 32,
                    cells_ok_before(g, width as int, tb, n, x as int, y as int),
                    forall|i2: int, j2: int|
                        0 <= i2 < 32 && 0 <= j2 < j ==> #[trigger] pixel_ok(
                            g,
                            width as int,
                            tb,
                            n,
                            x as int,
                            y as int,
                            i2,
                            j2,
                        ),
                decreases 32 - j,
            {
                let mut i: usize = 0;
                while i < TILE_SIZE
                    invariant
                        i <= 32,
                        j < 32,
                        x < width,
                        y < height,
                        g == grid@,
                        tb == table@,
                        n == atlas@.len(),
                        grid@.len() == width * height,
                        (tile as int) < tb.len(),
                        tile == tile_at(g, width as int, x as int, y as int),
                        placement == tb[tile as int],
                        input_x == (placement as int % 64) * 32,
                        input_y == (placement as int / 64) * 32,
                        cells_ok_before(g, width as int, tb, n, x as int, y as int),
                        forall|i2: int, j2: int|
                            0 <= i2 < 32 && 0 <= j2 < j ==> #[trigger] pixel_ok(
                                g,
                                width as int,
                                tb,
                                n,
                                x as int,
                                y as int,
                                i2,
                                j2,
                            ),
                        forall|i2: int|
                            0 <= i2 < i ==> #[trigger] pixel_ok(
                                g,
                                width as int,
                                tb,
                                n,
                                x as int,
                                y as int,
                                i2,
                                j as int,
                            ),
                    decreases 32 - i,
                {
                    let offset = ((input_x + i) + (input_y + j) * ATLAS_WIDTH) * 4;
                    if offset + 3 > atlas.len() {
                        let e = RenderError::PixelAddressOutOfRange {
                            x,
                            y,
                            i,
                            j,
                            offset,
                            atlas_len: atlas.len(),
                        };
                        proof {
                            assert forall|i2: int, j2: int|
                                0 <= i2 < 32 && 0 <= j2 && pixel_before(
                                    i2,
                                    j2,
                                    i as int,
                                    j as int,
                                ) implies #[trigger] pixel_ok(
                                g,
                                width as int,
                                tb,
                                n,
                                x as int,
                                y as int,
                                i2,
                                j2,
                            ) by {
                                if j2 == j {
                                    assert(pixel_ok(g, width as int, tb, n, x as int, y as int, i2, j as int));
                                }
                            }
                        }
                        assert(!pixel_ok(
                            g,
                            width as int,
                            tb,
                            n,
                            x as int,
                            y as int,
                            i as int,
                            j as int,
                        ));
                        assert(!cell_ok(g, width as int, tb, n, x as int, y as int));
                        return Some(e);
                    }
                    i += 1;
                }
                j += 1;
            }
            x += 1;
        }
        y += 1;
    }
    None
}

/// Canvas byte `(px + py * w) * 3 + c` takes channel `c` of atlas pixel
/// `(px % 32, py % 32)` of the cell that the tile at `(px / 32, py / 32)` is placed on.
proof fn lemma_canvas_byte(
    grid: Seq<u16>,
    width: int,
    table: Seq<u16>,
    atlas: Seq<u8>,
    px: int,
    py: int,
    c: int,
)
    requires
        width > 0,
        0 <= px < width * 32,
        0 <= py,
        0 <= c < 3,
    ensures
        canvas_byte(grid, width, table, atlas, (px + py * (width * 32)) * 3 + c) == atlas[source_offset(
            table[tile_at(grid, width, px / 32, py / 32) as int],
            px % 32,
            py % 32,
        ) + c],
{
    let w = width * 32;
    let p = px + py * w;
    lemma_fundamental_div_mod_converse(p * 3 + c, 3, p, c);
    lemma_fundamental_div_mod_converse(p, w, py, px);
}

/// Builds the canvas row by row; every pixel of the grid must be readable.
fn fill(grid: &[u16], width: usize, height: usize, table: &[u16], atlas: &[u8]) -> (canvas: Vec<u8>)
    requires
        width > 0,
        height > 0,
        grid@.len() == width * height,
        width * height * 3072 <= usize::MAX,
        all_ok(grid@, width as int, height as int, table@, atlas@.len() as int),
    ensures
        canvas@ == canvas_of(grid@, width as int, height as int, table@, atlas@),
{
    assert(width * 32 <= usize::MAX && height * 32 <= usize::MAX) by (nonlinear_arith)
        requires
            width > 0,
            height > 0,
            width * height * 3072 <= usize::MAX,
    ;
    let w = width * TILE_SIZE;
    let h = height * TILE_SIZE;
    assert(w * h * 3 == width * 32 * height * 32 * 3 && w * h * 3 <= usize::MAX) by (nonlinear_arith)
        requires
            w == width * 32,
            h == height * 32,
            width * height * 3072 <= usize::MAX,
    ;
    let glen = grid.len();
    let mut canvas: Vec<u8> = Vec::new();
    let mut py: usize = 0;
    while py < h
        invariant
            py <= h,
            glen == width * height,
            w == width * 32,
            h == height * 32,
            width > 0,
            grid@.len() == width * height,
            w * h * 3 <= usize::MAX,
            all_ok(grid@, width as int, height as int, table@, atlas@.len() as int),
            canvas@.len() == py * w * 3,
            forall|k: int|
                0 <= k < canvas@.len() ==> canvas@[k] == #[trigger] canvas_byte(
                    grid@,
                    width as int,
                    table@,
                    atlas@,
                    k,
                ),
        decreases h - py,
    {
        let mut px: usize = 0;
        while px < w
            invariant
                px <= w,
                py < h,
                glen == width * height,
                w == width * 32,
                h == height * 32,
                width > 0,
                grid@.len() == width * height,
                w * h * 3 <= usize::MAX,
                all_ok(grid@, width as int, height as int, table@, atlas@.len() as int),
                canvas@.len() == (py * w + px) * 3,
                forall|k: int|
                    0 <= k < canvas@.len() ==> canvas@[k] == #[trigger] canvas_byte(
                        grid@,
                        width as int,
                        table@,
                        atlas@,
                        k,
                    ),
            decreases w - px,
        {
            let x = px / TILE_SIZE;
            let i = px % TILE_SIZE;
            let y = py / TILE_SIZE;
            let j = py % TILE_SIZE;
            assert(x < width && y < height);
            assert((py * w + px) * 3 + 3 <= w * h * 3) by (nonlinear_arith)
                requires
                    px < w,
                    py < h,
            ;
            proof {
                lemma_cell_index(width as int, height as int, x as int, y as int);
                assert(cell_ok(grid@, width as int, table@, atlas@.len() as int, x as int, y as int));
                assert(pixel_ok(
                    grid@,
                    width as int,
                    table@,
                    atlas@.len() as int,
                    x as int,
                    y as int,
                    i as int,
                    j as int,
                ));
            }
            let tile = grid[x + y * width];
            let placement = table[tile as usize];
            let input_x = (placement as usize % ATLAS_COLS) * TILE_SIZE;
            let input_y = (placement as usize / ATLAS_COLS) * TILE_SIZE;
            let offset = ((input_x + i) + (input_y + j) * ATLAS_WIDTH) * 4;
            let ghost before = canvas@;
            let ghost base = (py * w + px) * 3;
            canvas.push(atlas[offset]);
            canvas.push(atlas[offset + 1]);
            canvas.push(atlas[offset + 2]);
            proof {
                assert(base == (px + py * (width * 32)) * 3) by (nonlinear_arith)
                    requires
                        base == (py * w + px) * 3,
                        w == width * 32,
                ;
                lemma_canvas_byte(grid@, width as int, table@, atlas@, px as int, py as int, 0);
                lemma_canvas_byte(grid@, width as int, table@, atlas@, px as int, py as int, 1);
                lemma_canvas_byte(grid@, width as int, table@, atlas@, px as int, py as int, 2);
                assert forall|k: int|
                    0 <= k < canvas@.len() implies canvas@[k] == #[trigger] canvas_byte(
                        grid@,
                        width as int,
                        table@,
                        atlas@,
                        k,
                    ) by {
                    if k < base {
                        assert(canvas@[k] == before[k]);
                    }
                }
            }
            px += 1;
        }
        assert((py * w + w) * 3 == (py + 1) * w * 3) by (nonlinear_arith);
        py += 1;
    }
    assert(h * w * 3 == width * 32 * height * 32 * 3) by (nonlinear_arith)
        requires
            w == width * 32,
            h == height * 32,
    ;
    assert(canvas@ =~= canvas_of(grid@, width as int, height as int, table@, atlas@));
    canvas
}

/// Composites the grid: the canvas of every cell's atlas tile, or the first
/// pixel that cannot be read.
pub fn composite(grid: &[u16], width: usize, height: usize, table: &[u16], atlas: &[u8]) -> (r:
    Result<Vec<u8>, RenderError>)
    requires
        width > 0,
        height > 0,
        grid@.len() == width * height,
        width * height * 3072 <= usize::MAX,
    ensures
        r is Ok <==> all_ok(grid@, width as int, height as int, table@, atlas@.len() as int),
        r matches Ok(canvas) ==> canvas@ == canvas_of(
            grid@,
            width as int,
            height as int,
            table@,
            atlas@,
        ),
        r matches Err(e) ==> is_first_fault(
            e,
            grid@,
            width as int,
            height as int,
            table@,
            atlas@.len() as int,
        ),
{
    match first_fault(grid, width, height, table, atlas) {
        Some(e) => Err(e),
        None => Ok(fill(grid, width, height, table, atlas)),
    }
}

} // verus!
