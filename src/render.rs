//! The renderer: the themes' placement tables, the atlas cache, and the entry
//! point that turns a tile grid into a PNG.
use crate::cache::{atlas_from, AtlasCache, DecodedImage};
use crate::codec::{encode_png, png_rgb8};
use crate::compositor::{composite, is_first_fault, lemma_first_fault_unique};
use crate::error::RenderError;
use crate::geometry::{all_ok, canvas_of, cell_ok, pixel_ok, source_offset, tile_at};
use crate::placement::{decode_placement_table, le_u16s};
use crate::theme::{Theme, THEME_COUNT};
use vstd::prelude::*;

verus! {

/// Every theme's placement table, with the cache of decoded atlases.
pub struct Terrain {
    tables: Vec<Vec<u16>>,
    cache: AtlasCache,
}

/// The grid holds `width * height` tiles and neither dimension is zero.
pub open spec fn dims_ok(len: nat, width: usize, height: usize) -> bool {
    width > 0 && height > 0 && len == width * height
}

/// The canvas fits in memory, and its pixel sizes in the encoder's `u32`.
pub open spec fn canvas_fits(width: usize, height: usize) -> bool {
    &&& width * 32 <= u32::MAX
    &&& height * 32 <= u32::MAX
    &&& width * height * 3072 <= usize::MAX
}

/// The request passes every check made before the atlas is touched.
pub open spec fn passes_checks(len: nat, width: usize, height: usize, era: usize) -> bool {
    era < THEME_COUNT && dims_ok(len, width, height) && canvas_fits(width, height)
}

/// A render result with the PNG bytes as a sequence.
pub open spec fn result_view(r: Result<Vec<u8>, RenderError>) -> Result<Seq<u8>, RenderError> {
    match r {
        Ok(v) => Ok(v@),
        Err(e) => Err(e),
    }
}

/// `r` is the outcome of rendering `grid` with theme `era`, given every
/// theme's placement table and the theme's atlas, if one is held.
pub open spec fn renders_to(
    grid: Seq<u16>,
    width: usize,
    height: usize,
    era: usize,
    tables: Seq<Seq<u16>>,
    atlas: Option<Seq<u8>>,
    r: Result<Seq<u8>, RenderError>,
) -> bool {
    if era >= THEME_COUNT {
        r == Err::<Seq<u8>, RenderError>(RenderError::UnknownTheme)
    } else if !dims_ok(grid.len(), width, height) {
        r == Err::<Seq<u8>, RenderError>(RenderError::InvalidDimensions)
    } else if !canvas_fits(width, height) {
        r == Err::<Seq<u8>, RenderError>(RenderError::CanvasTooLarge)
    } else {
        match atlas {
            None => r == Err::<Seq<u8>, RenderError>(RenderError::AtlasDecodeFailure),
            Some(atlas) => {
                let table = tables[era as int];
                if !all_ok(grid, width as int, height as int, table, atlas.len() as int) {
                    r matches Err(e) && is_first_fault(
                        e,
                        grid,
                        width as int,
                        height as int,
                        table,
                        atlas.len() as int,
                    )
                } else {
                    png_rgb8(
                        canvas_of(grid, width as int, height as int, table, atlas),
                        (width * 32) as u32,
                        (height * 32) as u32,
                    ) matches Some(bytes) && r == Ok::<Seq<u8>, RenderError>(bytes)
                }
            },
        }
    }
}

impl Terrain {
    /// Every theme's placement table.
    pub closed spec fn tables(&self) -> Seq<Seq<u16>> {
        self.tables@.map_values(|t: Vec<u16>| t@)
    }

    /// The cache of decoded atlases.
    pub closed spec fn cache(&self) -> AtlasCache {
        self.cache
    }

    /// One table per theme, and a well-formed cache.
    pub closed spec fn wf(&self) -> bool {
        &&& self.tables@.len() == THEME_COUNT
        &&& self.cache.wf()
    }

    /// How `new` follows from `old` through one render request that came with
    /// the decoder's outcome `decoded`: the tables stay; a request that fails a
    /// check leaves everything as it was; any other fetches the theme's atlas
    /// through the cache.
    pub open spec fn step(
        old: Terrain,
        new: Terrain,
        len: nat,
        width: usize,
        height: usize,
        era: usize,
        decoded: Option<DecodedImage>,
    ) -> bool {
        &&& new.wf()
        &&& new.tables() == old.tables()
        &&& !passes_checks(len, width, height, era) ==> new == old
        &&& passes_checks(len, width, height, era) ==> AtlasCache::fetched(
            old.cache(),
            new.cache(),
            Theme::at(era),
            decoded,
        )
    }

    /// Takes every theme's placement table blob, in theme order. Fails when
    /// there is not one per theme, or a blob has an odd length.
    pub fn new(maps: Vec<Vec<u8>>) -> (r: Result<Terrain, RenderError>)
        ensures
            r is Ok <==> maps@.len() == THEME_COUNT && forall|k: int|
                0 <= k < THEME_COUNT ==> #[trigger] maps@[k]@.len() % 2 == 0,
            r is Err ==> r == Err::<Terrain, RenderError>(RenderError::AtlasDecodeFailure),
            r matches Ok(t) ==> {
                &&& t.wf()
                &&& t.tables() == maps@.map_values(|m: Vec<u8>| le_u16s(m@))
                &&& forall|th: Theme| #[trigger] t.cache().atlas(th) is None
                &&& forall|th: Theme| #[trigger] t.cache().decodes(th) == 0
            },
    {
        if maps.len() != THEME_COUNT {
            return Err(RenderError::AtlasDecodeFailure);
        }
        let mut tables: Vec<Vec<u16>> = Vec::new();
        let mut k: usize = 0;
        while k < THEME_COUNT
            invariant
                k <= THEME_COUNT,
                maps@.len() == THEME_COUNT,
                tables@.len() == k,
                forall|m: int| 0 <= m < k ==> #[trigger] maps@[m]@.len() % 2 == 0,
                forall|m: int| 0 <= m < k ==> #[trigger] tables@[m]@ == le_u16s(maps@[m]@),
            decreases THEME_COUNT - k,
        {
            match decode_placement_table(maps[k].as_slice()) {
                Some(t) => tables.push(t),
                None => return Err(RenderError::AtlasDecodeFailure),
            }
            k += 1;
        }
        let t = Terrain { tables, cache: AtlasCache::new() };
        assert(t.tables() =~= maps@.map_values(|m: Vec<u8>| le_u16s(m@)));
        Ok(t)
    }

    /// Whether a render with theme number `era` needs the decoder's outcome:
    /// the number names a theme whose atlas is not held yet.
    pub fn needs_decode(&self, era: usize) -> (r: bool)
        requires
            self.wf(),
        ensures
            r == (era < THEME_COUNT && self.cache().atlas(Theme::at(era)) is None),
    {
        match Theme::from_index(era) {
            Some(t) => self.cache.needs_decode(t),
            None => false,
        }
    }

    /// How many decoder outcomes have been taken in for `theme`.
    pub fn decode_count(&self, theme: Theme) -> (r: u64)
        requires
            self.wf(),
        ensures
            r == self.cache().decodes(theme),
    {
        self.cache.decode_count(theme)
    }
}

/// Renders the `width` x `height` grid `mtxm` (row-major tile indices) with
/// theme number `era` into a PNG of `width * 32` x `height * 32` pixels.
/// `decoded` is the decoder's outcome on the theme's compressed atlas; it is
/// used only when `needs_decode(era)` holds, and may be `None` otherwise.
pub fn render(
    mtxm: &[u16],
    width: usize,
    height: usize,
    era: usize,
    terrain: &mut Terrain,
    decoded: Option<DecodedImage>,
) -> (r: Result<Vec<u8>, RenderError>)
    requires
        old(terrain).wf(),
    ensures
        Terrain::step(*old(terrain), *final(terrain), mtxm@.len(), width, height, era, decoded),
        renders_to(
            mtxm@,
            width,
            height,
            era,
            old(terrain).tables(),
            final(terrain).cache().atlas(Theme::at(era)),
            result_view(r),
        ),
{
    let theme = match Theme::from_index(era) {
        Some(t) => t,
        None => return Err(RenderError::UnknownTheme),
    };
    if width == 0 || height == 0 {
        return Err(RenderError::InvalidDimensions);
    }
    let len = mtxm.len();
    let cells = match width.checked_mul(height) {
        Some(n) => n,
        None => return Err(RenderError::InvalidDimensions),
    };
    if cells != mtxm.len() {
        return Err(RenderError::InvalidDimensions);
    }
    if width > (u32::MAX / 32) as usize || height > (u32::MAX / 32) as usize || cells > usize::MAX
        / 3072 {
        return Err(RenderError::CanvasTooLarge);
    }
    let k = theme.index();
    let fetched = terrain.cache.get_or_insert(theme, decoded);
    if fetched.is_err() {
        return Err(RenderError::AtlasDecodeFailure);
    }
    let atlas = match terrain.cache.cached_atlas(theme) {
        Some(a) => a,
        None => return Err(RenderError::AtlasDecodeFailure),
    };
    let canvas = match composite(mtxm, width, height, terrain.tables[k].as_slice(), atlas.as_slice()) {
        Ok(c) => c,
        Err(e) => return Err(e),
    };
    let w_px = (width * 32) as u32;
    let h_px = (height * 32) as u32;
    assert(canvas@.len() == w_px * h_px * 3) by (nonlinear_arith)
        requires
            canvas@.len() == width * 32 * height * 32 * 3,
            w_px == width * 32,
            h_px == height * 32,
    ;
    match encode_png(canvas.as_slice(), w_px, h_px) {
        Ok(bytes) => Ok(bytes),
        Err(_) => Err(RenderError::EncodeFailure),
    }
}

/// Rendering is deterministic: the same grid, dimensions and theme, with the
/// same placement tables and the same atlas, always give the same outcome,
/// byte for byte.
pub proof fn lemma_render_deterministic(
    grid: Seq<u16>,
    width: usize,
    height: usize,
    era: usize,
    tables: Seq<Seq<u16>>,
    atlas: Option<Seq<u8>>,
    r1: Result<Seq<u8>, RenderError>,
    r2: Result<Seq<u8>, RenderError>,
)
    requires
        tables.len() == THEME_COUNT,
        renders_to(grid, width, height, era, tables, atlas, r1),
        renders_to(grid, width, height, era, tables, atlas, r2),
    ensures
        r1 == r2,
{
    if era < THEME_COUNT && dims_ok(grid.len(), width, height) && canvas_fits(width, height) {
        if let Some(atlas) = atlas {
            let table = tables[era as int];
            if !all_ok(grid, width as int, height as int, table, atlas.len() as int) {
                lemma_first_fault_unique(
                    r1->Err_0,
                    r2->Err_0,
                    grid,
                    width as int,
                    height as int,
                    table,
                    atlas.len() as int,
                );
            }
        }
    }
}

/// Once a render of a theme has succeeded, the theme needs no decode anymore:
/// a later render of it takes in no decoder outcome, and the decode count and
/// the held atlas stay.
pub proof fn lemma_second_render_does_not_decode(
    t0: Terrain,
    t1: Terrain,
    t2: Terrain,
    grid1: Seq<u16>,
    width1: usize,
    height1: usize,
    decoded1: Option<DecodedImage>,
    r1: Result<Seq<u8>, RenderError>,
    len2: nat,
    width2: usize,
    height2: usize,
    decoded2: Option<DecodedImage>,
    era: usize,
)
    requires
        t0.wf(),
        Terrain::step(t0, t1, grid1.len(), width1, height1, era, decoded1),
        renders_to(grid1, width1, height1, era, t0.tables(), t1.cache().atlas(Theme::at(era)), r1),
        r1 is Ok,
        Terrain::step(t1, t2, len2, width2, height2, era, decoded2),
    ensures
        t1.cache().atlas(Theme::at(era)) is Some,
        t2.cache().decodes(Theme::at(era)) == t1.cache().decodes(Theme::at(era)),
        t2.cache().atlas(Theme::at(era)) == t1.cache().atlas(Theme::at(era)),
        t1.cache().decodes(Theme::at(era)) <= t0.cache().decodes(Theme::at(era)) + 1,
{
}

/// Any run of renders with one theme, whatever their grids, takes in at most
/// one decoder outcome for that theme, provided that each outcome handed over
/// while the atlas is not yet held is a usable atlas.
pub proof fn lemma_renders_decode_at_most_once(
    terrains: Seq<Terrain>,
    lens: Seq<nat>,
    widths: Seq<usize>,
    heights: Seq<usize>,
    outcomes: Seq<Option<DecodedImage>>,
    era: usize,
)
    requires
        terrains.len() >= 1,
        lens.len() == widths.len() == heights.len() == outcomes.len() == terrains.len() - 1,
        terrains[0].wf(),
        era < THEME_COUNT,
        forall|k: int|
            0 <= k < terrains.len() - 1 ==> #[trigger] Terrain::step(
                terrains[k],
                terrains[k + 1],
                lens[k],
                widths[k],
                heights[k],
                era,
                outcomes[k],
            ),
        forall|k: int|
            0 <= k < terrains.len() - 1 && terrains[k].cache().atlas(Theme::at(era)) is None
                ==> #[trigger] atlas_from(outcomes[k]) is Some,
    ensures
        terrains.last().cache().decodes(Theme::at(era)) <= terrains[0].cache().decodes(
            Theme::at(era),
        ) + 1,
{
    lemma_decodes_along_run(terrains, lens, widths, heights, outcomes, era, terrains.len() - 1);
}

/// Along a run of renders, the decode count stays until the theme's atlas is
/// held, and grows by at most one in all.
proof fn lemma_decodes_along_run(
    terrains: Seq<Terrain>,
    lens: Seq<nat>,
    widths: Seq<usize>,
    heights: Seq<usize>,
    outcomes: Seq<Option<DecodedImage>>,
    era: usize,
    n: int,
)
    requires
        0 <= n < terrains.len(),
        lens.len() == widths.len() == heights.len() == outcomes.len() == terrains.len() - 1,
        terrains[0].wf(),
        era < THEME_COUNT,
        forall|k: int|
            0 <= k < terrains.len() - 1 ==> #[trigger] Terrain::step(
                terrains[k],
                terrains[k + 1],
                lens[k],
                widths[k],
                heights[k],
                era,
                outcomes[k],
            ),
        forall|k: int|
            0 <= k < terrains.len() - 1 && terrains[k].cache().atlas(Theme::at(era)) is None
                ==> #[trigger] atlas_from(outcomes[k]) is Some,
    ensures
        terrains[n].cache().atlas(Theme::at(era)) is None ==> terrains[n].cache().decodes(
            Theme::at(era),
        ) == terrains[0].cache().decodes(Theme::at(era)),
        terrains[n].cache().decodes(Theme::at(era)) <= terrains[0].cache().decodes(Theme::at(era))
            + 1,
    decreases n,
{
    if n > 0 {
        let k = n - 1;
        lemma_decodes_along_run(terrains, lens, widths, heights, outcomes, era, k);
        assert(Terrain::step(
            terrains[k],
            terrains[k + 1],
            lens[k],
            widths[k],
            heights[k],
            era,
            outcomes[k],
        ));
        if terrains[k].cache().atlas(Theme::at(era)) is None {
            assert(atlas_from(outcomes[k]) is Some);
        }
    }
}

/// A grid whose tile indices all lie in the placement table, but one of whose
/// pixels would be read past the end of the atlas, renders to
/// `PixelAddressOutOfRange`, naming the first such pixel in row-major order.
pub proof fn lemma_out_of_range_pixel_is_reported(
    grid: Seq<u16>,
    width: usize,
    height: usize,
    era: usize,
    tables: Seq<Seq<u16>>,
    atlas: Seq<u8>,
    r: Result<Seq<u8>, RenderError>,
    x: int,
    y: int,
    i: int,
    j: int,
)
    requires
        tables.len() == THEME_COUNT,
        passes_checks(grid.len(), width, height, era),
        forall|k: int| 0 <= k < grid.len() ==> (#[trigger] grid[k] as int) < tables[era as int].len(),
        0 <= x < width,
        0 <= y < height,
        0 <= i < 32,
        0 <= j < 32,
        source_offset(tables[era as int][tile_at(grid, width as int, x, y) as int], i, j) + 3
            > atlas.len(),
        renders_to(grid, width, height, era, tables, Some(atlas), r),
    ensures
        r matches Err(e) && e is PixelAddressOutOfRange && is_first_fault(
            e,
            grid,
            width as int,
            height as int,
            tables[era as int],
            atlas.len() as int,
        ),
{
    let table = tables[era as int];
    let n = atlas.len() as int;
    assert(0 <= x + y * width < grid.len()) by (nonlinear_arith)
        requires
            0 <= x < width,
            0 <= y < height,
            grid.len() == width * height,
    ;
    assert(!pixel_ok(grid, width as int, table, n, x, y, i, j));
    assert(!cell_ok(grid, width as int, table, n, x, y));
    let e = r->Err_0;
    if let RenderError::TileIndexOutOfRange { x: x2, y: y2, tile } = e {
        assert(0 <= x2 + y2 * width < grid.len()) by (nonlinear_arith)
            requires
                x2 < width,
                y2 < height,
                grid.len() == width * height,
        ;
        assert(tile == grid[x2 + y2 * width]);
    }
}

} // verus!
