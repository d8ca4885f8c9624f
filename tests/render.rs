use image::{ImageDecoder, ImageEncoder};
use terrain_render::cache::DecodedImage;
use terrain_render::compositor::composite;
use terrain_render::error::RenderError;
use terrain_render::placement::decode_placement_table;
use terrain_render::render::{render, Terrain};
use terrain_render::theme::Theme;

const ATLAS_WIDTH: u32 = 2048;

fn atlas_pixel(px: u32, py: u32) -> [u8; 4] {
    [
        (px % 251) as u8,
        (py % 241) as u8,
        ((px / 32) * 3 + (py / 32) * 17) as u8,
        255,
    ]
}

fn atlas_rgba(rows: u32) -> Vec<u8> {
    let mut out = Vec::new();
    for py in 0..rows * 32 {
        for px in 0..ATLAS_WIDTH {
            out.extend_from_slice(&atlas_pixel(px, py));
        }
    }
    out
}

fn webp_of(rgba: &[u8], width: u32, height: u32) -> Vec<u8> {
    let mut out = Vec::new();
    image::codecs::webp::WebPEncoder::new_lossless(&mut out)
        .write_image(rgba, width, height, image::ColorType::Rgba8)
        .unwrap();
    out
}

fn table_blob(entries: &[u16]) -> Vec<u8> {
    let mut out = Vec::new();
    for e in entries {
        out.extend_from_slice(&e.to_le_bytes());
    }
    out
}

fn terrain(entries: &[u16]) -> Terrain {
    Terrain::new(vec![table_blob(entries); 8]).unwrap()
}

fn decoded(rows: u32) -> Option<DecodedImage> {
    Some(DecodedImage { pixels: atlas_rgba(rows), width: ATLAS_WIDTH, height: rows * 32, channels: 4 })
}

fn decode_webp(bytes: &[u8]) -> Option<DecodedImage> {
    let decoder = image::codecs::webp::WebPDecoder::new(bytes).ok()?;
    let (width, height) = decoder.dimensions();
    let channels = decoder.color_type().bytes_per_pixel();
    let mut pixels = vec![0u8; decoder.total_bytes() as usize];
    decoder.read_image(&mut pixels).ok()?;
    Some(DecodedImage { pixels, width, height, channels })
}

fn decode_png(bytes: &[u8]) -> (u32, u32, Vec<u8>) {
    let img = image::load_from_memory_with_format(bytes, image::ImageFormat::Png)
        .unwrap()
        .to_rgb8();
    (img.width(), img.height(), img.into_raw())
}

/// Checks that canvas cell `(x, y)` holds atlas cell `placement`, alpha dropped.
fn assert_cell(canvas: &[u8], canvas_width_px: u32, x: u32, y: u32, placement: u16) {
    let col = placement as u32 % 64;
    let row = placement as u32 / 64;
    for j in 0..32 {
        for i in 0..32 {
            let o = (((x * 32 + i) + (y * 32 + j) * canvas_width_px) * 3) as usize;
            let p = atlas_pixel(col * 32 + i, row * 32 + j);
            assert_eq!(&canvas[o..o + 3], &p[..3], "cell ({x}, {y}) pixel ({i}, {j})");
        }
    }
}

#[test]
fn two_tiles_badlands() {
    let mut t = terrain(&[5, 70]);
    let png = render(&[0, 1], 2, 1, Theme::Badlands.index(), &mut t, decoded(2)).unwrap();
    let (w, h, canvas) = decode_png(&png);
    assert_eq!((w, h), (64, 32));
    assert_cell(&canvas, 64, 0, 0, 5);
    assert_cell(&canvas, 64, 1, 0, 70);
}

#[test]
fn single_zero_tile_is_atlas_cell_origin() {
    let mut t = terrain(&[0]);
    let png = render(&[0], 1, 1, 3, &mut t, decoded(1)).unwrap();
    let (w, h, canvas) = decode_png(&png);
    assert_eq!((w, h), (32, 32));
    assert_eq!(canvas.len(), 32 * 32 * 3);
    assert_cell(&canvas, 32, 0, 0, 0);
}

#[test]
fn grid_cells_land_row_major() {
    let mut t = terrain(&[1, 2, 65, 127]);
    let png = render(&[3, 2, 1, 0, 0, 2], 3, 2, 6, &mut t, decoded(2)).unwrap();
    let (w, h, canvas) = decode_png(&png);
    assert_eq!((w, h), (96, 64));
    assert_cell(&canvas, 96, 0, 0, 127);
    assert_cell(&canvas, 96, 1, 0, 65);
    assert_cell(&canvas, 96, 2, 0, 2);
    assert_cell(&canvas, 96, 0, 1, 1);
    assert_cell(&canvas, 96, 1, 1, 1);
    assert_cell(&canvas, 96, 2, 1, 65);
}

#[test]
fn webp_atlas_renders() {
    let sheet = webp_of(&atlas_rgba(2), ATLAS_WIDTH, 64);
    let mut t = terrain(&[5, 70]);
    assert!(t.needs_decode(0));
    let png = render(&[1, 0], 2, 1, 0, &mut t, decode_webp(&sheet)).unwrap();
    let (w, h, canvas) = decode_png(&png);
    assert_eq!((w, h), (64, 32));
    assert_cell(&canvas, 64, 0, 0, 70);
    assert_cell(&canvas, 64, 1, 0, 5);
    assert!(!t.needs_decode(0));
}

#[test]
fn render_is_deterministic() {
    let mut t = terrain(&[5, 70, 3]);
    let grid = [2, 0, 1, 1];
    let first = render(&grid, 2, 2, 1, &mut t, decoded(2)).unwrap();
    let second = render(&grid, 2, 2, 1, &mut t, None).unwrap();
    assert_eq!(first, second);
    let mut fresh = terrain(&[5, 70, 3]);
    let third = render(&grid, 2, 2, 1, &mut fresh, decoded(2)).unwrap();
    assert_eq!(first, third);
}

#[test]
fn second_render_does_not_decode() {
    let mut t = terrain(&[0, 1]);
    assert_eq!(t.decode_count(Theme::Jungle), 0);
    assert!(t.needs_decode(4));
    render(&[0], 1, 1, 4, &mut t, decoded(1)).unwrap();
    assert_eq!(t.decode_count(Theme::Jungle), 1);
    assert!(!t.needs_decode(4));
    // An outcome handed over while the atlas is held is ignored.
    render(&[1, 0], 2, 1, 4, &mut t, None).unwrap();
    render(&[1, 0], 2, 1, 4, &mut t, decoded(1)).unwrap();
    assert_eq!(t.decode_count(Theme::Jungle), 1);
    assert_eq!(t.decode_count(Theme::Badlands), 0);
    assert!(t.needs_decode(0));
    assert!(!t.needs_decode(8));
}

#[test]
fn many_renders_decode_once() {
    let mut t = terrain(&[7, 9]);
    let mut outputs = Vec::new();
    for _ in 0..6 {
        let outcome = if t.needs_decode(7) { decoded(1) } else { None };
        outputs.push(render(&[1, 0], 2, 1, 7, &mut t, outcome).unwrap());
    }
    assert_eq!(t.decode_count(Theme::Twilight), 1);
    for png in &outputs {
        assert_eq!(png, &outputs[0]);
        let (w, h, canvas) = decode_png(png);
        assert_eq!((w, h), (64, 32));
        assert_cell(&canvas, 64, 0, 0, 9);
        assert_cell(&canvas, 64, 1, 0, 7);
    }
}

#[test]
fn grid_length_mismatch_is_invalid_dimensions() {
    let mut t = terrain(&[0]);
    assert_eq!(render(&[0, 0, 0], 2, 1, 0, &mut t, decoded(1)), Err(RenderError::InvalidDimensions));
    assert_eq!(render(&[0], 1, 2, 0, &mut t, decoded(1)), Err(RenderError::InvalidDimensions));
    assert_eq!(t.decode_count(Theme::Badlands), 0);
    assert!(t.needs_decode(0));
}

#[test]
fn zero_dimension_is_invalid_dimensions() {
    let mut t = terrain(&[0]);
    assert_eq!(render(&[], 0, 3, 0, &mut t, decoded(1)), Err(RenderError::InvalidDimensions));
    assert_eq!(render(&[], 3, 0, 0, &mut t, decoded(1)), Err(RenderError::InvalidDimensions));
    assert_eq!(t.decode_count(Theme::Badlands), 0);
}

#[test]
fn unknown_theme_is_rejected() {
    let mut t = terrain(&[0]);
    assert_eq!(render(&[0], 1, 1, 8, &mut t, decoded(1)), Err(RenderError::UnknownTheme));
    assert_eq!(render(&[0], 1, 1, usize::MAX, &mut t, None), Err(RenderError::UnknownTheme));
}

#[test]
fn oversized_canvas_is_rejected() {
    let mut t = terrain(&[0]);
    let width = (u32::MAX / 32) as usize + 1;
    let grid = vec![0u16; width];
    assert_eq!(render(&grid, width, 1, 0, &mut t, decoded(1)), Err(RenderError::CanvasTooLarge));
    assert_eq!(t.decode_count(Theme::Badlands), 0);
}

#[test]
fn placement_past_atlas_reports_first_cell() {
    // One atlas row: placement 64 names a cell of the missing second row.
    let mut t = terrain(&[0, 64]);
    let r = render(&[0, 0, 1, 1], 2, 2, 0, &mut t, decoded(1));
    assert_eq!(
        r,
        Err(RenderError::PixelAddressOutOfRange {
            x: 0,
            y: 1,
            i: 0,
            j: 0,
            offset: 32 * 2048 * 4,
            atlas_len: 32 * 2048 * 4,
        })
    );
}

#[test]
fn tile_index_past_table_is_reported() {
    let mut t = terrain(&[0, 1]);
    let r = render(&[0, 1, 7, 9], 2, 2, 0, &mut t, decoded(1));
    assert_eq!(r, Err(RenderError::TileIndexOutOfRange { x: 0, y: 1, tile: 7 }));
}

#[test]
fn failed_decode_is_decode_failure() {
    let mut t = terrain(&[0]);
    assert_eq!(render(&[0], 1, 1, 2, &mut t, None), Err(RenderError::AtlasDecodeFailure));
    assert_eq!(t.decode_count(Theme::Install), 1);
    assert!(t.needs_decode(2));
    assert_eq!(render(&[0], 1, 1, 2, &mut t, decode_webp(&[1, 2, 3, 4, 5])), Err(RenderError::AtlasDecodeFailure));
    assert_eq!(t.decode_count(Theme::Install), 2);
}

#[test]
fn narrow_atlas_is_decode_failure() {
    let narrow = DecodedImage { pixels: vec![255u8; 1024 * 32 * 4], width: 1024, height: 32, channels: 4 };
    let mut t = terrain(&[0]);
    assert_eq!(render(&[0], 1, 1, 5, &mut t, Some(narrow)), Err(RenderError::AtlasDecodeFailure));
}

#[test]
fn rgb_atlas_is_decode_failure() {
    let rgb = DecodedImage { pixels: vec![0u8; 2048 * 32 * 3], width: 2048, height: 32, channels: 3 };
    let mut t = terrain(&[0]);
    assert_eq!(render(&[0], 1, 1, 5, &mut t, Some(rgb)), Err(RenderError::AtlasDecodeFailure));
}

#[test]
fn short_atlas_buffer_is_decode_failure() {
    let short = DecodedImage { pixels: vec![0u8; 100], width: 2048, height: 32, channels: 4 };
    let mut t = terrain(&[0]);
    assert_eq!(render(&[0], 1, 1, 5, &mut t, Some(short)), Err(RenderError::AtlasDecodeFailure));
}

#[test]
fn terrain_needs_every_theme() {
    let r = Terrain::new(vec![table_blob(&[0]); 7]);
    assert!(matches!(r, Err(RenderError::AtlasDecodeFailure)));
    let mut maps = vec![table_blob(&[0]); 8];
    maps[3].push(1);
    let r = Terrain::new(maps);
    assert!(matches!(r, Err(RenderError::AtlasDecodeFailure)));
}

#[test]
fn placement_table_reads_little_endian() {
    assert_eq!(decode_placement_table(&[1, 2, 3, 4]), Some(vec![0x0201, 0x0403]));
    assert_eq!(decode_placement_table(&[0xff, 0xff]), Some(vec![0xffff]));
    assert_eq!(decode_placement_table(&[]), Some(vec![]));
    assert_eq!(decode_placement_table(&[1, 2, 3]), None);
}

#[test]
fn composite_copies_rgb_of_atlas_cell() {
    let atlas = atlas_rgba(1);
    let canvas = composite(&[0, 1], 2, 1, &[3, 10], &atlas).unwrap();
    assert_eq!(canvas.len(), 64 * 32 * 3);
    assert_cell(&canvas, 64, 0, 0, 3);
    assert_cell(&canvas, 64, 1, 0, 10);
    // Pixel (1, 2) of the left cell: atlas pixel (97, 2).
    let o = ((1 + 2 * 64) * 3) as usize;
    assert_eq!(&canvas[o..o + 3], &[97, 2, 9]);
}

#[test]
fn composite_reports_partial_pixel() {
    // An atlas that ends inside the last pixel of cell 0's first row.
    let atlas = vec![0u8; 31 * 4 + 2];
    let r = composite(&[0], 1, 1, &[0], &atlas);
    assert_eq!(
        r,
        Err(RenderError::PixelAddressOutOfRange { x: 0, y: 0, i: 31, j: 0, offset: 124, atlas_len: 126 })
    );
}

#[test]
fn theme_numbers() {
    assert_eq!(Theme::from_index(0), Some(Theme::Badlands));
    assert_eq!(Theme::from_index(7), Some(Theme::Twilight));
    assert_eq!(Theme::from_index(8), None);
    assert_eq!(Theme::Ice.index(), 6);
}
