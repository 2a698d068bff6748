use termway::cells::{
    encode_cell_diff, encode_half_blocks, render_half_blocks_viewport, Cell, RenderedFrame,
};
use termway::pixels::RgbImage;
use termway::render::{
    align_raster_to_cell_grid, cells_for_target_pixels, changed_raster_tiles, fit_dimensions,
    fitted_sample_size, map_viewport_to_raster, pixel_boundary, reduce_color_precision,
    render_raster_viewport, validate_viewport, RasterFrame, Viewport, ViewportError, ViewportRect,
};

fn whole(image: &RgbImage) -> ViewportRect {
    ViewportRect { x: 0, y: 0, width: image.width, height: image.height }
}

fn render_half_blocks(image: &RgbImage, max_cols: u16, max_rows: u16) -> RenderedFrame {
    match render_half_blocks_viewport(image, max_cols, max_rows, Viewport::default(), whole(image)) {
        Ok(frame) => frame,
        Err(error) => panic!("{}", error.message()),
    }
}

fn raster_size(rect: ViewportRect, max_width: u32, max_height: u32) -> (u32, u32) {
    let (fitted_width, fitted_height) =
        fitted_sample_size(rect.width, rect.height, max_width.max(1), max_height.max(1));
    let scale = (fitted_width as f64 / rect.width as f64)
        .min(fitted_height as f64 / rect.height as f64)
        .min(1.0);
    (
        (rect.width as f64 * scale).round().max(1.0) as u32,
        (rect.height as f64 * scale).round().max(1.0) as u32,
    )
}

fn raster(image: &RgbImage, max_width: u32, max_height: u32) -> RasterFrame {
    let rect = whole(image);
    let (width, height) = raster_size(rect, max_width, max_height);
    match render_raster_viewport(image, Viewport::default(), rect, width, height) {
        Ok(frame) => frame,
        Err(error) => panic!("{}", error.message()),
    }
}

fn dimensions(image: &RgbImage) -> (u32, u32) {
    (image.width, image.height)
}

#[test]
fn fits_wide_image_by_width() {
    assert_eq!(fitted_sample_size(1600, 1000, 80, 48), (76, 48));
}

#[test]
fn fits_tall_image_by_height() {
    assert_eq!(fitted_sample_size(1000, 1600, 80, 48), (30, 48));
}

#[test]
fn encodes_top_as_foreground_and_bottom_as_background() {
    let image = RgbImage::from_raw(1, 2, vec![1, 2, 3, 4, 5, 6]).unwrap();
    let rendered = render_half_blocks(&image, 1, 1);
    assert_eq!(rendered.cols, 1);
    assert_eq!(rendered.rows, 1);
    assert_eq!(
        String::from_utf8(rendered.bytes).unwrap(),
        "\x1b[38;2;1;2;3;48;2;4;5;6m▀\x1b[0m\x1b[K\r\n\x1b[0m"
    );
}

#[test]
fn cell_diff_writes_only_changed_runs_at_absolute_positions() {
    let black = Cell { foreground: [0, 0, 0], background: [0, 0, 0] };
    let red = Cell { foreground: [255, 0, 0], background: [0, 0, 0] };
    let previous = vec![black; 6];
    let mut current = previous.clone();
    current[1] = red;
    current[2] = red;
    current[5] = red;

    let diff = String::from_utf8(encode_cell_diff(&previous, &current, 3)).unwrap();
    assert_eq!(
        diff,
        "\x1b[1;2H\x1b[38;2;255;0;0;48;2;0;0;0m▀▀\x1b[2;3H▀\x1b[0m"
    );
}

#[test]
fn flat_ansi_runs_reuse_terminal_colors() {
    let image = RgbImage::from_pixel(80, 48, [12, 34, 56]);
    let rendered = render_half_blocks(&image, 80, 24);
    assert!(rendered.bytes.len() < 10_000, "{} bytes", rendered.bytes.len());
}

#[test]
fn identical_cells_produce_no_terminal_output() {
    let cell = Cell { foreground: [1, 2, 3], background: [4, 5, 6] };
    assert!(encode_cell_diff(&[cell; 4], &[cell; 4], 2).is_empty());
}

#[test]
fn maps_source_viewport_to_downscaled_raster_with_outward_rounding() {
    assert_eq!(
        map_viewport_to_raster(
            ViewportRect { x: 251, y: 101, width: 499, height: 299 },
            1000,
            600,
            400,
            240,
        ),
        ViewportRect { x: 100, y: 40, width: 200, height: 120 }
    );
}

#[test]
fn rejects_invalid_viewport() {
    let image = RgbImage::new(1, 1);
    let viewport = Viewport { zoom: 0.5f32.to_bits(), ..Viewport::default() };
    assert!(render_half_blocks_viewport(&image, 1, 1, viewport, whole(&image)).is_err());
}

#[test]
fn raster_viewport_downscales_but_does_not_wastefully_upscale() {
    let image = RgbImage::new(100, 50);
    assert_eq!(dimensions(&raster(&image, 40, 40).image), (40, 20));
    assert_eq!(dimensions(&raster(&image, 200, 200).image), (100, 50));
}

#[test]
fn raster_resolution_can_be_capped_without_shrinking_its_display_box() {
    let image = RgbImage::new(3200, 1800);
    let capped = raster(&image, 1920, 1080);
    assert_eq!(dimensions(&capped.image), (1920, 1080));
    assert_eq!(
        fit_dimensions(capped.viewport.width, capped.viewport.height, 3200, 1800),
        (3200, 1800)
    );
}

#[test]
fn cell_aligned_raster_has_the_exact_placement_aspect_ratio() {
    let image = RgbImage::new(320, 180);
    let aligned = align_raster_to_cell_grid(&image, 40, 12, 8, 16, 1920, 1080);
    assert_eq!(dimensions(&aligned), (320, 192));
    assert_eq!(aligned.width * 12 * 16, aligned.height * 40 * 8);
}

#[test]
fn reduced_color_precision_has_a_strict_one_level_error_at_seven_bits() {
    let mut image = RgbImage::from_raw(2, 1, vec![0, 1, 2, 127, 128, 255]).unwrap();
    let original = image.duplicate();
    reduce_color_precision(&mut image, 7);
    assert_eq!(image.data, [0, 0, 2, 126, 128, 254]);
    assert!(original
        .data
        .iter()
        .zip(&image.data)
        .all(|(before, after)| before.abs_diff(*after) <= 1));
}

#[test]
fn raster_tiles_are_cell_aligned_and_only_emit_changes() {
    let previous = RgbImage::new(320, 180);
    let mut current = previous.duplicate();
    current.put_pixel(150, 20, [1, 2, 3]);
    let tiles = changed_raster_tiles(Some(&previous), &current, 40, 18, 128);
    assert_eq!(tiles.len(), 1);
    assert_eq!(tiles[0].index, 1);
    assert_eq!((tiles[0].col, tiles[0].row), (16, 0));
    assert_eq!((tiles[0].cols, tiles[0].rows), (16, 13));
    assert_eq!(dimensions(&tiles[0].image), (128, 130));

    let all = changed_raster_tiles(None, &current, 40, 18, 128);
    assert_eq!(all.len(), 6);
    assert_eq!(all.last().unwrap().index, 5);
    assert_eq!((all.last().unwrap().cols, all.last().unwrap().rows), (8, 5));
    assert_eq!(dimensions(&all.last().unwrap().image), (64, 50));
}

#[test]
fn tiles_cover_every_pixel_once() {
    let mut image = RgbImage::new(317, 101);
    for y in 0..101 {
        for x in 0..317 {
            image.put_pixel(x, y, [x as u8, y as u8, (x / 256) as u8]);
        }
    }
    let mut seen = vec![0u32; 317 * 101];
    for tile in changed_raster_tiles(None, &image, 41, 13, 50) {
        let x = pixel_boundary(u32::from(tile.col), 317, 41);
        let y = pixel_boundary(u32::from(tile.row), 101, 13);
        for row in 0..tile.image.height {
            for col in 0..tile.image.width {
                assert_eq!(tile.image.pixel(col, row), image.pixel(x + col, y + row));
                seen[((y + row) * 317 + x + col) as usize] += 1;
            }
        }
    }
    assert!(seen.iter().all(|count| *count == 1));
    assert!(changed_raster_tiles(Some(&image), &image, 41, 13, 50).is_empty());
}

#[test]
fn viewports_are_checked_field_by_field() {
    let viewport = |zoom: f32, x: f32, y: f32| Viewport {
        zoom: zoom.to_bits(),
        center_x: x.to_bits(),
        center_y: y.to_bits(),
    };
    assert_eq!(validate_viewport(Viewport::default()), Ok(()));
    assert_eq!(viewport(1.0, 0.5, 0.5), Viewport::default());
    for zoom in [0.5, 0.0, -1.0, f32::NAN, f32::INFINITY] {
        assert_eq!(validate_viewport(viewport(zoom, 0.5, 0.5)), Err(ViewportError::Zoom));
    }
    assert_eq!(validate_viewport(viewport(f32::MAX, 0.0, 1.0)), Ok(()));
    assert_eq!(validate_viewport(viewport(1.0, -0.0, 1.0)), Ok(()));
    for center in [-0.1, 1.1, f32::NAN, f32::NEG_INFINITY] {
        assert_eq!(validate_viewport(viewport(1.0, center, 2.0)), Err(ViewportError::CenterX));
        assert_eq!(validate_viewport(viewport(1.0, 0.5, center)), Err(ViewportError::CenterY));
    }
    assert_eq!(ViewportError::CenterX.message(), "center-x must be between 0.0 and 1.0");
}

#[test]
fn sampling_averages_pixels() {
    let image = RgbImage::from_raw(2, 1, vec![0, 0, 0, 200, 100, 50]).unwrap();
    let small = image.resize(1, 1);
    assert_eq!(small.data, [100, 50, 25]);
    let same = image.resize(2, 1);
    assert_eq!(same.data, image.data);
    let odd = RgbImage::from_raw(1, 3, vec![1, 1, 1, 2, 2, 2, 3, 3, 3]).unwrap();
    let (bytes, cells) = encode_half_blocks(&odd);
    assert_eq!(cells.len(), 2);
    assert_eq!(cells[1].foreground, [3, 3, 3]);
    assert_eq!(cells[1].background, [0, 0, 0]);
    assert!(bytes.ends_with(b"\x1b[0m\x1b[K\r\n\x1b[0m"));
}

#[test]
fn only_changed_colours_are_written() {
    let image =
        RgbImage::from_raw(2, 2, vec![1, 1, 1, 1, 1, 1, 2, 2, 2, 3, 3, 3]).unwrap();
    let (bytes, _) = encode_half_blocks(&image);
    assert_eq!(
        String::from_utf8(bytes).unwrap(),
        "\x1b[38;2;1;1;1;48;2;2;2;2m▀\x1b[48;2;3;3;3m▀\x1b[0m\x1b[K\r\n\x1b[0m"
    );
}

#[test]
fn crops_stay_visible_however_small() {
    let pixel = ViewportRect { x: 999, y: 599, width: 1, height: 1 };
    assert_eq!(
        map_viewport_to_raster(pixel, 1000, 600, 4, 3),
        ViewportRect { x: 3, y: 2, width: 1, height: 1 }
    );
    assert_eq!(fit_dimensions(10, 10, 0, 0), (1, 1));
    assert_eq!(cells_for_target_pixels(128, 320, 40), 16);
    assert_eq!(cells_for_target_pixels(128, 64, 8), 8);
    assert_eq!(cells_for_target_pixels(1, 1_000_000, 8), 1);
}

/// A terminal that knows cursor movements, colours and half blocks.
fn applied(cells: &[Cell], cols: usize, output: &str) -> Vec<Cell> {
    let mut cells = cells.to_vec();
    let (mut at, mut foreground, mut background) = (0, [0; 3], [0; 3]);
    let mut rest = output;
    while let Some(first) = rest.chars().next() {
        if first == '▀' {
            cells[at] = Cell { foreground, background };
            at += 1;
            rest = &rest['▀'.len_utf8()..];
            continue;
        }
        let end = rest.find(|c| c == 'H' || c == 'm').unwrap();
        let numbers: Vec<usize> =
            rest[2..end].split(';').map(|number| number.parse().unwrap()).collect();
        if rest[end..].starts_with('H') {
            at = (numbers[0] - 1) * cols + numbers[1] - 1;
        }
        for set in numbers.windows(5) {
            let colour = [set[2] as u8, set[3] as u8, set[4] as u8];
            match (set[0], set[1]) {
                (38, 2) => foreground = colour,
                (48, 2) => background = colour,
                _ => {}
            }
        }
        rest = &rest[end + 1..];
    }
    cells
}

#[test]
fn differences_lead_from_one_frame_to_the_next() {
    let cell = |top: u8, bottom: u8| Cell { foreground: [top; 3], background: [bottom; 3] };
    let previous: Vec<Cell> = (0..24).map(|i| cell(i % 5, i % 3)).collect();
    let current: Vec<Cell> = (0..24).map(|i| cell(i % 4, i % 2 + i % 3)).collect();
    for cols in [1, 3, 8, 24] {
        let diff = String::from_utf8(encode_cell_diff(&previous, &current, cols)).unwrap();
        assert!(applied(&previous, cols as usize, &diff) == current);
    }
}

#[test]
fn sent_tiles_over_the_last_raster_show_the_new_one() {
    let previous = RgbImage::from_pixel(97, 53, [9, 9, 9]);
    let mut current = previous.duplicate();
    for (x, y) in [(0, 0), (50, 20), (96, 52), (51, 21)] {
        current.put_pixel(x, y, [x as u8, y as u8, 1]);
    }
    let tiles = changed_raster_tiles(Some(&previous), &current, 12, 7, 16);
    assert!(tiles.len() < changed_raster_tiles(None, &current, 12, 7, 16).len());
    let mut shown = previous.duplicate();
    for tile in &tiles {
        let left = pixel_boundary(u32::from(tile.col), 97, 12);
        let top = pixel_boundary(u32::from(tile.row), 53, 7);
        for y in 0..tile.image.height {
            for x in 0..tile.image.width {
                shown.put_pixel(left + x, top + y, tile.image.pixel(x, y));
            }
        }
    }
    assert!(shown.data == current.data);
}
