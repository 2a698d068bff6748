//! What holds of sizes, crops, tiles and cell updates as a whole.

use crate::arith;
use crate::cells;
use crate::cells::Cell;
use crate::pixels::Pixels;
use crate::render;
use crate::render::{TileGrid, TileView};
use vstd::arithmetic::div_mod::*;
use vstd::arithmetic::mul::*;
use vstd::prelude::*;
use vstd::utf8::*;

verus! {

/// A fitted size lies in its box, fills it in one direction and is never empty. In the other
/// direction it is as large as the shape allows.
pub proof fn lemma_fit_within(width: u32, height: u32, max_width: u32, max_height: u32)
    requires
        width > 0,
        height > 0,
        max_width > 0,
        max_height > 0,
        height * max_width < 0x1_0000_0000 * width,
    ensures
        ({
            let size = render::fitted(width, height, max_width, max_height);
            &&& 1 <= size.0 <= max_width
            &&& 1 <= size.1 <= max_height
            &&& size.0 == max_width || size.1 == max_height
            &&& height * max_width < (max_height + 1) * width ==> size.0 == max_width && (size.1
                == 1 || size.1 * width <= height * max_width) && height * max_width < (size.1 + 1)
                * width
            &&& height * max_width >= (max_height + 1) * width ==> size.1 == max_height && (size.0
                == 1 || size.0 * height <= width * max_height) && width * max_height < (size.0
                + 1) * height
        }),
{
    let (w, h, mw, mh) = (width as int, height as int, max_width as int, max_height as int);
    let high = h * mw / w;
    lemma_fundamental_div_mod(h * mw, w);
    assert(0 <= h * mw) by (nonlinear_arith)
        requires
            0 < h,
            0 < mw,
    ;
    assert(0 <= high < 0x1_0000_0000) by (nonlinear_arith)
        requires
            h * mw == w * high + h * mw % w,
            0 <= h * mw % w < w,
            0 <= h * mw < 0x1_0000_0000 * w,
            0 < w,
    ;
    let limited = render::limited(height, max_width, width);
    assert(limited == arith::max_of(high, 1));
    if limited > mh {
        let wide = w * mh / h;
        lemma_fundamental_div_mod(w * mh, h);
        assert(0 <= w * mh) by (nonlinear_arith)
            requires
                0 < w,
                0 < mh,
        ;
        assert(high >= mh + 1);
        assert(h * mw >= w * (mh + 1)) by (nonlinear_arith)
            requires
                h * mw == w * high + h * mw % w,
                0 <= h * mw % w,
                high >= mh + 1,
                0 < w,
        ;
        assert(0 <= wide <= mw) by (nonlinear_arith)
            requires
                w * mh == h * wide + w * mh % h,
                0 <= w * mh % h < h,
                0 <= w * mh,
                h * mw >= w * (mh + 1),
                0 < h,
                0 < w,
        ;
        assert(wide * h <= w * mh < (wide + 1) * h) by (nonlinear_arith)
            requires
                w * mh == h * wide + w * mh % h,
                0 <= w * mh % h < h,
        ;
        assert(h * mw >= (mh + 1) * w) by (nonlinear_arith)
            requires
                h * mw >= w * (mh + 1),
        ;
    } else {
        assert(high * w <= h * mw < (high + 1) * w) by (nonlinear_arith)
            requires
                h * mw == w * high + h * mw % w,
                0 <= h * mw % w < w,
        ;
        assert(h * mw < (mh + 1) * w) by (nonlinear_arith)
            requires
                h * mw < (high + 1) * w,
                high <= mh,
                0 < w,
        ;
        if high < 1 {
            assert(h * mw < 2 * w) by (nonlinear_arith)
                requires
                    h * mw < (high + 1) * w,
                    high < 1,
                    0 < w,
            ;
        }
    }
}

/// A crop of the source maps to a crop of the raster that is not empty, lies inside it, covers all
/// that the source crop covers, and has no pixel at its edges that it could do without.
pub proof fn lemma_crop_covers(start: u32, length: u32, source: u32, raster: u32)
    requires
        0 < length,
        start + length <= source,
        0 < raster,
    ensures
        ({
            let (low, span) = render::mapped_span(start, length, source, raster);
            &&& 0 <= low
            &&& 1 <= span
            &&& low + span <= raster
            &&& low * source <= start * raster
            &&& (start + length) * raster <= (low + span) * source
            &&& start * raster < (low + 1) * source
            &&& (low + span - 1) * source < (start + length) * raster
        }),
{
    let (s, l, n, r) = (start as int, length as int, source as int, raster as int);
    let low = s * r / n;
    let high = arith::ceiling((s + l) * r, n);
    lemma_fundamental_div_mod(s * r, n);
    lemma_fundamental_div_mod((s + l) * r, n);
    let q = (s + l) * r / n;
    let m = (s + l) * r % n;
    assert(0 <= s * r) by (nonlinear_arith)
        requires
            0 <= s,
            0 < r,
    ;
    assert((s + l) * r == s * r + l * r) by (nonlinear_arith);
    assert(0 < l * r) by (nonlinear_arith)
        requires
            0 < l,
            0 < r,
    ;
    assert((s + l) * r <= n * r) by (nonlinear_arith)
        requires
            s + l <= n,
            0 < r,
    ;
    assert(0 <= low) by (nonlinear_arith)
        requires
            s * r == n * low + s * r % n,
            0 <= s * r % n < n,
            0 <= s * r,
    ;
    assert(low < r) by (nonlinear_arith)
        requires
            s * r == n * low + s * r % n,
            0 <= s * r % n,
            s * r < n * r,
            0 < n,
    ;
    assert(q <= r && (q == r ==> m == 0)) by (nonlinear_arith)
        requires
            (s + l) * r == n * q + m,
            0 <= m < n,
            (s + l) * r <= n * r,
    ;
    assert(0 <= q) by (nonlinear_arith)
        requires
            (s + l) * r == n * q + m,
            0 <= m < n,
            0 <= (s + l) * r,
    ;
    assert(high <= r);
    assert((s + l) * r <= high * n) by (nonlinear_arith)
        requires
            (s + l) * r == n * q + m,
            0 <= m < n,
            high == (if m == 0 {
                q
            } else {
                q + 1
            }),
    ;
    assert(low * n <= s * r) by (nonlinear_arith)
        requires
            s * r == n * low + s * r % n,
            0 <= s * r % n,
    ;
    assert(low < high) by (nonlinear_arith)
        requires
            low * n <= s * r,
            s * r < (s + l) * r,
            (s + l) * r <= high * n,
            0 < n,
    ;
    assert(s * r < (low + 1) * n) by (nonlinear_arith)
        requires
            s * r == n * low + s * r % n,
            s * r % n < n,
    ;
    assert((high - 1) * n < (s + l) * r) by (nonlinear_arith)
        requires
            (s + l) * r == n * q + m,
            0 <= m < n,
            high == (if m == 0 {
                q
            } else {
                q + 1
            }),
    ;
}

/// At seven bits a channel moves by at most one step, and reducing twice changes no more.
pub proof fn lemma_reduction_error(channel: u8, bits: u8)
    requires
        1 <= bits <= 8,
    ensures
        0 <= channel - render::reduced(channel, bits) < render::colour_step(bits),
        render::colour_step(7) - 1 == 1,
        render::reduced(render::reduced(channel, bits) as u8, bits) == render::reduced(
            channel,
            bits,
        ),
{
    let step = render::colour_step(bits);
    let c = channel as int;
    lemma_fundamental_div_mod(c, step);
    assert(render::reduced(channel, bits) == step * (c / step));
    assert(0 <= step * (c / step) <= c) by {
        assert(0 <= c / step);
        assert(0 <= step * (c / step)) by (nonlinear_arith)
            requires
                0 < step,
                0 <= c / step,
        ;
    }
    lemma_mul_is_commutative(step, c / step);
    lemma_mod_multiples_basic(c / step, step);
}

/// A raster aligned to a grid of cells has exactly the shape of the grid.
pub proof fn lemma_aligned_shape(
    size: (u32, u32),
    cols: u16,
    rows: u16,
    cell_width: u32,
    cell_height: u32,
    max_width: u32,
    max_height: u32,
)
    requires
        cell_width > 0,
        cell_height > 0,
    ensures
        ({
            let aligned = render::aligned_size(
                size,
                cols,
                rows,
                cell_width,
                cell_height,
                max_width,
                max_height,
            );
            aligned.0 * (rows * cell_height) == aligned.1 * (cols * cell_width)
        }),
{
    let greatest = arith::lemma_gcd_exists(cell_width as int, cell_height as int);
    assert(render::is_gcd(greatest as u32, cell_width, cell_height));
    let divisor = render::common(cell_width, cell_height);
    assert(render::is_gcd(divisor, cell_width, cell_height));
    let d = divisor as int;
    let (a, b) = (cell_width as int / d, cell_height as int / d);
    let base = (
        render::grid_base(cols, cell_width, divisor),
        render::grid_base(rows, cell_height, divisor),
    );
    let scale = render::grid_scale(size, base, max_width, max_height);
    lemma_fundamental_div_mod(cell_width as int, d);
    lemma_fundamental_div_mod(cell_height as int, d);
    let (c, r, w, h) = (cols as int, rows as int, cell_width as int, cell_height as int);
    assert((c * a * scale) * (r * h) == (r * b * scale) * (c * w)) by (nonlinear_arith)
        requires
            w == d * a,
            h == d * b,
    ;
}

/// The tile that holds a pixel, in one direction.
proof fn lemma_tile_of_pixel(pixel: int, target: u32, pixels: u32, cells: u16) -> (at: int)
    requires
        pixels > 0,
        cells > 0,
        0 <= pixel < pixels,
    ensures
        0 <= at < render::tile_count(target, pixels, cells),
        render::tile_pixels(at, target, pixels, cells).0 <= pixel < render::tile_pixels(
            at,
            target,
            pixels,
            cells,
        ).1,
{
    let each = render::tile_cells(target, pixels, cells);
    let count = render::tile_count(target, pixels, cells);
    render::lemma_count(cells as int, each);
    render::lemma_tile_span(count - 1, target, pixels, cells);
    let last = render::tile_span(count - 1, target, pixels, cells);
    assert(last.0 + last.1 == cells) by {
        assert(count * each == (count - 1) * each + each) by (nonlinear_arith);
    }
    render::lemma_boundary(0, cells as int, pixels as int, cells);
    lemma_tile_before(pixel, target, pixels, cells, count)
}

proof fn lemma_tile_before(pixel: int, target: u32, pixels: u32, cells: u16, count: int) -> (at:
    int)
    requires
        pixels > 0,
        cells > 0,
        0 <= pixel,
        0 < count <= render::tile_count(target, pixels, cells),
        pixel < render::tile_pixels(count - 1, target, pixels, cells).1,
    ensures
        0 <= at < count,
        render::tile_pixels(at, target, pixels, cells).0 <= pixel < render::tile_pixels(
            at,
            target,
            pixels,
            cells,
        ).1,
    decreases count,
{
    let each = render::tile_cells(target, pixels, cells);
    if render::tile_pixels(count - 1, target, pixels, cells).0 <= pixel {
        count - 1
    } else {
        render::lemma_tile_span(count - 1, target, pixels, cells);
        if count == 1 {
            assert(0 * each == 0) by (nonlinear_arith);
            render::lemma_boundary(0, cells as int, pixels as int, cells);
            0
        } else {
            render::lemma_tile_span(count - 2, target, pixels, cells);
            assert((count - 1) * each == (count - 2) * each + each) by (nonlinear_arith);
            lemma_tile_before(pixel, target, pixels, cells, count - 1)
        }
    }
}

/// Whether the tile at `index` holds a pixel.
pub open spec fn holds_pixel(grid: TileGrid, index: int, x: int, y: int) -> bool {
    let rect = grid.rect(index);
    rect.0 <= x < rect.0 + rect.2 && rect.1 <= y < rect.1 + rect.3
}

/// Every pixel of a raster lies in a tile of its grid.
pub proof fn lemma_tiles_cover(grid: TileGrid, x: int, y: int) -> (index: int)
    requires
        grid.wf(),
        0 <= x < grid.width,
        0 <= y < grid.height,
    ensures
        0 <= index < grid.across() * grid.down(),
        holds_pixel(grid, index, x, y),
{
    let h = lemma_tile_of_pixel(x, grid.target, grid.width, grid.cols);
    let v = lemma_tile_of_pixel(y, grid.target, grid.height, grid.rows);
    let index = v * grid.across() + h;
    lemma_fundamental_div_mod_converse(index, grid.across(), v, h);
    assert(0 <= index < grid.across() * grid.down()) by (nonlinear_arith)
        requires
            index == v * grid.across() + h,
            0 <= h < grid.across(),
            0 <= v < grid.down(),
    ;
    index
}

proof fn lemma_changed_tile_listed(
    grid: TileGrid,
    previous: Option<Pixels>,
    current: Pixels,
    index: int,
    count: int,
)
    requires
        0 <= index < count,
        grid.changed(previous, current, index),
    ensures
        grid.changed_tiles(previous, current, count).contains(grid.tile(current, index)),
    decreases count,
{
    let all = grid.changed_tiles(previous, current, count);
    let shorter = grid.changed_tiles(previous, current, count - 1);
    if index == count - 1 {
        assert(all.last() == grid.tile(current, index));
        assert(all[all.len() - 1] == grid.tile(current, index));
    } else {
        lemma_changed_tile_listed(grid, previous, current, index, count - 1);
        let i = choose|i: int| 0 <= i < shorter.len() && shorter[i] == grid.tile(current, index);
        assert(all[i] == grid.tile(current, index));
    }
}

/// Whether a tile lies over a pixel of the raster.
pub open spec fn lies_over(grid: TileGrid, tile: TileView, x: int, y: int) -> bool {
    let left = render::boundary(tile.col as int, grid.width as int, grid.cols);
    let top = render::boundary(tile.row as int, grid.height as int, grid.rows);
    left <= x < left + tile.image.width && top <= y < top + tile.image.height
}

/// What a tile shows at a pixel of the raster.
pub open spec fn shown_channel(grid: TileGrid, tile: TileView, x: int, y: int, channel: int) -> u8 {
    let left = render::boundary(tile.col as int, grid.width as int, grid.cols);
    let top = render::boundary(tile.row as int, grid.height as int, grid.rows);
    tile.image.channel(x - left, y - top, channel)
}

/// The tiles that are sent, laid over the raster before, show the new raster: each shows it where
/// it lies, and where none lies nothing changed.
pub proof fn lemma_tiles_show(
    grid: TileGrid,
    previous: Option<Pixels>,
    current: Pixels,
    x: int,
    y: int,
    channel: int,
)
    requires
        grid.wf(),
        previous matches Some(previous) ==> previous.wf() && previous.width == grid.width
            && previous.height == grid.height,
        current.wf(),
        current.width == grid.width,
        current.height == grid.height,
        0 <= x < grid.width,
        0 <= y < grid.height,
        0 <= channel < 3,
    ensures
        ({
            let sent = grid.changed_tiles(previous, current, grid.across() * grid.down());
            &&& forall|i: int|
                0 <= i < sent.len() && lies_over(grid, #[trigger] sent[i], x, y) ==> shown_channel(
                    grid,
                    sent[i],
                    x,
                    y,
                    channel,
                ) == current.channel(x, y, channel)
            &&& (exists|i: int| 0 <= i < sent.len() && lies_over(grid, #[trigger] sent[i], x, y))
                || (previous matches Some(previous) && previous.channel(x, y, channel)
                == current.channel(x, y, channel))
        }),
{
    let count = grid.across() * grid.down();
    let sent = grid.changed_tiles(previous, current, count);
    assert forall|i: int| 0 <= i < sent.len() && lies_over(grid, #[trigger] sent[i], x, y) implies
        shown_channel(grid, sent[i], x, y, channel) == current.channel(x, y, channel) by {
        let index = lemma_sent_is_tile(grid, previous, current, count, i);
        lemma_tile_place(grid, current, index);
        lemma_crop_channel(current, grid.rect(index), x, y, channel);
    }
    let index = lemma_tiles_cover(grid, x, y);
    if grid.changed(previous, current, index) {
        lemma_changed_tile_listed(grid, previous, current, index, count);
        lemma_tile_place(grid, current, index);
        let i = choose|i: int| 0 <= i < sent.len() && sent[i] == grid.tile(current, index);
        assert(lies_over(grid, sent[i], x, y));
    } else {
        let before = previous->0;
        lemma_crop_channel(before, grid.rect(index), x, y, channel);
        lemma_crop_channel(current, grid.rect(index), x, y, channel);
    }
}

/// A tile that is sent is one of the grid.
pub proof fn lemma_sent_is_tile(
    grid: TileGrid,
    previous: Option<Pixels>,
    current: Pixels,
    count: int,
    i: int,
) -> (index: int)
    requires
        0 <= i < grid.changed_tiles(previous, current, count).len(),
    ensures
        0 <= index < count,
        grid.changed_tiles(previous, current, count)[i] == grid.tile(current, index),
    decreases count,
{
    let shorter = grid.changed_tiles(previous, current, count - 1);
    if i < shorter.len() {
        lemma_sent_is_tile(grid, previous, current, count - 1, i)
    } else {
        count - 1
    }
}

/// A tile of the grid lies over its pixels.
pub proof fn lemma_tile_place(grid: TileGrid, image: Pixels, index: int)
    requires
        grid.wf(),
        0 <= index < grid.across() * grid.down(),
    ensures
        ({
            let tile = grid.tile(image, index);
            let rect = grid.rect(index);
            &&& render::boundary(tile.col as int, grid.width as int, grid.cols) == rect.0
            &&& render::boundary(tile.row as int, grid.height as int, grid.rows) == rect.1
            &&& 0 <= rect.0 && 0 <= rect.1 && 0 <= rect.2 && 0 <= rect.3
            &&& tile.image.width == rect.2
            &&& tile.image.height == rect.3
        }),
{
    let across = grid.across();
    render::lemma_count(
        grid.cols as int,
        render::tile_cells(grid.target, grid.width, grid.cols),
    );
    lemma_fundamental_div_mod(index, across);
    assert(0 <= index / across < grid.down()) by (nonlinear_arith)
        requires
            index == across * (index / across) + index % across,
            0 <= index % across < across,
            0 <= index < across * grid.down(),
    ;
    render::lemma_tile_span(index % across, grid.target, grid.width, grid.cols);
    render::lemma_tile_span(index / across, grid.target, grid.height, grid.rows);
}

/// A crop shows the pixels of the image.
pub proof fn lemma_crop_channel(
    image: Pixels,
    rect: (int, int, int, int),
    x: int,
    y: int,
    channel: int,
)
    requires
        rect.0 <= x < rect.0 + rect.2,
        rect.1 <= y < rect.1 + rect.3,
        0 <= channel < 3,
    ensures
        image.crop(rect.0, rect.1, rect.2 as nat, rect.3 as nat).channel(
            x - rect.0,
            y - rect.1,
            channel,
        ) == image.channel(x, y, channel),
{
    let (dx, dy) = (x - rect.0, y - rect.1);
    let i = (dy * rect.2 + dx) * 3 + channel;
    assert(i / 3 == dy * rect.2 + dx && i % 3 == channel);
    lemma_fundamental_div_mod_converse(dy * rect.2 + dx, rect.2, dy, dx);
    assert(0 <= dy * rect.2) by (nonlinear_arith)
        requires
            0 <= dy,
            0 < rect.2,
    ;
    assert(dy * rect.2 + dx < rect.2 * rect.3) by (nonlinear_arith)
        requires
            0 <= dx < rect.2,
            0 <= dy < rect.3,
    ;
}

/// A raster that did not change sends nothing.
pub proof fn lemma_unchanged_sends_nothing(grid: TileGrid, image: Pixels, count: int)
    ensures
        grid.changed_tiles(Some(image), image, count) == Seq::<TileView>::empty(),
    decreases count,
{
    if count > 0 {
        lemma_unchanged_sends_nothing(grid, image, count - 1);
    }
}

/// Cells that did not change write nothing, and a cell that did is written.
pub proof fn lemma_diff_empty(previous: Seq<Cell>, current: Seq<Cell>, cols: int)
    requires
        previous.len() == current.len(),
        cols > 0,
    ensures
        cells::cell_diff(previous, current, cols).len() == 0 <==> forall|i: int|
            0 <= i < current.len() ==> !cells::is_changed(previous, current, i),
{
    lemma_changes_empty(previous, current, cols, current.len() as int);
}

proof fn lemma_changes_empty(previous: Seq<Cell>, current: Seq<Cell>, cols: int, count: int)
    requires
        previous.len() == current.len(),
        cols > 0,
        0 <= count <= current.len(),
    ensures
        cells::changes(previous, current, cols, count).len() == 0 <==> forall|i: int|
            0 <= i < count ==> !cells::is_changed(previous, current, i),
    decreases count,
{
    if count > 0 {
        lemma_changes_empty(previous, current, cols, count - 1);
        if cells::is_changed(previous, current, count - 1) {
            reveal_strlit("▀");
            lemma_glyph_not_empty();
        }
    }
}

proof fn lemma_glyph_not_empty()
    ensures
        encode_utf8("▀"@).len() > 0,
{
    reveal_strlit("▀");
    reveal_with_fuel(encode_utf8, 2);
}

/// A cell begins at the pixel that lies as far along the pixels as the cell along the cells, rounded
/// down.
pub proof fn lemma_cells_spread(cell: int, pixels: int, cells: u16)
    requires
        cells > 0,
    ensures
        ({
            let at = render::boundary(cell, pixels, cells);
            at * cells <= cell * pixels < (at + 1) * cells
        }),
{
    let n = cells as int;
    lemma_fundamental_div_mod(cell * pixels, n);
    let at = cell * pixels / n;
    assert(at * n <= cell * pixels < (at + 1) * n) by (nonlinear_arith)
        requires
            cell * pixels == n * at + cell * pixels % n,
            0 <= cell * pixels % n < n,
    ;
}

/// Each bit of a colour that is left out halves the colours that there are. With all eight bits a
/// colour stays as it is, and with one bit two are left.
pub proof fn lemma_colours_halved(bits: u8, channel: u8)
    requires
        1 <= bits < 8,
    ensures
        render::colour_step(bits) == 2 * render::colour_step((bits + 1) as u8),
        render::reduced(channel, 8) == channel,
        render::reduced(channel, 1) == if channel < 128 {
            0int
        } else {
            128
        },
        render::reduced(channel, bits) <= render::reduced(channel, (bits + 1) as u8),
{
}

} // verus!
