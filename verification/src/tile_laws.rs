//! What holds of the tiles of a frame, of the sizes of rasters and of samples.

use crate::arith;
use crate::cells;
use crate::draw;
use crate::draw::DrawRequest;
use crate::event_laws;
use crate::kitty;
use crate::pixels::Pixels;
use crate::render;
use crate::render::{TileGrid, TileView, ViewportRect};
use crate::render_laws;
use crate::terminal;
use crate::terminal::TerminalModel;
use vstd::arithmetic::div_mod::*;
use vstd::prelude::*;

verus! {

/// A raster that fills cells is a whole number of times the smallest one with square pixels. It is
/// at most half of that larger than the raster that it is made of and within its limits, unless it
/// is the smallest; and one more time would be too large.
pub proof fn lemma_aligned_nearest(
    size: (u32, u32),
    cols: u16,
    rows: u16,
    cell_width: u32,
    cell_height: u32,
    max_width: u32,
    max_height: u32,
) -> (times: int)
    requires
        cols > 0,
        rows > 0,
        cell_width > 0,
        cell_height > 0,
    ensures
        ({
            let divisor = render::common(cell_width, cell_height);
            let base = (
                render::grid_base(cols, cell_width, divisor),
                render::grid_base(rows, cell_height, divisor),
            );
            let aligned = render::aligned_size(
                size,
                cols,
                rows,
                cell_width,
                cell_height,
                max_width,
                max_height,
            );
            &&& 1 <= times
            &&& 0 < base.0 && 0 < base.1
            &&& aligned == (base.0 * times, base.1 * times)
            &&& times > 1 ==> {
                &&& base.0 * times <= max_width && base.1 * times <= max_height
                &&& 2 * (base.0 * times) <= 2 * size.0 + base.0
                &&& 2 * (base.1 * times) <= 2 * size.1 + base.1
            }
            &&& {
                ||| base.0 * (times + 1) > max_width
                ||| base.1 * (times + 1) > max_height
                ||| 2 * (base.0 * (times + 1)) > 2 * size.0 + base.0
                ||| 2 * (base.1 * (times + 1)) > 2 * size.1 + base.1
            }
        }),
{
    let greatest = arith::lemma_gcd_exists(cell_width as int, cell_height as int);
    assert(render::is_gcd(greatest as u32, cell_width, cell_height));
    let divisor = render::common(cell_width, cell_height);
    assert(render::is_gcd(divisor, cell_width, cell_height));
    let d = divisor as int;
    lemma_share_positive(cell_width as int, d);
    lemma_share_positive(cell_height as int, d);
    let (u, v) = (cell_width as int / d, cell_height as int / d);
    let base = (
        render::grid_base(cols, cell_width, divisor),
        render::grid_base(rows, cell_height, divisor),
    );
    assert(0 < base.0 && 0 < base.1) by (nonlinear_arith)
        requires
            base.0 == cols * u,
            base.1 == rows * v,
            0 < cols,
            0 < rows,
            0 < u,
            0 < v,
    ;
    let times = render::grid_scale(size, base, max_width, max_height);
    lemma_quotients(max_width as int, base.0, times);
    lemma_quotients(max_height as int, base.1, times);
    lemma_rounded(size.0 as int, base.0, times);
    lemma_rounded(size.1 as int, base.1, times);
    times
}

proof fn lemma_share_positive(length: int, d: int)
    requires
        0 < length,
        0 < d,
        length % d == 0,
    ensures
        0 < length / d,
{
    lemma_fundamental_div_mod(length, d);
    let q = length / d;
    assert(0 < q) by (nonlinear_arith)
        requires
            length == d * q + 0,
            0 < length,
            0 < d,
    ;
}

proof fn lemma_quotients(limit: int, base: int, times: int)
    requires
        0 <= limit,
        0 < base,
    ensures
        times <= limit / base ==> base * times <= limit,
        times >= limit / base ==> base * (times + 1) > limit,
{
    lemma_fundamental_div_mod(limit, base);
    let q = limit / base;
    assert(times <= q ==> base * times <= limit) by (nonlinear_arith)
        requires
            limit == base * q + limit % base,
            0 <= limit % base < base,
            0 < base,
    ;
    assert(times >= q ==> base * (times + 1) > limit) by (nonlinear_arith)
        requires
            limit == base * q + limit % base,
            0 <= limit % base < base,
            0 < base,
    ;
}

proof fn lemma_rounded(size: int, base: int, times: int)
    requires
        0 <= size,
        0 < base,
    ensures
        times <= arith::rounded(size, base) ==> 2 * (base * times) <= 2 * size + base,
        times >= arith::rounded(size, base) ==> 2 * (base * (times + 1)) > 2 * size + base,
{
    lemma_quotients(2 * size + base, 2 * base, times);
    assert((2 * base) * times == 2 * (base * times)) by (nonlinear_arith);
    assert((2 * base) * (times + 1) == 2 * (base * (times + 1))) by (nonlinear_arith);
}

/// The raster that is known to be shown where a frame is to lie.
pub open spec fn shown_before(
    model: TerminalModel,
    request: &DrawRequest,
    frame: Pixels,
    image: Pixels,
) -> Option<Pixels> {
    if !model.force_kitty_redraw && model.last_kitty_image is Some && (
    model.last_kitty_image->0).0 == request.layout(frame) && (
    model.last_kitty_image->0).1.width == image.width && (model.last_kitty_image->0).1.height
        == image.height {
        Some((model.last_kitty_image->0).1)
    } else {
        None
    }
}

/// The grid of the tiles of a raster.
pub open spec fn grid_of(image: Pixels, request: &DrawRequest, frame: Pixels) -> TileGrid {
    TileGrid {
        width: image.width as u32,
        height: image.height as u32,
        cols: request.layout(frame).cols,
        rows: request.layout(frame).rows,
        target: 128,
    }
}

/// After the tiles of a frame are sent, the terminal shows its raster at every pixel: a tile that
/// was sent shows it there, or else what was shown before, which must be known, is the same. Where
/// nothing is known, the tiles that were shown are deleted.
pub proof fn lemma_tiles_complete(
    model: TerminalModel,
    frame: Pixels,
    request: &DrawRequest,
    crop: Option<ViewportRect>,
    tier: int,
    x: int,
    y: int,
    channel: int,
) -> (tiles: Seq<TileView>)
    requires
        model.wf(),
        request.spreads(frame),
        draw::tier_outcome(model, frame, request, crop, tier) is Tiles,
        draw::tier_outcome(model, frame, request, crop, tier)->Tiles_0.wf(),
        0 <= x < draw::tier_outcome(model, frame, request, crop, tier)->Tiles_0.width,
        0 <= y < draw::tier_outcome(model, frame, request, crop, tier)->Tiles_0.height,
        0 <= channel < 3,
        0 <= tier < model.limits.len(),
    ensures
        ({
            let outcome = draw::tier_outcome(model, frame, request, crop, tier);
            let (image, segments, state) = (
                outcome->Tiles_0,
                outcome->Tiles_1,
                outcome->Tiles_2,
            );
            let before = shown_before(model, request, frame, image);
            let grid = grid_of(image, request, frame);
            &&& kitty::tiles_outcome(model.kitty->0, tiles, before is None) == (
                None::<kitty::KittyError>,
                segments,
                state,
            )
            &&& forall|i: int|
                0 <= i < tiles.len() && render_laws::lies_over(grid, #[trigger] tiles[i], x, y)
                    ==> render_laws::shown_channel(grid, tiles[i], x, y, channel)
                    == image.channel(x, y, channel)
            &&& (exists|i: int|
                0 <= i < tiles.len() && render_laws::lies_over(grid, #[trigger] tiles[i], x, y))
                || before is Some && before->0.channel(x, y, channel) == image.channel(
                x,
                y,
                channel,
            )
        }),
{
    reveal(draw::tier_outcome);
    reveal(terminal::remembered);
    let outcome = draw::tier_outcome(model, frame, request, crop, tier);
    let image = outcome->Tiles_0;
    let layout = request.layout(frame);
    let before = shown_before(model, request, frame, image);
    let grid = grid_of(image, request, frame);
    lemma_image_size(model, frame, request, tier);
    render_laws::lemma_tiles_show(grid, before, image, x, y, channel);
    grid.changed_tiles(before, image, grid.across() * grid.down())
}

proof fn lemma_image_size(model: TerminalModel, frame: Pixels, request: &DrawRequest, tier: int)
    requires
        request.spreads(frame),
    ensures
        ({
            let image = draw::prepared(
                frame,
                request.rect,
                request.tier_sizes@[tier],
                request.layout(frame),
                request.cell(),
                model.limits[tier],
            );
            0 < image.width <= u32::MAX && 0 < image.height <= u32::MAX
        }),
{
    let layout = request.layout(frame);
    let cell = request.cell();
    draw::lemma_prepared_size(
        frame,
        request.rect,
        request.tier_sizes@[tier],
        layout,
        cell,
        model.limits[tier],
    );
    let (cols, most_cols, rows, most_rows) = (
        layout.cols as int,
        request.max_cols() as int,
        layout.rows as int,
        request.max_rows() as int,
    );
    let (w, h) = (cell.0 as int, cell.1 as int);
    assert(cols * w <= most_cols * w && rows * h <= most_rows * h) by (nonlinear_arith)
        requires
            0 <= cols <= most_cols,
            0 <= rows <= most_rows,
            0 < w,
            0 < h,
    ;
}

/// A tile is sent only where one of its pixels has another colour than before.
pub proof fn lemma_no_idle_tile(grid: TileGrid, previous: Pixels, current: Pixels, i: int)
    requires
        grid.wf(),
        0 <= i < grid.changed_tiles(
            Some(previous),
            current,
            grid.across() * grid.down(),
        ).len(),
    ensures
        ({
            let tile = grid.changed_tiles(
                Some(previous),
                current,
                grid.across() * grid.down(),
            )[i];
            exists|x: int, y: int, c: int|
                render_laws::lies_over(grid, tile, x, y) && 0 <= c < 3
                    && #[trigger] previous.channel(x, y, c) != current.channel(x, y, c)
        }),
{
    let count = grid.across() * grid.down();
    let index = lemma_sent_changed(grid, previous, current, count, i);
    let rect = grid.rect(index);
    render_laws::lemma_tile_place(grid, current, index);
    let tile = grid.tile(current, index);
    let old_part = grid.part(previous, index);
    let new_part = grid.part(current, index);
    assert(old_part.width == new_part.width && old_part.height == new_part.height);
    assert(old_part.data.len() == new_part.data.len());
    if old_part.data =~= new_part.data {
        assert(false);
    }
    let k = choose|k: int| 0 <= k < old_part.data.len() && old_part.data[k] != new_part.data[k];
    let (width, height) = (rect.2, rect.3);
    assert(0 < width) by (nonlinear_arith)
        requires
            0 <= k < width * height * 3,
            0 <= width,
            0 <= height,
    ;
    lemma_fundamental_div_mod(k, 3);
    lemma_fundamental_div_mod(k / 3, width);
    assert(0 <= k / 3 / width < height) by (nonlinear_arith)
        requires
            k / 3 == width * (k / 3 / width) + k / 3 % width,
            0 <= k / 3 % width < width,
            0 <= k / 3 < width * height,
    ;
    let (x, y, c) = (rect.0 + k / 3 % width, rect.1 + k / 3 / width, k % 3);
    assert(previous.channel(x, y, c) != current.channel(x, y, c));
    assert(render_laws::lies_over(grid, tile, x, y));
}

proof fn lemma_sent_changed(
    grid: TileGrid,
    previous: Pixels,
    current: Pixels,
    count: int,
    i: int,
) -> (index: int)
    requires
        0 <= i < grid.changed_tiles(Some(previous), current, count).len(),
    ensures
        0 <= index < count,
        grid.changed_tiles(Some(previous), current, count)[i] == grid.tile(current, index),
        grid.changed(Some(previous), current, index),
    decreases count,
{
    let shorter = grid.changed_tiles(Some(previous), current, count - 1);
    if i < shorter.len() {
        lemma_sent_changed(grid, previous, current, count - 1, i)
    } else {
        count - 1
    }
}

/// A sample of the visible part of a frame depends on that part alone: frames of which the visible
/// pixels are the same have the same sample.
pub proof fn lemma_sample_local(
    frame: Pixels,
    other: Pixels,
    rect: ViewportRect,
    cols: u16,
    rows: u16,
)
    requires
        0 < rect.width,
        0 < rect.height,
        !event_laws::differs(frame, other, rect),
    ensures
        cells::sample_of(frame, rect, cols, rows) == cells::sample_of(other, rect, cols, rows),
        cells::sample_of(frame, rect, cols, rows).width == cells::sample_size(rect, cols, rows).0,
        cells::sample_of(frame, rect, cols, rows).height == cells::sample_size(rect, cols, rows).1,
{
    event_laws::lemma_crops_differ(frame, other, rect);
    assert(0 <= cells::sample_size(rect, cols, rows).0);
    assert(0 <= cells::sample_size(rect, cols, rows).1);
}

/// What is sent of the visible part of a frame depends on that part alone.
pub proof fn lemma_raster_local(
    frame: Pixels,
    other: Pixels,
    rect: ViewportRect,
    width: u32,
    height: u32,
)
    requires
        0 < rect.width,
        0 < rect.height,
        !event_laws::differs(frame, other, rect),
    ensures
        render::raster_of(frame, rect, width, height) == render::raster_of(
            other,
            rect,
            width,
            height,
        ),
        render::raster_of(frame, rect, width, height).width == width,
        render::raster_of(frame, rect, width, height).height == height,
{
    event_laws::lemma_crops_differ(frame, other, rect);
}

} // verus!
