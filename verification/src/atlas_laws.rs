//! What the pixels that are sent show of the frame.

use crate::draw;
use crate::draw::DrawRequest;
use crate::kitty;
use crate::layout::DrawLayout;
use crate::pixels::Pixels;
use crate::pump;
use crate::render;
use crate::render::{Viewport, ViewportRect};
use crate::render_laws;
use crate::terminal::TerminalModel;
use vstd::arithmetic::div_mod::*;
use vstd::prelude::*;

verus! {

/// Whether an image shows a part of a frame pixel by pixel. Each channel is even and at most one
/// step darker than that of the frame.
pub open spec fn shows_part(image: Pixels, frame: Pixels, left: int, top: int) -> bool {
    forall|x: int, y: int, c: int|
        0 <= x < image.width && 0 <= y < image.height && 0 <= c < 3 ==> {
            let sent = #[trigger] image.channel(x, y, c);
            let true_value = frame.channel(left + x, top + y, c);
            sent as int % 2 == 0 && sent <= true_value <= sent + 1
        }
}

/// Pixels brought to a size. Pixels of that size stay as they are.
pub open spec fn brought_to(image: Pixels, width: nat, height: nat) -> Pixels {
    if image.width == width && image.height == height {
        image
    } else {
        image.resized(width, height)
    }
}

/// Whether an image is another up to the precision of its colours.
pub open spec fn same_but_colours(image: Pixels, other: Pixels) -> bool {
    &&& image.width == other.width
    &&& image.height == other.height
    &&& image.data.len() == other.data.len()
    &&& forall|i: int|
        0 <= i < image.data.len() ==> {
            let sent = #[trigger] image.data[i];
            sent as int % 2 == 0 && sent <= other.data[i] <= sent + 1
        }
}

/// Whether pixels `start` to `start + length` of a source lie under pixels `low` to `low + span` of
/// a raster of it, and no pixel at the edges of those could be left out.
pub open spec fn lies_under(
    start: int,
    length: int,
    source: int,
    low: int,
    span: int,
    raster: int,
) -> bool {
    &&& 0 <= low && 0 < span && low + span <= raster
    &&& low * source <= start * raster < (low + 1) * source
    &&& (low + span - 1) * source < (start + length) * raster <= (low + span) * source
}

/// Whether a crop of a raster of the frame shows the visible part of the frame.
pub open spec fn crop_shows(
    crop: ViewportRect,
    rect: ViewportRect,
    frame: Pixels,
    width: int,
    height: int,
) -> bool {
    &&& lies_under(
        rect.x as int,
        rect.width as int,
        frame.width as int,
        crop.x as int,
        crop.width as int,
        width,
    )
    &&& lies_under(
        rect.y as int,
        rect.height as int,
        frame.height as int,
        crop.y as int,
        crop.height as int,
        height,
    )
}

/// Whether a terminal was sent an image as the atlas, and shows a crop of it.
pub open spec fn sent_atlas(
    before: TerminalModel,
    after: TerminalModel,
    image: Pixels,
    crop: ViewportRect,
    layout: DrawLayout,
) -> bool {
    match kitty::atlas_outcome(before.kitty->0, image, crop, layout.cols, layout.rows) {
        Ok((segments, state)) => {
            &&& after.kitty == Some(state)
            &&& after.output == pump::replaced(before.output, segments)
        },
        Err(_) => false,
    }
}

proof fn lemma_whole_crop(frame: Pixels)
    requires
        frame.wf(),
        0 < frame.width,
    ensures
        frame.crop(0, 0, frame.width, frame.height) == frame,
{
    let crop = frame.crop(0, 0, frame.width, frame.height);
    assert forall|i: int| 0 <= i < frame.data.len() implies crop.data[i] == frame.data[i] by {
        lemma_fundamental_div_mod(i, 3);
        lemma_fundamental_div_mod(i / 3, frame.width as int);
        assert((i / 3 / frame.width as int) * frame.width == frame.width * (i / 3
            / frame.width as int)) by (nonlinear_arith);
    }
    assert(crop.data =~= frame.data);
}

proof fn lemma_reduced_same(image: Pixels)
    ensures
        same_but_colours(render::reduced_pixels(image, 7), image),
{
}

proof fn lemma_prepared(
    frame: Pixels,
    rect: ViewportRect,
    size: (u32, u32),
    layout: DrawLayout,
    cell: (u32, u32),
    limits: (u32, u32),
)
    requires
        layout.cols > 0,
        layout.rows > 0,
        cell.0 > 0,
        cell.1 > 0,
    ensures
        ({
            let image = draw::prepared(frame, rect, size, layout, cell, limits);
            let part = frame.crop(
                rect.x as int,
                rect.y as int,
                rect.width as nat,
                rect.height as nat,
            );
            &&& same_but_colours(
                image,
                brought_to(
                    brought_to(part, size.0 as nat, size.1 as nat),
                    image.width,
                    image.height,
                ),
            )
            &&& 0 < image.width && 0 < image.height
            &&& image.width * (layout.rows * cell.1) == image.height * (layout.cols * cell.0)
        }),
{
    reveal(draw::prepared);
    draw::lemma_prepared_size(frame, rect, size, layout, cell, limits);
    render_laws::lemma_aligned_shape(
        size,
        layout.cols,
        layout.rows,
        cell.0,
        cell.1,
        limits.0,
        limits.1,
    );
    let raster = render::raster_of(frame, rect, size.0, size.1);
    let aligned = render::aligned_pixels(
        raster,
        layout.cols,
        layout.rows,
        cell.0,
        cell.1,
        limits.0,
        limits.1,
    );
    lemma_reduced_same(aligned);
    let image = draw::prepared(frame, rect, size, layout, cell, limits);
    let exact = render::aligned_size(
        size,
        layout.cols,
        layout.rows,
        cell.0,
        cell.1,
        limits.0,
        limits.1,
    );
    render::lemma_aligned_bounds(
        size,
        layout.cols,
        layout.rows,
        cell.0,
        cell.1,
        limits.0,
        limits.1,
    );
    assert(raster.width == size.0 && raster.height == size.1);
    assert(image.width == exact.0 && image.height == exact.1);
}

proof fn lemma_shown_part(image: Pixels, frame: Pixels, rect: ViewportRect)
    requires
        same_but_colours(
            image,
            frame.crop(rect.x as int, rect.y as int, rect.width as nat, rect.height as nat),
        ),
    ensures
        shows_part(image, frame, rect.x as int, rect.y as int),
{
    let (left, top) = (rect.x as int, rect.y as int);
    let part = frame.crop(left, top, rect.width as nat, rect.height as nat);
    assert forall|x: int, y: int, c: int|
        0 <= x < image.width && 0 <= y < image.height && 0 <= c < 3 implies {
        let sent = #[trigger] image.channel(x, y, c);
        let true_value = frame.channel(left + x, top + y, c);
        sent as int % 2 == 0 && sent <= true_value <= sent + 1
    } by {
        render_laws::lemma_crop_channel(
            frame,
            (left, top, rect.width as int, rect.height as int),
            left + x,
            top + y,
            c,
        );
        let i = (y * image.width + x) * 3 + c;
        assert(0 <= y * image.width) by (nonlinear_arith)
            requires
                0 <= y,
        ;
        assert(y * image.width + x < image.width * image.height) by (nonlinear_arith)
            requires
                0 <= x < image.width,
                0 <= y < image.height,
        ;
        assert(image.data.len() == part.data.len());
        assert(part.data.len() == image.width * image.height * 3);
        assert(image.data[i] == image.channel(x, y, c));
        assert(part.data[i] == part.channel(x, y, c));
    }
}

proof fn lemma_layout_cells(frame: Pixels, request: &DrawRequest)
    requires
        request.spreads(frame),
    ensures
        ({
            let layout = request.layout(frame);
            &&& 0 < layout.cols <= request.max_cols()
            &&& 0 < layout.rows <= request.max_rows()
        }),
        0 < request.cell().0,
        0 < request.cell().1,
{
}

/// A crop of a raster as large as the source lies over the same pixels.
proof fn lemma_same_size(start: int, length: int, source: int, low: int, span: int)
    requires
        0 < source,
        lies_under(start, length, source, low, span, source),
    ensures
        low == start,
        span == length,
{
    assert(low <= start < low + 1) by (nonlinear_arith)
        requires
            0 < source,
            low * source <= start * source < (low + 1) * source,
    ;
    assert(low + span - 1 < start + length <= low + span) by (nonlinear_arith)
        requires
            0 < source,
            (low + span - 1) * source < (start + length) * source <= (low + span) * source,
    ;
}

proof fn lemma_crop(rect: ViewportRect, frame: Pixels, width: int, height: int)
    requires
        0 < frame.width <= u32::MAX,
        0 < frame.height <= u32::MAX,
        rect.inside(frame.width as u32, frame.height as u32),
        0 < width <= u32::MAX,
        0 < height <= u32::MAX,
    ensures
        ({
            let crop = draw::crop_of(
                rect,
                frame.width as u32,
                frame.height as u32,
                width as u32,
                height as u32,
            );
            &&& crop_shows(crop, rect, frame, width, height)
            &&& width == frame.width && height == frame.height ==> crop == rect
        }),
{
    let crop = draw::crop_of(
        rect,
        frame.width as u32,
        frame.height as u32,
        width as u32,
        height as u32,
    );
    render_laws::lemma_crop_covers(rect.x, rect.width, frame.width as u32, width as u32);
    render_laws::lemma_crop_covers(rect.y, rect.height, frame.height as u32, height as u32);
    if width == frame.width && height == frame.height {
        lemma_same_size(
            rect.x as int,
            rect.width as int,
            frame.width as int,
            crop.x as int,
            crop.width as int,
        );
        lemma_same_size(
            rect.y as int,
            rect.height as int,
            frame.height as int,
            crop.y as int,
            crop.height as int,
        );
    }
}

proof fn lemma_image_fits(
    frame: Pixels,
    rect: ViewportRect,
    size: (u32, u32),
    request: &DrawRequest,
    limits: (u32, u32),
)
    requires
        request.spreads(frame),
    ensures
        ({
            let image = draw::prepared(
                frame,
                rect,
                size,
                request.layout(frame),
                request.cell(),
                limits,
            );
            0 < image.width <= u32::MAX && 0 < image.height <= u32::MAX
        }),
{
    let layout = request.layout(frame);
    let cell = request.cell();
    draw::lemma_prepared_size(frame, rect, size, layout, cell, limits);
    let (cols, most_cols, rows, most_rows) = (
        layout.cols as int,
        request.max_cols() as int,
        layout.rows as int,
        request.max_rows() as int,
    );
    let (w, h) = (cell.0 as int, cell.1 as int);
    assert(cols * w <= most_cols * w && rows * h <= most_rows * h) by (nonlinear_arith)
        requires
            0 <= cols <= most_cols,
            0 <= rows <= most_rows,
            0 < w,
            0 < h,
    ;
}

/// The image that is sent as the atlas is the whole frame, brought to the size of the atlas and to
/// the cells and then to fewer colours, whatever part of the frame is visible. The crop of it that
/// is placed lies over the visible part and over no more than must be. Where the atlas is as large
/// as the frame it shows the frame pixel by pixel, and the crop is the visible part itself.
pub proof fn lemma_atlas_shows_frame(
    model: TerminalModel,
    frame: Pixels,
    viewport: Viewport,
    request: &DrawRequest,
) -> (sent: (Pixels, ViewportRect))
    requires
        frame.wf(),
        request.spreads(frame),
        render::viewport_fault(viewport) is None,
        draw::must_rebuild(model, frame, request),
        draw::kitty_outcome(model, frame, viewport, request).1 is Ok,
    ensures
        ({
            let (image, crop) = sent;
            let layout = request.layout(frame);
            let after = draw::kitty_outcome(model, frame, viewport, request).0;
            &&& sent_atlas(model, after, image, crop, layout)
            &&& same_but_colours(
                image,
                brought_to(
                    brought_to(frame, request.atlas_size.0 as nat, request.atlas_size.1 as nat),
                    image.width,
                    image.height,
                ),
            )
            &&& image.width * (layout.rows * request.cell().1) == image.height * (layout.cols
                * request.cell().0)
            &&& crop_shows(crop, request.rect, frame, image.width as int, image.height as int)
            &&& after.kitty_atlas matches Some(atlas) && atlas.image_width == image.width
                && atlas.image_height == image.height && atlas.source_width == frame.width
                && atlas.source_height == frame.height
            &&& image.width == frame.width && image.height == frame.height && request.atlas_size
                == (frame.width as u32, frame.height as u32) ==> {
                &&& shows_part(image, frame, 0, 0)
                &&& crop == request.rect
            }
        }),
{
    let layout = request.layout(frame);
    let image = draw::atlas_image(model, frame, request);
    let crop = draw::crop_of(
        request.rect,
        frame.width as u32,
        frame.height as u32,
        image.width as u32,
        image.height as u32,
    );
    let limits = model.limits[model.ceiling as int];
    lemma_layout_cells(frame, request);
    lemma_prepared(
        frame,
        draw::whole(frame),
        request.atlas_size,
        layout,
        request.cell(),
        limits,
    );
    lemma_whole_crop(frame);
    lemma_image_fits(frame, draw::whole(frame), request.atlas_size, request, limits);
    lemma_crop(request.rect, frame, image.width as int, image.height as int);
    if image.width == frame.width && image.height == frame.height && request.atlas_size == (
        frame.width as u32,
        frame.height as u32,
    ) {
        lemma_shown_part(image, frame, draw::whole(frame));
    }
    (image, crop)
}

/// The atlas does not depend on the visible part of the frame: where the frame, the size of the
/// atlas, the limits and the cells are the same, the same image is sent.
pub proof fn lemma_atlas_ignores_view(
    model: TerminalModel,
    frame: Pixels,
    viewport: Viewport,
    request: &DrawRequest,
    other_viewport: Viewport,
    other: &DrawRequest,
) -> (sent: (Pixels, ViewportRect, ViewportRect))
    requires
        frame.wf(),
        request.spreads(frame),
        other.spreads(frame),
        request.window == other.window,
        request.atlas_size == other.atlas_size,
        request.layout(frame).cols == other.layout(frame).cols,
        request.layout(frame).rows == other.layout(frame).rows,
        render::viewport_fault(viewport) is None,
        render::viewport_fault(other_viewport) is None,
        draw::must_rebuild(model, frame, request),
        draw::must_rebuild(model, frame, other),
        draw::kitty_outcome(model, frame, viewport, request).1 is Ok,
        draw::kitty_outcome(model, frame, other_viewport, other).1 is Ok,
    ensures
        sent_atlas(
            model,
            draw::kitty_outcome(model, frame, viewport, request).0,
            sent.0,
            sent.1,
            request.layout(frame),
        ),
        sent_atlas(
            model,
            draw::kitty_outcome(model, frame, other_viewport, other).0,
            sent.0,
            sent.2,
            other.layout(frame),
        ),
        crop_shows(
            sent.1,
            request.rect,
            frame,
            sent.0.width as int,
            sent.0.height as int,
        ),
        crop_shows(sent.2, other.rect, frame, sent.0.width as int, sent.0.height as int),
{
    reveal(draw::prepared);
    let image = draw::atlas_image(model, frame, request);
    assert(image == draw::atlas_image(model, frame, other));
    let limits = model.limits[model.ceiling as int];
    lemma_image_fits(frame, draw::whole(frame), request.atlas_size, request, limits);
    lemma_crop(request.rect, frame, image.width as int, image.height as int);
    lemma_crop(other.rect, frame, image.width as int, image.height as int);
    let first = draw::crop_of(
        request.rect,
        frame.width as u32,
        frame.height as u32,
        image.width as u32,
        image.height as u32,
    );
    let second = draw::crop_of(
        other.rect,
        frame.width as u32,
        frame.height as u32,
        image.width as u32,
        image.height as u32,
    );
    (image, first, second)
}

/// Whether a terminal was told to show a crop of the atlas that it holds.
pub open spec fn sent_preview(
    before: TerminalModel,
    after: TerminalModel,
    crop: ViewportRect,
    layout: DrawLayout,
) -> bool {
    match kitty::preview_outcome(before.kitty->0, crop, layout.cols, layout.rows) {
        Ok((segments, state)) => {
            &&& after.kitty == Some(state)
            &&& after.output == pump::replaced(before.output, segments)
        },
        Err(_) => false,
    }
}

/// A preview places the crop of the atlas that lies over the visible part of the frame, and waits
/// for as long as configured before the tiles follow.
pub proof fn lemma_preview_shows_view(
    model: TerminalModel,
    frame: Pixels,
    viewport: Viewport,
    request: &DrawRequest,
) -> (crop: ViewportRect)
    requires
        request.spreads(frame),
        render::viewport_fault(viewport) is None,
        !draw::must_rebuild(model, frame, request),
        model.kitty_layout != Some(request.layout(frame)),
        model.kitty_atlas_ready,
        !model.kitty_atlas_stale,
        model.kitty_atlas matches Some(atlas) ==> 0 < atlas.image_width && 0 < atlas.image_height,
        draw::kitty_outcome(model, frame, viewport, request).1 is Ok,
    ensures
        ({
            let after = draw::kitty_outcome(model, frame, viewport, request).0;
            let atlas = model.kitty_atlas->0;
            &&& sent_preview(model, after, crop, request.layout(frame))
            &&& crop_shows(
                crop,
                request.rect,
                frame,
                atlas.image_width as int,
                atlas.image_height as int,
            )
            &&& request.rect == draw::whole(frame) ==> crop.x == 0 && crop.y == 0 && crop.width
                == atlas.image_width && crop.height == atlas.image_height
            &&& after.kitty_previewing
            &&& after.last_kitty_image is None
            &&& after.kitty_layout == Some(request.layout(frame))
            &&& after.kitty_refine_at == Some(
                (request.now + model.graphics_config.advanced.preview_ms * 1_000_000) as u128,
            )
        }),
{
    let atlas = model.kitty_atlas->0;
    let crop = draw::atlas_crop(request.rect, atlas);
    lemma_crop(request.rect, frame, atlas.image_width as int, atlas.image_height as int);
    if request.rect == draw::whole(frame) {
        lemma_whole_span(
            frame.width as int,
            crop.x as int,
            crop.width as int,
            atlas.image_width as int,
        );
        lemma_whole_span(
            frame.height as int,
            crop.y as int,
            crop.height as int,
            atlas.image_height as int,
        );
    }
    crop
}

proof fn lemma_whole_span(source: int, low: int, span: int, raster: int)
    requires
        0 < source,
        lies_under(0, source, source, low, span, raster),
    ensures
        low == 0,
        span == raster,
{
    assert(low == 0) by (nonlinear_arith)
        requires
            0 < source,
            0 <= low,
            low * source <= 0 * raster,
    ;
    assert(raster <= low + span) by (nonlinear_arith)
        requires
            0 < source,
            (0 + source) * raster <= (low + span) * source,
    ;
}

/// The tiles of a frame are cut from the visible part of it, brought to the size of their tier and
/// to the cells and then to fewer colours. Where that is the size of the visible part they show it
/// pixel by pixel.
pub proof fn lemma_tiles_show_view(
    model: TerminalModel,
    frame: Pixels,
    request: &DrawRequest,
    crop: Option<ViewportRect>,
    tier: int,
)
    requires
        request.spreads(frame),
        draw::tier_outcome(model, frame, request, crop, tier) is Tiles,
    ensures
        ({
            let image = draw::tier_outcome(model, frame, request, crop, tier)->Tiles_0;
            let rect = request.rect;
            let size = request.tier_sizes@[tier];
            let layout = request.layout(frame);
            let part = frame.crop(
                rect.x as int,
                rect.y as int,
                rect.width as nat,
                rect.height as nat,
            );
            &&& same_but_colours(
                image,
                brought_to(
                    brought_to(part, size.0 as nat, size.1 as nat),
                    image.width,
                    image.height,
                ),
            )
            &&& image.width * (layout.rows * request.cell().1) == image.height * (layout.cols
                * request.cell().0)
            &&& size == (rect.width, rect.height) && image.width == rect.width && image.height
                == rect.height ==> shows_part(image, frame, rect.x as int, rect.y as int)
        }),
{
    reveal(draw::tier_outcome);
    let layout = request.layout(frame);
    let size = request.tier_sizes@[tier];
    let image = draw::tier_outcome(model, frame, request, crop, tier)->Tiles_0;
    lemma_layout_cells(frame, request);
    lemma_prepared(frame, request.rect, size, layout, request.cell(), model.limits[tier]);
    if size == (request.rect.width, request.rect.height) && image.width == request.rect.width
        && image.height == request.rect.height {
        lemma_shown_part(image, frame, request.rect);
    }
}

} // verus!
