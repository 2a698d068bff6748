//! What holds of how a frame is laid out and drawn.

use crate::arith;
use crate::draw;
use crate::draw::{DrawRequest, WindowSize};
use crate::kitty;
use crate::layout;
use crate::layout::DrawLayout;
use crate::pixels::Pixels;
use crate::protocol_laws;
use crate::pump;
use crate::render;
use crate::render::{TileView, Viewport, ViewportRect};
use crate::render_laws;
use crate::terminal::TerminalModel;
use crate::text;
use vstd::arithmetic::div_mod::*;
use vstd::prelude::*;

verus! {

/// The image may take every column, and every row but the two lines below it. Where the terminal is
/// too small it still takes one.
pub proof fn lemma_room_for_lines(cols: u16, rows: u16)
    ensures
        cols > 0 ==> draw::cols_for(cols) == cols,
        rows >= 4 ==> draw::rows_for(rows) + 2 == rows,
        draw::cols_for(cols) >= 1,
        draw::rows_for(rows) >= 1,
        rows < 4 ==> draw::rows_for(rows) == 1,
        cols == 0 ==> draw::cols_for(cols) == 1,
{
}

/// The pixels of a cell are as many as fit beside each other in the window. Where the window says
/// nothing of its pixels a cell is ten by twenty.
pub proof fn lemma_cell_pixels(window: WindowSize)
    ensures
        ({
            let cell = draw::cell_of(Some(window));
            &&& window.columns > 0 && window.width >= window.columns ==> cell.0 * window.columns
                <= window.width < (cell.0 + 1) * window.columns
            &&& window.rows > 0 && window.height >= window.rows ==> cell.1 * window.rows
                <= window.height < (cell.1 + 1) * window.rows
            &&& window.columns > 0 && 0 < window.width < window.columns ==> cell.0 == 1
            &&& window.rows > 0 && 0 < window.height < window.rows ==> cell.1 == 1
            &&& window.width == 0 || window.columns == 0 ==> cell.0 == 10
            &&& window.height == 0 || window.rows == 0 ==> cell.1 == 20
        }),
        draw::cell_of(None) == (10u32, 20u32),
{
    if window.columns > 0 && window.width > 0 {
        lemma_whole_cells(window.width as int, window.columns as int);
    }
    if window.rows > 0 && window.height > 0 {
        lemma_whole_cells(window.height as int, window.rows as int);
    }
}

proof fn lemma_whole_cells(pixels: int, cells: int)
    requires
        0 < cells,
        0 <= pixels,
    ensures
        (pixels / cells) * cells <= pixels < (pixels / cells + 1) * cells,
        pixels >= cells ==> pixels / cells >= 1,
        pixels < cells ==> pixels / cells == 0,
{
    lemma_fundamental_div_mod(pixels, cells);
    let q = pixels / cells;
    assert(q * cells <= pixels < (q + 1) * cells) by (nonlinear_arith)
        requires
            pixels == cells * q + pixels % cells,
            0 <= pixels % cells < cells,
    ;
    assert(pixels >= cells ==> q >= 1) by (nonlinear_arith)
        requires
            pixels < (q + 1) * cells,
            0 < cells,
    ;
    assert(pixels < cells ==> q < 1) by (nonlinear_arith)
        requires
            q * cells <= pixels,
            0 < cells,
    ;
    assert(q >= 0) by (nonlinear_arith)
        requires
            0 <= pixels < (q + 1) * cells,
            0 < cells,
    ;
}

proof fn lemma_taken(pixels: int, cell: u32, cells: u16)
    requires
        1 <= pixels <= cells * cell,
        0 < cell,
    ensures
        ({
            let count = draw::taken(pixels, cell, cells);
            &&& 1 <= count <= cells
            &&& (count - 1) * cell < pixels <= count * cell
        }),
{
    let (c, n) = (cell as int, cells as int);
    lemma_fundamental_div_mod(pixels, c);
    let q = pixels / c;
    let up = arith::ceiling(pixels, c);
    assert((up - 1) * c < pixels <= up * c) by (nonlinear_arith)
        requires
            pixels == c * q + pixels % c,
            0 <= pixels % c < c,
            up == (if pixels % c == 0 {
                q
            } else {
                q + 1
            }),
    ;
    assert(up <= n) by (nonlinear_arith)
        requires
            (up - 1) * c < pixels,
            pixels <= n * c,
            0 < c,
    ;
    assert(up >= 1) by (nonlinear_arith)
        requires
            1 <= pixels <= up * c,
            0 < c,
    ;
}

/// The image fills the cells that it may take in one direction. In the other it takes as many as
/// its shape needs, and no cell more.
pub proof fn lemma_layout_fills(frame: Pixels, request: &DrawRequest)
    requires
        request.spreads(frame),
        request.rect.height * (request.max_cols() * request.cell().0) < 0x1_0000_0000
            * request.rect.width,
    ensures
        ({
            let layout = request.layout(frame);
            let cell = request.cell();
            let room = (request.max_cols() * cell.0, request.max_rows() * cell.1);
            let size = render::fitted(
                request.rect.width,
                request.rect.height,
                room.0 as u32,
                room.1 as u32,
            );
            &&& 1 <= layout.cols <= request.max_cols()
            &&& 1 <= layout.rows <= request.max_rows()
            &&& layout.cols == request.max_cols() || layout.rows == request.max_rows()
            &&& (layout.cols - 1) * cell.0 < size.0 <= layout.cols * cell.0
            &&& (layout.rows - 1) * cell.1 < size.1 <= layout.rows * cell.1
            &&& size.0 == room.0 || size.1 == room.1
            &&& layout.viewport == request.rect
            &&& layout.source_width == frame.width && layout.source_height == frame.height
            &&& layout.rows < 0x8000 ==> layout.sample_height == 2 * layout.rows
        }),
{
    let cell = request.cell();
    let (cols, rows) = (request.max_cols(), request.max_rows());
    assert(0 < cols * cell.0 && 0 < rows * cell.1) by (nonlinear_arith)
        requires
            0 < cols,
            0 < rows,
            0 < cell.0,
            0 < cell.1,
    ;
    let (width, height) = ((cols * cell.0) as u32, (rows * cell.1) as u32);
    render_laws::lemma_fit_within(request.rect.width, request.rect.height, width, height);
    let size = render::fitted(request.rect.width, request.rect.height, width, height);
    lemma_taken(size.0, cell.0, cols);
    lemma_taken(size.1, cell.1, rows);
    let layout = request.layout(frame);
    if size.0 == width {
        lemma_all_taken(cols as int, layout.cols as int, cell.0 as int);
    } else {
        lemma_all_taken(rows as int, layout.rows as int, cell.1 as int);
    }
}

proof fn lemma_all_taken(cells: int, count: int, cell: int)
    requires
        0 < cell,
        count <= cells,
        cells * cell <= count * cell,
    ensures
        count == cells,
{
    assert(cells <= count) by (nonlinear_arith)
        requires
            0 < cell,
            cells * cell <= count * cell,
    ;
}

/// What is known of the atlas, and of the present frame and terminal.
pub open spec fn made_for(model: TerminalModel, frame: Pixels, request: &DrawRequest) -> bool {
    match model.kitty_atlas {
        Some(atlas) => {
            &&& atlas.source_width == frame.width && atlas.source_height == frame.height
            &&& atlas.max_cols == draw::cols_for(request.cols) && atlas.max_rows == draw::rows_for(
                request.rows,
            )
            &&& (atlas.cell_width, atlas.cell_height) == draw::cell_of(request.window)
        },
        None => false,
    }
}

proof fn lemma_rebuilt_for(model: TerminalModel, frame: Pixels, request: &DrawRequest)
    requires
        request.spreads(frame),
        draw::rebuilt(model, frame, request).1 is Ok,
    ensures
        ({
            let after = draw::rebuilt(model, frame, request).0;
            &&& made_for(after, frame, request)
            &&& !after.force_kitty_redraw && !after.kitty_atlas_ready && !after.kitty_atlas_stale
            &&& after.kitty_atlas_refresh_at is None
        }),
{
}

proof fn lemma_previewed_keeps(model: TerminalModel, frame: Pixels, request: &DrawRequest)
    ensures
        ({
            let after = draw::previewed(model, frame, request).0;
            &&& after.kitty_atlas == model.kitty_atlas
            &&& after.kitty_atlas_ready == model.kitty_atlas_ready
            &&& after.kitty_atlas_stale == model.kitty_atlas_stale
            &&& after.force_kitty_redraw == model.force_kitty_redraw
        }),
{
}

proof fn lemma_tiled_keeps(
    model: TerminalModel,
    frame: Pixels,
    request: &DrawRequest,
    navigation: bool,
)
    ensures
        ({
            let (after, drawn) = draw::tiled(model, frame, request, navigation);
            &&& after.kitty_atlas == model.kitty_atlas
            &&& after.kitty_atlas_ready == model.kitty_atlas_ready
            &&& after.kitty_atlas_stale == model.kitty_atlas_stale
            &&& drawn is Ok ==> !after.force_kitty_redraw
        }),
{
}

/// However a frame is drawn, the atlas is then one for it and for the terminal as it is. An atlas
/// that already was, and need not be sent anew, stays.
#[verifier::rlimit(50)]
pub proof fn lemma_atlas_up_to_date(
    model: TerminalModel,
    frame: Pixels,
    viewport: Viewport,
    request: &DrawRequest,
)
    requires
        request.spreads(frame),
        model.kitty is Some,
        render::viewport_fault(viewport) is None,
        draw::kitty_outcome(model, frame, viewport, request).1 is Ok,
    ensures
        ({
            let after = draw::kitty_outcome(model, frame, viewport, request).0;
            &&& made_for(after, frame, request)
            &&& !after.force_kitty_redraw
            &&& made_for(model, frame, request) && !model.force_kitty_redraw
                && model.kitty->0.atlas is Some ==> after.kitty_atlas == model.kitty_atlas
                && after.kitty_atlas_ready == model.kitty_atlas_ready && after.kitty_atlas_stale
                == model.kitty_atlas_stale
            &&& !made_for(model, frame, request) || model.force_kitty_redraw
                || model.kitty->0.atlas is None ==> !after.kitty_atlas_ready
                && !after.kitty_atlas_stale && after.kitty_atlas_refresh_at is None
        }),
{
    let changed = model.kitty_layout != Some(request.layout(frame));
    if draw::must_rebuild(model, frame, request) {
        lemma_rebuilt_for(model, frame, request);
    } else {
        lemma_previewed_keeps(model, frame, request);
        lemma_tiled_keeps(
            draw::settled(model, changed),
            frame,
            request,
            changed || model.kitty_previewing,
        );
    }
}

/// What cannot be drawn leaves the terminal as it is, and says why.
pub proof fn lemma_fault_draws_nothing(
    model: TerminalModel,
    frame: Pixels,
    viewport: Viewport,
    request: &DrawRequest,
)
    requires
        render::viewport_fault(viewport) is Some,
    ensures
        draw::kitty_outcome(model, frame, viewport, request).0 == model,
        draw::kitty_outcome(model, frame, viewport, request).1 is Err,
{
}

/// After the atlas of a frame that is visible as a whole nothing more follows. After that of a
/// frame that is visible in part, tiles follow once the preview has stood for as long as is
/// configured.
pub proof fn lemma_atlas_then_tiles(
    model: TerminalModel,
    frame: Pixels,
    viewport: Viewport,
    request: &DrawRequest,
)
    requires
        request.spreads(frame),
        render::viewport_fault(viewport) is None,
        draw::must_rebuild(model, frame, request),
        draw::kitty_outcome(model, frame, viewport, request).1 is Ok,
    ensures
        ({
            let after = draw::kitty_outcome(model, frame, viewport, request).0;
            let rect = request.rect;
            let full = rect.x == 0 && rect.y == 0 && rect.width == frame.width && rect.height
                == frame.height;
            &&& full ==> after.kitty_refine_at is None && !after.kitty_previewing
            &&& !full ==> after.kitty_previewing && after.kitty_refine_at == Some(
                (request.now + model.graphics_config.advanced.preview_ms * 1_000_000) as u128,
            )
            &&& full <==> after.last_kitty_image is Some
            &&& after.kitty_layout == Some(request.layout(frame))
            &&& after.tier == model.tier && after.ceiling == model.ceiling
        }),
{
}

/// A view that moves while the atlas is still on its way waits for it, and so does a frame that
/// would go out while graphics are on their way. The frame is then drawn later.
pub proof fn lemma_waiting_frames(
    model: TerminalModel,
    frame: Pixels,
    viewport: Viewport,
    request: &DrawRequest,
)
    requires
        request.spreads(frame),
        render::viewport_fault(viewport) is None,
        !draw::must_rebuild(model, frame, request),
        model.kitty_layout != Some(request.layout(frame)),
        !model.kitty_atlas_ready,
        !model.kitty_atlas_stale,
    ensures
        ({
            let (after, drawn) = draw::kitty_outcome(model, frame, viewport, request);
            &&& after == (TerminalModel { deferred_kitty_redraw: true, ..model })
            &&& drawn is Ok
        }),
{
}

/// While a preview stands, its tiles are not drawn before its time.
pub proof fn lemma_preview_stands(
    model: TerminalModel,
    frame: Pixels,
    viewport: Viewport,
    request: &DrawRequest,
)
    requires
        request.spreads(frame),
        render::viewport_fault(viewport) is None,
        !draw::must_rebuild(model, frame, request),
        model.kitty_layout == Some(request.layout(frame)),
        model.kitty_refine_at is Some,
        request.now < model.kitty_refine_at->0,
    ensures
        draw::kitty_outcome(model, frame, viewport, request).0 == model,
        draw::kitty_outcome(model, frame, viewport, request).1 == Ok::<_, draw::DrawError>(
            request.layout(frame),
        ),
{
}

/// Tiles that are sent are what is known to be shown from then on, at the detail at which they were
/// sent. Where that is less than before, it recovers once as long has passed as is configured.
pub proof fn lemma_tiles_remembered(
    model: TerminalModel,
    frame: Pixels,
    request: &DrawRequest,
    navigation: bool,
)
    requires
        model.tier < model.limits.len(),
        model.ceiling < model.limits.len(),
        model.limits.len() <= usize::MAX,
        draw::tiled(model, frame, request, navigation).0.last_kitty_image is Some,
        draw::tiled(model, frame, request, navigation).1 is Ok,
    ensures
        ({
            let after = draw::tiled(model, frame, request, navigation).0;
            let began = if draw::may_adapt(model, navigation) {
                model.tier
            } else {
                model.ceiling
            };
            &&& (after.last_kitty_image->0).0 == request.layout(frame)
            &&& after.kitty_layout == Some(request.layout(frame))
            &&& after.tier >= began
            &&& after.tier > began ==> after.kitty_quality_upgrade_at == Some(
                (request.now + model.graphics_config.advanced.recovery_ms * 1_000_000) as u128,
            )
            &&& !after.kitty_previewing && after.kitty_refine_at is None
            &&& model.kitty_atlas_stale ==> after.kitty_atlas_refresh_at == Some(
                (request.now + model.graphics_config.advanced.atlas_refresh_ms
                    * 1_000_000) as u128,
            )
        }),
{
    let ready = draw::before_tiles(model, draw::may_adapt(model, navigation));
    let crop = match model.kitty_atlas {
        Some(atlas) => Some(draw::atlas_crop(request.rect, atlas)),
        None => None,
    };
    crate::draw_laws::lemma_budget_kept(
        ready,
        frame,
        request,
        crop,
        draw::may_adapt(model, navigation),
        ready.tier as int,
    );
}

/// Less detail is used only where the policy allows it: a sharp policy never, a fast one also for a
/// view that moves, any other only while the frame keeps changing. A frame that must have the most
/// detail has it.
pub proof fn lemma_detail_policy(model: TerminalModel, navigation: bool)
    ensures
        ({
            let policy = model.graphics_config.quality;
            let may = draw::may_adapt(model, navigation);
            &&& policy is Sharp ==> !may
            &&& model.kitty_force_max_quality ==> !may
            &&& navigation ==> (may <==> policy is Fast && !model.kitty_force_max_quality)
            &&& !navigation && !(policy is Sharp) && !model.kitty_force_max_quality ==> may
                == model.kitty_adaptive_damage
            &&& draw::before_tiles(model, may).tier == if may {
                model.tier
            } else {
                model.ceiling
            }
        }),
{
}

/// Tiles have at least a hundred and twenty-eight pixels in each direction, or all that there are,
/// and would have fewer with one cell less.
pub proof fn lemma_tile_size(target: u32, pixels: u32, cells: u16)
    requires
        0 < pixels,
        0 < cells,
        0 < target,
        target * cells < 0x1_0000_0000,
    ensures
        ({
            let each = render::tile_cells(target, pixels, cells);
            &&& 1 <= each <= cells
            &&& each * pixels >= target * cells || each == cells
            &&& each > 1 ==> (each - 1) * pixels < target * cells
        }),
        draw::KITTY_TILE_SIZE == 128,
{
    let wanted = target * cells;
    lemma_fundamental_div_mod(wanted, pixels as int);
    let q = wanted / pixels as int;
    let p = pixels as int;
    let up = arith::ceiling(wanted, p);
    assert(wanted >= 1) by (nonlinear_arith)
        requires
            wanted == target * cells,
            target >= 1,
            cells >= 1,
    ;
    assert((up - 1) * p < wanted <= up * p) by (nonlinear_arith)
        requires
            wanted == p * q + wanted % p,
            0 <= wanted % p < p,
            up == (if wanted % p == 0 {
                q
            } else {
                q + 1
            }),
    ;
    assert(1 <= up <= wanted) by (nonlinear_arith)
        requires
            (up - 1) * p < wanted <= up * p,
            1 <= wanted,
            0 < p,
    ;
    let each = render::tile_cells(target, pixels, cells);
    assert(arith::low32(up) == up);
    if each == up {
        assert(each * pixels == up * p);
        assert((each - 1) * pixels == (up - 1) * p);
    } else {
        assert(each == cells);
        assert((each - 1) * p < wanted) by (nonlinear_arith)
            requires
                (up - 1) * p < wanted,
                each <= up,
                0 < p,
        ;
    }
}

/// A terminal that is written to directly is never sent less detail than was asked for: only behind
/// tmux is there a budget.
pub proof fn lemma_direct_keeps_detail(
    model: TerminalModel,
    frame: Pixels,
    request: &DrawRequest,
    crop: Option<ViewportRect>,
    adaptive: bool,
    tier: int,
)
    requires
        model.kitty is Some,
        model.kitty->0.transport is Direct,
    ensures
        draw::refined(model, frame, request, crop, adaptive, tier).0 == tier,
        draw::refined(model, frame, request, crop, adaptive, tier).1 == draw::tier_outcome(
            model,
            frame,
            request,
            crop,
            tier,
        ),
{
    reveal(draw::tier_outcome);
    let layout = request.layout(frame);
    let image = draw::prepared(
        frame,
        request.rect,
        request.tier_sizes@[tier],
        layout,
        request.cell(),
        model.limits[tier],
    );
    let previous = draw::comparable(model.last_kitty_image, layout, image);
    let reset = model.force_kitty_redraw || previous is None;
    let tiles = draw::tiles_of(
        if reset {
            None
        } else {
            previous
        },
        image,
        layout,
    );
    lemma_transport_kept(model.kitty->0, tiles, reset);
}

proof fn lemma_transport_kept(state: kitty::RendererState, tiles: Seq<TileView>, reset: bool)
    ensures
        kitty::tiles_outcome(state, tiles, reset).2.transport == state.transport,
{
    lemma_run_transport(kitty::first_run(state, reset), tiles);
}

proof fn lemma_run_transport(run: kitty::TileRun, tiles: Seq<TileView>)
    ensures
        kitty::with_tiles(run, tiles).state.transport == run.state.transport,
    decreases tiles.len(),
{
    if tiles.len() > 0 {
        lemma_run_transport(run, tiles.drop_last());
    }
}

/// Where a crop of the atlas shows as much as tiles would, nothing is sent and no tile is
/// remembered. The detail is then that of the atlas, and nothing waits to be refined.
pub proof fn lemma_crop_kept(model: TerminalModel, layout: DrawLayout)
    ensures
        ({
            let after = draw::kept(model, layout);
            &&& after.output == model.output && after.kitty == model.kitty
            &&& after.tier == model.ceiling && after.kitty_quality_upgrade_at is None
            &&& after.last_kitty_image is None && after.last_image is None
            &&& after.kitty_refine_at is None && !after.kitty_previewing
            &&& after.kitty_layout == Some(layout)
            &&& !after.force_kitty_redraw && !after.deferred_kitty_redraw
        }),
{
}

/// Tiles go out behind the graphics that wait, and behind them what clears the cells that the raster
/// before took and the present one does not, where the layout changed.
pub proof fn lemma_tiles_go_out(
    model: TerminalModel,
    layout: DrawLayout,
    request: &DrawRequest,
    tier: usize,
    image: Pixels,
    segments: Seq<Seq<u8>>,
    state: kitty::RendererState,
)
    ensures
        ({
            let after = draw::covered(model, layout, request, tier, image, segments, state);
            let cleared = if model.last_kitty_image is Some && (model.last_kitty_image->0).0
                != layout {
                layout::stale_cells((model.last_kitty_image->0).0, layout, request.rows)
            } else {
                seq![]
            };
            &&& text::joined(after.output.graphics) == text::joined(model.output.graphics)
                + text::joined(segments) + cleared
            &&& after.output.control == model.output.control
            &&& after.output.active == model.output.active
            &&& after.kitty == Some(state)
            &&& after.last_kitty_image == Some((layout, image))
        }),
{
    let cleared = draw::cleanup(model.last_kitty_image, layout, request.rows);
    let all = segments.push(cleared);
    protocol_laws::lemma_empty_left_out(all);
    assert(all.drop_last() =~= segments);
    assert(text::joined(all) =~= text::joined(segments) + cleared);
    lemma_joined_both(model.output.graphics, pump::not_empty(all));
    let after = draw::covered(model, layout, request, tier, image, segments, state);
    assert(text::joined(after.output.graphics) =~= text::joined(model.output.graphics)
        + text::joined(segments) + cleared);
}

proof fn lemma_joined_both(a: Seq<Seq<u8>>, b: Seq<Seq<u8>>)
    ensures
        text::joined(a + b) == text::joined(a) + text::joined(b),
    decreases b.len(),
{
    if b.len() == 0 {
        assert(a + b =~= a);
        assert(text::joined(a + b) =~= text::joined(a) + text::joined(b));
    } else {
        assert((a + b).drop_last() =~= a + b.drop_last());
        assert((a + b).last() == b.last());
        lemma_joined_both(a, b.drop_last());
        assert(text::joined(a + b) =~= text::joined(a) + text::joined(b));
    }
}

/// The tiles that refine a preview, and those of a view that just moved, have the most detail that
/// is allowed, however often the frame changed before, unless the policy is the fast one.
pub proof fn lemma_refined_sharp(
    model: TerminalModel,
    frame: Pixels,
    viewport: Viewport,
    request: &DrawRequest,
)
    requires
        request.spreads(frame),
        render::viewport_fault(viewport) is None,
        !draw::must_rebuild(model, frame, request),
        model.kitty_previewing || model.kitty_layout != Some(request.layout(frame)),
        model.kitty_atlas_stale || model.kitty_layout == Some(request.layout(frame)),
        model.kitty_refine_at is None || request.now >= model.kitty_refine_at->0,
        !model.output.busy(),
        !(model.graphics_config.quality is Fast),
        model.ceiling < model.limits.len(),
        model.limits.len() <= usize::MAX,
    ensures
        draw::kitty_outcome(model, frame, viewport, request).0.tier == model.ceiling,
{
    let changed = model.kitty_layout != Some(request.layout(frame));
    let start = draw::settled(model, changed);
    let ready = draw::before_tiles(start, false);
    let crop = match model.kitty_atlas {
        Some(atlas) => Some(draw::atlas_crop(request.rect, atlas)),
        None => None,
    };
    assert(!draw::may_adapt(start, true));
    crate::draw_laws::lemma_budget_kept(ready, frame, request, crop, false, ready.tier as int);
    assert(draw::kitty_outcome(model, frame, viewport, request) == draw::tiled(
        start,
        frame,
        request,
        true,
    ));
}

/// A view that changes ends the preview of the one before. Where the atlas is out of date and
/// graphics are still on their way, nothing is drawn, and the frame is drawn once they have arrived.
pub proof fn lemma_change_ends_preview(
    model: TerminalModel,
    frame: Pixels,
    viewport: Viewport,
    request: &DrawRequest,
)
    requires
        render::viewport_fault(viewport) is None,
        !draw::must_rebuild(model, frame, request),
        model.kitty_layout != Some(request.layout(frame)),
        model.kitty_atlas_stale,
        model.output.busy(),
    ensures
        draw::kitty_outcome(model, frame, viewport, request) == (
            TerminalModel {
                deferred_kitty_redraw: true,
                kitty_refine_at: None,
                kitty_previewing: false,
                ..model
            },
            Ok::<DrawLayout, draw::DrawError>(request.layout(frame)),
        ),
{
}

/// Where tiles cannot be written, what is shown stays as it was. Detail that no policy gives up is
/// not waited for any longer.
pub proof fn lemma_failed_tiles_keep(
    model: TerminalModel,
    frame: Pixels,
    request: &DrawRequest,
    navigation: bool,
)
    requires
        draw::tiled(model, frame, request, navigation).1 is Err,
    ensures
        ({
            let next = draw::tiled(model, frame, request, navigation).0;
            let adaptive = draw::may_adapt(model, navigation);
            &&& next == TerminalModel {
                tier: next.tier,
                kitty_quality_upgrade_at: next.kitty_quality_upgrade_at,
                ..model
            }
            &&& !adaptive && model.tier != model.ceiling ==> next.kitty_quality_upgrade_at is None
            &&& adaptive || model.tier == model.ceiling ==> next.kitty_quality_upgrade_at
                == model.kitty_quality_upgrade_at
        }),
{
}

} // verus!
