//! What holds of every frame that is drawn.

use crate::config::QualityMode;
use crate::draw;
use crate::draw::{DrawRequest, TierOutcome};
use crate::kitty;
use crate::layout::DrawLayout;
use crate::ordered;
use crate::pixels::Pixels;
use crate::quality;
use crate::render;
use crate::render::{TileGrid, TileView, Viewport, ViewportRect};
use crate::render_laws;
use crate::screen;
use crate::screen::Chrome;
use crate::terminal;
use crate::terminal::TerminalModel;
use crate::viewer::{GraphicsCommand, ViewerModel};
use vstd::prelude::*;

verus! {

/// Damage makes the atlas stale.
pub proof fn lemma_damage_marks_atlas(model: TerminalModel, now: u128)
    ensures
        terminal::damaged(model, now).kitty_atlas_stale,
        terminal::visibly_damaged(model, now).kitty_atlas_stale,
{
}

/// A stale atlas stays stale until it is sent anew, and until then no crop of it is placed: the
/// graphics that a draw adds are tiles of the present frame, if any.
pub proof fn lemma_stale_atlas_hidden(
    model: TerminalModel,
    frame: Pixels,
    viewport: Viewport,
    request: &DrawRequest,
)
    requires
        model.kitty_atlas_stale,
        !draw::must_rebuild(model, frame, request),
    ensures
        ({
            let (next, _) = draw::kitty_outcome(model, frame, viewport, request);
            let changed = model.kitty_layout != Some(request.layout(frame));
            &&& next.kitty_atlas_stale
            &&& next.output == model.output && next.kitty == model.kitty || next == draw::tiled(
                draw::settled(model, changed),
                frame,
                request,
                changed || model.kitty_previewing,
            ).0
        }),
{
}

/// Tiles only cover a fresh atlas where they have more pixels than the crop of it.
pub proof fn lemma_fresh_atlas_kept(
    model: TerminalModel,
    frame: Pixels,
    request: &DrawRequest,
    crop: ViewportRect,
    adaptive: bool,
    tier: int,
)
    requires
        !model.kitty_atlas_stale,
    ensures
        draw::refined(model, frame, request, Some(crop), adaptive, tier).1 matches
            TierOutcome::Tiles(image, _, _) ==> (image.width as u32) * (image.height as u32)
            > crop.width * crop.height,
    decreases model.limits.len() - tier,
{
    reveal(draw::tier_outcome);
    match draw::tier_outcome(model, frame, request, Some(crop), tier) {
        TierOutcome::Tiles(_, segments, state) => {
            let bytes = draw::byte_count(segments) as int;
            let budget = model.kitty_frame_budget_bytes as int;
            if adaptive && state.transport is Tmux && bytes > budget && 0 <= tier && tier + 1
                < model.limits.len() {
                quality::lemma_budget_tier(model.limits, tier, tier, bytes, budget);
                lemma_fresh_atlas_kept(
                    model,
                    frame,
                    request,
                    crop,
                    adaptive,
                    quality::budget_tier(model.limits, tier, tier, bytes, budget),
                );
            }
        },
        _ => {},
    }
}

/// A frame is never sent with more detail than it started with. Behind tmux an adaptive frame fits
/// the budget, unless it is sent with the least detail.
pub proof fn lemma_budget_kept(
    model: TerminalModel,
    frame: Pixels,
    request: &DrawRequest,
    crop: Option<ViewportRect>,
    adaptive: bool,
    tier: int,
)
    requires
        0 <= tier < model.limits.len(),
    ensures
        ({
            let (last, outcome) = draw::refined(model, frame, request, crop, adaptive, tier);
            &&& tier <= last < model.limits.len()
            &&& !adaptive ==> last == tier
            &&& outcome matches TierOutcome::Tiles(_, segments, state) ==> adaptive
                && state.transport is Tmux ==> draw::byte_count(segments)
                <= model.kitty_frame_budget_bytes || last + 1 == model.limits.len()
        }),
    decreases model.limits.len() - tier,
{
    match draw::tier_outcome(model, frame, request, crop, tier) {
        TierOutcome::Tiles(_, segments, state) => {
            let bytes = draw::byte_count(segments) as int;
            let budget = model.kitty_frame_budget_bytes as int;
            if adaptive && state.transport is Tmux && bytes > budget && tier + 1
                < model.limits.len() {
                quality::lemma_budget_tier(model.limits, tier, tier, bytes, budget);
                lemma_budget_kept(
                    model,
                    frame,
                    request,
                    crop,
                    adaptive,
                    quality::budget_tier(model.limits, tier, tier, bytes, budget),
                );
            }
        },
        _ => {},
    }
}

/// With a sharp policy tiles are always sent with the most detail that is allowed.
pub proof fn lemma_sharp_stays_sharp(
    model: TerminalModel,
    frame: Pixels,
    request: &DrawRequest,
    navigation: bool,
)
    requires
        model.graphics_config.quality == QualityMode::Sharp,
        model.ceiling < model.limits.len(),
    ensures
        draw::tiled(model, frame, request, navigation).0.tier == model.ceiling,
{
    let ready = draw::before_tiles(model, false);
    let crop = match model.kitty_atlas {
        Some(atlas) => Some(draw::atlas_crop(request.rect, atlas)),
        None => None,
    };
    lemma_budget_kept(ready, frame, request, crop, false, ready.tier as int);
}

/// Only a fast policy lowers the resolution for navigation.
pub proof fn lemma_navigation_stays_sharp(model: TerminalModel)
    requires
        model.graphics_config.quality != QualityMode::Fast,
    ensures
        !draw::may_adapt(model, true),
{
}

/// No raster has more pixels than the terminal shows, than its limit allows, or than the frame has.
pub proof fn lemma_rasters_within(
    request: &DrawRequest,
    frame: Pixels,
    limits: Seq<(u32, u32)>,
    ceiling: int,
    tier: int,
)
    requires
        request.fits(frame, limits, ceiling),
        terminal::usable(limits),
        0 <= ceiling < limits.len(),
        0 <= tier < limits.len(),
    ensures
        ({
            let display = (
                request.max_cols() * request.cell().0,
                request.max_rows() * request.cell().1,
            );
            let atlas = request.atlas_size;
            let size = request.tier_sizes@[tier];
            &&& 1 <= atlas.0 <= display.0 && 1 <= atlas.1 <= display.1
            &&& atlas.0 <= limits[ceiling].0 && atlas.1 <= limits[ceiling].1
            &&& atlas.0 <= frame.width && atlas.1 <= frame.height
            &&& 1 <= size.0 <= display.0 && 1 <= size.1 <= display.1
            &&& size.0 <= limits[tier].0 && size.1 <= limits[tier].1
            &&& size.0 <= request.rect.width && size.1 <= request.rect.height
        }),
{
    reveal(terminal::usable);
    lemma_scaled_within(
        request,
        request.atlas_size,
        (frame.width as u32, frame.height as u32),
        limits[ceiling],
    );
    lemma_scaled_within(
        request,
        request.tier_sizes@[tier],
        (request.rect.width, request.rect.height),
        limits[tier],
    );
}

proof fn lemma_scaled_within(
    request: &DrawRequest,
    size: (u32, u32),
    shape: (u32, u32),
    limits: (u32, u32),
)
    requires
        draw::scaled_into(size, shape, request.room(limits)),
        0 < limits.0,
        0 < limits.1,
    ensures
        size.0 <= request.max_cols() * request.cell().0,
        size.1 <= request.max_rows() * request.cell().1,
        size.0 <= limits.0,
        size.1 <= limits.1,
{
    let (cell, cols, rows) = (request.cell(), request.max_cols(), request.max_rows());
    assert(0 < cell.0 && 0 < cell.1);
    assert(0 < cols * cell.0 && 0 < rows * cell.1) by (nonlinear_arith)
        requires
            0 < cols,
            0 < rows,
            0 < cell.0,
            0 < cell.1,
    ;
    let room = request.room(limits);
    render::lemma_fitted_at_most(shape.0, shape.1, room.0 as u32, room.1 as u32);
}

/// A raster that is the same as the one that was sent last sends nothing.
pub proof fn lemma_still_frame_sends_nothing(
    model: TerminalModel,
    frame: Pixels,
    request: &DrawRequest,
    crop: Option<ViewportRect>,
    tier: int,
)
    requires
        model.kitty is Some,
        model.kitty->0.atlas is Some,
        !model.force_kitty_redraw,
        model.last_kitty_image == Some(
            (
                request.layout(frame),
                draw::prepared(
                    frame,
                    request.rect,
                    request.tier_sizes@[tier],
                    request.layout(frame),
                    request.cell(),
                    model.limits[tier],
                ),
            ),
        ),
    ensures
        draw::tier_outcome(model, frame, request, crop, tier) matches TierOutcome::Tiles(
            _,
            segments,
            state,
        ) ==> segments == Seq::<Seq<u8>>::empty() && state == model.kitty->0,
        !(draw::tier_outcome(model, frame, request, crop, tier) is Failed),
{
    reveal(draw::tier_outcome);
    let layout = request.layout(frame);
    let image = (model.last_kitty_image->0).1;
    let grid = TileGrid {
        width: image.width as u32,
        height: image.height as u32,
        cols: layout.cols,
        rows: layout.rows,
        target: draw::KITTY_TILE_SIZE,
    };
    render_laws::lemma_unchanged_sends_nothing(grid, image, grid.across() * grid.down());
    lemma_no_tiles(model.kitty->0);
}

/// No tiles, no output.
proof fn lemma_no_tiles(state: kitty::RendererState)
    requires
        state.atlas is Some,
    ensures
        kitty::tiles_outcome(state, Seq::<TileView>::empty(), false) == (
            None::<kitty::KittyError>,
            Seq::<Seq<u8>>::empty(),
            state,
        ),
{
    let none = Map::<u32, u32>::empty();
    ordered::lemma_no_values();
    assert(kitty::deletions(state.transport, ordered::values_by_key(none)) =~= seq![]);
    let run = kitty::first_run(state, false);
    assert(kitty::with_tiles(run, Seq::<TileView>::empty()) == run);
    assert(run.output + kitty::deletions(state.transport, ordered::values_by_key(none)) =~= Seq::<
        Seq<u8>,
    >::empty());
}

/// While graphics are on their way, a frame under an unchanged view adds nothing to them. It is
/// put off: one request to draw is remembered, however many frames come, unless a preview waits
/// to be refined anyhow.
pub proof fn lemma_busy_frames_wait(
    model: TerminalModel,
    frame: Pixels,
    viewport: Viewport,
    request: &DrawRequest,
)
    requires
        render::viewport_fault(viewport) is None,
        !draw::must_rebuild(model, frame, request),
        model.kitty_layout == Some(request.layout(frame)),
        model.output.busy(),
    ensures
        ({
            let (next, drawn) = draw::kitty_outcome(model, frame, viewport, request);
            let waits = model.kitty_refine_at matches Some(time) && request.now < time;
            &&& drawn == Ok::<DrawLayout, draw::DrawError>(request.layout(frame))
            &&& next == if waits {
                model
            } else {
                TerminalModel { deferred_kitty_redraw: true, ..model }
            }
        }),
{
}

/// Whether detail that was given up comes back by itself.
pub open spec fn recovers(model: TerminalModel) -> bool {
    model.tier != model.ceiling ==> model.kitty_quality_upgrade_at is Some
}

/// Detail is never given up for good: damage, commands and waiting keep a time at which it comes
/// back.
pub proof fn lemma_recovery_kept(model: TerminalModel, command: GraphicsCommand, now: u128)
    requires
        recovers(model),
    ensures
        recovers(terminal::damaged(model, now)),
        recovers(terminal::visibly_damaged(model, now)),
        recovers(terminal::command_outcome(model, command).0),
        recovers(terminal::due_outcome(model, now).0),
{
}

/// A frame that is drawn keeps a time at which detail comes back, and sets one where it gives
/// detail up.
pub proof fn lemma_frame_recovers(
    model: TerminalModel,
    frame: Pixels,
    viewport: Viewport,
    request: &DrawRequest,
)
    requires
        recovers(model),
        draw::kitty_outcome(model, frame, viewport, request).1 is Ok,
    ensures
        recovers(draw::kitty_outcome(model, frame, viewport, request).0),
{
    let changed = model.kitty_layout != Some(request.layout(frame));
    lemma_tiles_recover(
        draw::settled(model, changed),
        frame,
        request,
        changed || model.kitty_previewing,
    );
}

proof fn lemma_tiles_recover(
    model: TerminalModel,
    frame: Pixels,
    request: &DrawRequest,
    navigation: bool,
)
    requires
        recovers(model),
    ensures
        draw::tiled(model, frame, request, navigation).1 is Ok ==> recovers(
            draw::tiled(model, frame, request, navigation).0,
        ),
{
}

/// When that time has come, all the detail that is allowed is back at once, and the frame is
/// drawn anew.
pub proof fn lemma_rest_restores(model: TerminalModel, now: u128)
    requires
        terminal::is_due(model.kitty_quality_upgrade_at, now),
    ensures
        ({
            let (next, redraw) = terminal::due_outcome(model, now);
            &&& redraw
            &&& next.tier == next.ceiling
            &&& next.ceiling == model.ceiling
            &&& next.kitty_quality_upgrade_at is None
            &&& next.force_kitty_redraw || next.kitty_force_max_quality
        }),
{
}

/// A resolution that is lowered and raised again is the same as before.
pub proof fn lemma_resolution_restored(model: TerminalModel)
    requires
        model.kitty is Some,
        model.ceiling + 1 < model.limits.len() <= usize::MAX,
    ensures
        ({
            let lowered = terminal::command_outcome(model, GraphicsCommand::LowerResolution).0;
            let raised = terminal::command_outcome(lowered, GraphicsCommand::RaiseResolution).0;
            &&& lowered.ceiling == model.ceiling + 1
            &&& raised.ceiling == model.ceiling
            &&& raised.limits == model.limits
        }),
{
}

/// Lines that were just drawn are not written again.
pub proof fn lemma_lines_written_once(model: TerminalModel, state: ViewerModel, chrome: &Chrome)
    ensures
        ({
            let next = screen::chrome_outcome(model, state, chrome).0;
            screen::chrome_outcome(next, state, chrome) == (
                next,
                (Seq::<u8>::empty(), Seq::<u8>::empty()),
            )
        }),
{
    reveal(screen::mode_line);
    reveal(screen::status_words);
    reveal(screen::echo_line);
    reveal(screen::echo_words);
    let next = screen::chrome_outcome(model, state, chrome).0;
    assert(screen::mode_line(next, state, chrome) == screen::mode_line(model, state, chrome));
    assert(screen::echo_line(next, state, chrome.cols) == screen::echo_line(
        model,
        state,
        chrome.cols,
    ));
}

} // verus!
