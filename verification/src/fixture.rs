//! Deterministic scenes that exercise the terminal graphics from end to end.

use crate::arith;
use crate::arith::truncate32;
use crate::config;
use crate::config::{GraphicsConfig, QualityMode};
use crate::keys::{KeyCode, KeyEvent};
use crate::kitty;
use crate::kitty::{KittyError, Renderer};
use crate::pixels::{Pixels, RgbImage};
use crate::render;
use crate::render::{RasterTile, TileView, ViewportRect};
use crate::terminal;
use crate::terminal::{Terminal, TerminalModel};
use crate::text;
use crate::viewer;
use crate::viewer::{
    earliest_timeout, Effect, ViewCommand, ViewerModel, ViewerState, LATEST,
};
use crate::session::OUTPUT_RETRY_INTERVAL;
use vstd::prelude::*;

verus! {

/// The size of the image that the transition shows.
pub const QUADRANTS_WIDTH: u32 = 400;

pub const QUADRANTS_HEIGHT: u32 = 240;

/// The size of the desktop that the quality scene shows.
pub const NOISE_WIDTH: u32 = 2560;

pub const NOISE_HEIGHT: u32 = 1600;

/// The colour that stands for a change.
pub open spec fn magenta() -> Seq<u8> {
    seq![224, 32, 224]
}

/// The image in which the pixel in column `x` of row `y` has the colour `colour(x, y)`.
pub open spec fn painted(width: nat, height: nat, colour: spec_fn(int, int) -> Seq<u8>) -> Pixels {
    Pixels {
        width,
        height,
        data: Seq::new(
            width * height * 3,
            |i: int| colour(i / 3 % width as int, i / 3 / width as int)[i % 3],
        ),
    }
}

/// A colour for each quarter of the image.
pub open spec fn quadrant(x: int, y: int) -> Seq<u8> {
    match (x < 200, y < 120) {
        (true, true) => seq![224, 32, 32],
        (false, true) => seq![32, 224, 32],
        (true, false) => seq![32, 32, 224],
        (false, false) => seq![224, 224, 32],
    }
}

/// The image of four quarters.
pub open spec fn quadrants() -> Pixels {
    painted(
        QUADRANTS_WIDTH as nat,
        QUADRANTS_HEIGHT as nat,
        |x: int, y: int| quadrant(x, y),
    )
}

/// The image of one colour.
pub open spec fn plain(width: nat, height: nat, colour: Seq<u8>) -> Pixels {
    Pixels { width, height, data: Seq::new(width * height * 3, |i: int| colour[i % 3]) }
}

fn quadrant_colour(x: u32, y: u32) -> (colour: [u8; 3])
    ensures
        colour@ == quadrant(x as int, y as int),
{
    let colour: [u8; 3] = match (x < 200, y < 120) {
        (true, true) => [224, 32, 32],
        (false, true) => [32, 224, 32],
        (true, false) => [32, 32, 224],
        (false, false) => [224, 224, 32],
    };
    assert(colour@ =~= quadrant(x as int, y as int));
    colour
}

/// Makes the image of four quarters.
pub fn quadrant_image() -> (image: RgbImage)
    ensures
        image.wf(),
        image@ == quadrants(),
{
    let mut data: Vec<u8> = Vec::new();
    let count: u32 = QUADRANTS_WIDTH * QUADRANTS_HEIGHT;
    let mut i: u32 = 0;
    while i < count
        invariant
            count == 96000,
            i <= count,
            data@ == quadrants().data.take(3 * i),
        decreases count - i,
    {
        let colour = quadrant_colour(i % QUADRANTS_WIDTH, i / QUADRANTS_WIDTH);
        let ghost before = data@;
        data.push(colour[0]);
        data.push(colour[1]);
        data.push(colour[2]);
        proof {
            assert((3 * i + 0) / 3 == i && (3 * i + 1) / 3 == i && (3 * i + 2) / 3 == i);
            assert((3 * i + 0) % 3 == 0 && (3 * i + 1) % 3 == 1 && (3 * i + 2) % 3 == 2);
            assert(data@ =~= quadrants().data.take(3 * (i + 1)));
        }
        i = i + 1;
    }
    let image = RgbImage { width: QUADRANTS_WIDTH, height: QUADRANTS_HEIGHT, data };
    assert(image@ =~= quadrants());
    image
}

/// Small blocks of noise that are expensive to compress, as the number of one block.
pub open spec fn block_noise(column: u32, row: u32) -> u32 {
    let sum = arith::low32(column + row) as u32;
    let mixed = (arith::low32(column * 0x9e37_79b1) as u32) ^ (arith::low32(
        row * 0x85eb_ca77,
    ) as u32) ^ ((sum << 13u32) | (sum >> 19u32));
    let first = mixed ^ (mixed >> 16u32);
    let second = arith::low32(first * 0x7feb_352d) as u32;
    let third = second ^ (second >> 15u32);
    let fourth = arith::low32(third * 0x846c_a68b) as u32;
    fourth ^ (fourth >> 16u32)
}

/// The colour that a number stands for.
pub open spec fn noise_colour(value: u32) -> Seq<u8> {
    seq![value as u8, (value >> 8u32) as u8, (value >> 16u32) as u8]
}

/// The image of noise, in blocks of three by three pixels.
pub open spec fn noise() -> Pixels {
    painted(
        NOISE_WIDTH as nat,
        NOISE_HEIGHT as nat,
        |x: int, y: int| noise_colour(block_noise((x / 3) as u32, (y / 3) as u32)),
    )
}

/// The number of one block.
pub fn noise_value(column: u32, row: u32) -> (value: u32)
    ensures
        value == block_noise(column, row),
{
    let sum: u32 = truncate32(column as u64 + row as u64);
    let mixed: u32 = truncate32(column as u64 * 0x9e37_79b1) ^ truncate32(row as u64 * 0x85eb_ca77)
        ^ ((sum << 13u32) | (sum >> 19u32));
    let first: u32 = mixed ^ (mixed >> 16u32);
    let second: u32 = truncate32(first as u64 * 0x7feb_352d);
    let third: u32 = second ^ (second >> 15u32);
    let fourth: u32 = truncate32(third as u64 * 0x846c_a68b);
    fourth ^ (fourth >> 16u32)
}

/// Makes the image of noise.
pub fn noise_image() -> (image: RgbImage)
    ensures
        image.wf(),
        image@ == noise(),
{
    let mut data: Vec<u8> = Vec::new();
    let count: u32 = NOISE_WIDTH * NOISE_HEIGHT;
    let mut i: u32 = 0;
    while i < count
        invariant
            count == 4096000,
            i <= count,
            data@ == noise().data.take(3 * i),
        decreases count - i,
    {
        let value: u32 = noise_value(i % NOISE_WIDTH / 3, i / NOISE_WIDTH / 3);
        data.push(#[verifier::truncate] (value as u8));
        data.push(#[verifier::truncate] ((value >> 8u32) as u8));
        data.push(#[verifier::truncate] ((value >> 16u32) as u8));
        proof {
            assert((3 * i + 0) / 3 == i && (3 * i + 1) / 3 == i && (3 * i + 2) / 3 == i);
            assert((3 * i + 0) % 3 == 0 && (3 * i + 1) % 3 == 1 && (3 * i + 2) % 3 == 2);
            assert(data@ =~= noise().data.take(3 * (i + 1)));
        }
        i = i + 1;
    }
    let image = RgbImage { width: NOISE_WIDTH, height: NOISE_HEIGHT, data };
    assert(image@ =~= noise());
    image
}

/// The image of one colour that is as large as the desktop of the quality scene.
pub fn changed_image() -> (image: RgbImage)
    requires
        NOISE_WIDTH * NOISE_HEIGHT * 3 <= usize::MAX,
    ensures
        image.wf(),
        image@ == plain(NOISE_WIDTH as nat, NOISE_HEIGHT as nat, magenta()),
{
    let image = RgbImage::from_pixel(NOISE_WIDTH, NOISE_HEIGHT, [224, 32, 224]);
    assert(image@ =~= plain(NOISE_WIDTH as nat, NOISE_HEIGHT as nat, magenta()));
    image
}

/// A part of the image of four quarters.
pub open spec fn part(width: u32, height: u32) -> ViewportRect {
    ViewportRect { x: 0, y: 0, width, height }
}

/// The one tile that covers the image of four quarters.
pub open spec fn cover(cols: u16, rows: u16) -> TileView {
    TileView {
        image: plain(QUADRANTS_WIDTH as nat, QUADRANTS_HEIGHT as nat, magenta()),
        index: 0,
        col: 0,
        row: 0,
        cols,
        rows,
    }
}

/// Opens the transition: the image of four quarters, and then one tile that covers it.
pub fn visual_opening(renderer: &mut Renderer, cols: u16, rows: u16) -> (opening: Result<
    (Vec<Vec<u8>>, Vec<Vec<u8>>),
    KittyError,
>)
    requires
        old(renderer).wf(),
    ensures
        final(renderer).wf(),
        match kitty::atlas_outcome(
            old(renderer)@,
            quadrants(),
            part(QUADRANTS_WIDTH, QUADRANTS_HEIGHT),
            cols,
            rows,
        ) {
            Err(error) => opening == Err::<(Vec<Vec<u8>>, Vec<Vec<u8>>), KittyError>(error)
                && final(renderer)@ == old(renderer)@,
            Ok((atlas, state)) => {
                let (error, tiles, last) = kitty::tiles_outcome(
                    state,
                    seq![cover(cols, rows)],
                    false,
                );
                final(renderer)@ == last && match error {
                    Some(error) => opening == Err::<(Vec<Vec<u8>>, Vec<Vec<u8>>), KittyError>(error),
                    None => opening matches Ok((first, second)) && text::contents(first@) == atlas
                        && text::contents(second@) == tiles,
                }
            },
        },
{
    let image = quadrant_image();
    let crop = ViewportRect { x: 0, y: 0, width: QUADRANTS_WIDTH, height: QUADRANTS_HEIGHT };
    let atlas = match renderer.encode_atlas(&image, crop, cols, rows) {
        Ok(atlas) => atlas,
        Err(error) => return Err(error),
    };
    let flat = RgbImage::from_pixel(QUADRANTS_WIDTH, QUADRANTS_HEIGHT, [224, 32, 224]);
    assert(flat@ =~= plain(QUADRANTS_WIDTH as nat, QUADRANTS_HEIGHT as nat, magenta()));
    let mut tiles: Vec<RasterTile> = Vec::new();
    tiles.push(RasterTile { image: flat, index: 0, col: 0, row: 0, cols, rows });
    assert(render::tile_views(tiles@) =~= seq![cover(cols, rows)]);
    match renderer.encode_tiles(tiles.as_slice(), false) {
        Ok(covered) => Ok((atlas, covered)),
        Err(error) => Err(error),
    }
}

/// What a key asks for in the transition.
pub enum VisualStep {
    Nothing,
    /// Write these segments.
    Write(Vec<Vec<u8>>),
    /// Write these segments and leave.
    Leave(Vec<Vec<u8>>),
}

/// Whether a key shows the first quarter alone.
pub open spec fn magnifies(key: KeyEvent) -> bool {
    key.code == KeyCode::Char('+') || key.code == KeyCode::Char('=')
}

/// Whether a key leaves.
pub open spec fn leaves(key: KeyEvent) -> bool {
    key.code == KeyCode::Char('q') || key.code == KeyCode::Esc
}

/// Does what a key asks for in the transition.
pub fn visual_key(renderer: &mut Renderer, key: KeyEvent, cols: u16, rows: u16) -> (step: Result<
    VisualStep,
    KittyError,
>)
    requires
        old(renderer).wf(),
    ensures
        final(renderer).wf(),
        magnifies(key) ==> match kitty::preview_outcome(
            old(renderer)@,
            part(QUADRANTS_WIDTH / 2, QUADRANTS_HEIGHT / 2),
            cols,
            rows,
        ) {
            Err(error) => step == Err::<VisualStep, KittyError>(error) && final(renderer)@ == old(
                renderer)@,
            Ok((segments, state)) => step matches Ok(VisualStep::Write(bytes)) && text::contents(
                bytes@,
            ) == segments && final(renderer)@ == state,
        },
        leaves(key) ==> (step matches Ok(VisualStep::Leave(bytes)) && text::contents(bytes@)
            == kitty::all_deletions(old(renderer)@)) && final(renderer)@ == (
        kitty::RendererState {
            atlas: None,
            dimensions: None,
            ..old(renderer)@.without_tiles()
        }),
        !magnifies(key) && !leaves(key) ==> step == Ok::<VisualStep, KittyError>(
            VisualStep::Nothing,
        ) && final(renderer)@ == old(renderer)@,
{
    match key.code {
        KeyCode::Char('+') | KeyCode::Char('=') => {
            let crop = ViewportRect {
                x: 0,
                y: 0,
                width: QUADRANTS_WIDTH / 2,
                height: QUADRANTS_HEIGHT / 2,
            };
            match renderer.encode_atlas_placement(crop, cols, rows) {
                Ok(segments) => Ok(VisualStep::Write(segments)),
                Err(error) => Err(error),
            }
        },
        KeyCode::Char('q') | KeyCode::Esc => Ok(VisualStep::Leave(renderer.encode_delete())),
        _ => Ok(VisualStep::Nothing),
    }
}

/// The graphics settings of the quality scene: it lowers the resolution for navigation too.
/// `tmux_bandwidth_mbps` holds the bits of a double-precision number.
pub fn quality_config(tmux_bandwidth_mbps: u64, preview_ms: u64, atlas_refresh_ms: u64) -> (graphics:
    GraphicsConfig)
    ensures
        graphics == (GraphicsConfig {
            quality: QualityMode::Fast,
            resolution: config::default_graphics().resolution,
            advanced: config::AdvancedGraphicsConfig {
                tmux_bandwidth_mbps,
                preview_ms,
                atlas_refresh_ms,
                ..config::default_advanced()
            },
        }),
{
    let mut graphics = GraphicsConfig::default();
    graphics.quality = QualityMode::Fast;
    graphics.advanced.tmux_bandwidth_mbps = tmux_bandwidth_mbps;
    graphics.advanced.preview_ms = preview_ms;
    graphics.advanced.atlas_refresh_ms = atlas_refresh_ms;
    graphics
}

/// What must be done next in the quality scene.
#[derive(Debug, Clone, Copy, PartialEq, Eq, Structural)]
pub enum SceneTask {
    Nothing,
    Quit,
    Draw,
    Chrome,
    /// Show the changed image from now on.
    Replace,
    /// Compute a view.
    View(ViewCommand),
}

/// What an effect asks for in the quality scene, which has no desktop.
pub open spec fn scene_task(effect: Effect) -> SceneTask {
    match effect {
        Effect::Quit => SceneTask::Quit,
        Effect::Redraw => SceneTask::Draw,
        Effect::Chrome => SceneTask::Chrome,
        Effect::View(command) => SceneTask::View(command),
        _ => SceneTask::Nothing,
    }
}

/// A terminal that has fallen to the least detail, as a slow line would make it.
pub open spec fn lowest(model: TerminalModel) -> TerminalModel {
    TerminalModel {
        tier: (model.limits.len() - 1) as usize,
        kitty_quality_upgrade_at: None,
        ..model
    }
}

/// What a key does in the quality scene.
pub open spec fn scene_outcome(
    state: ViewerModel,
    model: TerminalModel,
    key: KeyEvent,
    now: u128,
) -> (ViewerModel, TerminalModel, SceneTask) {
    if key.code == KeyCode::Char('d') {
        (state, terminal::visibly_damaged(model, now), SceneTask::Replace)
    } else {
        let (next, effect) = viewer::key_outcome(state, key, now);
        (
            next,
            if key.code == KeyCode::Char('0') {
                lowest(model)
            } else {
                model
            },
            scene_task(effect),
        )
    }
}

/// Does what a key asks for in the quality scene.
pub fn quality_key(
    state: &mut ViewerState,
    terminal: &mut Terminal,
    key: KeyEvent,
    now: u128,
) -> (task: SceneTask)
    requires
        old(state).wf(),
        old(terminal).wf(),
        now <= LATEST,
    ensures
        final(state).wf(),
        final(terminal).wf(),
        (final(state)@, final(terminal)@, task) == scene_outcome(
            old(state)@,
            old(terminal)@,
            key,
            now,
        ),
{
    match key.code {
        KeyCode::Char('d') => {
            terminal.note_visible_damage(now);
            return SceneTask::Replace;
        },
        KeyCode::Char('0') => {
            proof {
                terminal::lemma_tiers_usable(&*terminal);
            }
            terminal.kitty_quality.select_lowest();
            terminal.kitty_quality_upgrade_at = None;
        },
        _ => {},
    }
    match state.handle_key(key, now) {
        Effect::Quit => SceneTask::Quit,
        Effect::Redraw => SceneTask::Draw,
        Effect::Chrome => SceneTask::Chrome,
        Effect::View(command) => SceneTask::View(command),
        _ => SceneTask::Nothing,
    }
}

/// How long to wait for a key in the quality scene.
pub fn quality_timeout(terminal: &Terminal, progress: bool, now: u128) -> (timeout: Option<u128>)
    ensures
        timeout == if terminal::pending(terminal@) {
            viewer::earliest(
                terminal::wakeup(terminal@, now),
                Some(
                    if progress {
                        0
                    } else {
                        OUTPUT_RETRY_INTERVAL
                    },
                ),
            )
        } else {
            terminal::wakeup(terminal@, now)
        },
{
    let timeout = terminal.next_wakeup_timeout(now);
    if terminal.has_pending_output() {
        let retry: u128 = if progress {
            0
        } else {
            OUTPUT_RETRY_INTERVAL
        };
        earliest_timeout(timeout, Some(retry))
    } else {
        timeout
    }
}

} // verus!
