//! Which images a terminal holds, and which of them are deleted when.

use crate::kitty;
use crate::kitty::{KittyError, RendererState, TileRun, Transport};
use crate::kitty_laws;
use crate::ordered;
use crate::pixels;
use crate::protocol_laws;
use crate::render::{TileView, ViewportRect};
use crate::text;
use vstd::prelude::*;
use vstd::utf8::*;

verus! {

/// Whether a command stands among others after a place.
pub open spec fn follows(commands: Seq<Seq<u8>>, command: Seq<u8>, at: int) -> bool {
    exists|i: int| at < i < commands.len() && #[trigger] commands[i] == command
}

/// The update that shows a new atlas places it before it deletes anything. It then deletes every
/// tile image that was sent, and the atlas that was shown.
pub proof fn lemma_atlas_replaces(
    state: RendererState,
    crop: ViewportRect,
    cols: u16,
    rows: u16,
    image_id: u32,
) -> (at: int)
    requires
        state.wf(),
        state.known.contains(image_id) || state.atlas == Some(image_id),
    ensures
        ({
            let commands = kitty::atlas_transition(state, crop, cols, rows);
            &&& 0 <= at < commands.len()
            &&& commands[at] == kitty::atlas_placement(
                state.transport,
                state.next_atlas(),
                state.relative_to(),
                crop,
                cols,
                rows,
            )
            &&& follows(commands, kitty::deletion(state.transport, image_id), at)
            &&& state.next_atlas() != image_id
        }),
{
    let commands = kitty::atlas_transition(state, crop, cols, rows);
    let anchor = match state.transport {
        Transport::Tmux => kitty::anchor_placement(state.transport, state.anchor()),
        Transport::Direct => seq![],
    };
    let at = anchor.len() as int;
    let deleted = kitty::deletion(state.transport, image_id);
    if state.known.contains(image_id) {
        kitty_laws::lemma_tiles_reclaimed(state, image_id);
        let tiles = state.tile_deletions();
        let i = choose|i: int| 0 <= i < tiles.len() && tiles[i] == deleted;
        assert(commands[at + 1 + i] == deleted);
    } else {
        assert(commands[commands.len() - 1] == deleted);
    }
    at
}

/// A new atlas is known by its number and its size from then on, and no tile is.
pub proof fn lemma_atlas_known(
    state: RendererState,
    image: pixels::Pixels,
    crop: ViewportRect,
    cols: u16,
    rows: u16,
)
    requires
        state.wf(),
        kitty::atlas_outcome(state, image, crop, cols, rows) is Ok,
    ensures
        ({
            let after = kitty::atlas_outcome(state, image, crop, cols, rows)->Ok_0.1;
            &&& after.atlas is Some && after.atlas != state.atlas
            &&& after.dimensions == Some((image.width as u32, image.height as u32))
            &&& forall|index: u32| !#[trigger] after.tiles.contains_key(index)
            &&& forall|id: u32| !#[trigger] after.known.contains(id)
            &&& after.base == state.base && after.transport == state.transport
        }),
{
}

/// Before a terminal is left, every image is deleted that may still be held: all tiles, both
/// atlases, and the anchor behind tmux.
pub proof fn lemma_everything_deleted(state: RendererState, image_id: u32)
    requires
        state.wf(),
        state.known.contains(image_id) || state.atlas is Some && (image_id == state.base + 0x1ffe
            || image_id == state.base + 0x1fff || state.transport is Tmux && image_id == state.base
            + 0x1ffd),
    ensures
        kitty::all_deletions(state).contains(kitty::deletion(state.transport, image_id)),
{
    let all = kitty::all_deletions(state);
    let tiles = state.tile_deletions();
    let deleted = kitty::deletion(state.transport, image_id);
    if state.known.contains(image_id) {
        kitty_laws::lemma_tiles_reclaimed(state, image_id);
        let i = choose|i: int| 0 <= i < tiles.len() && tiles[i] == deleted;
        assert(all[i] == deleted);
    } else if image_id == state.base + 0x1ffe {
        assert(all[tiles.len() as int] == deleted);
    } else if image_id == state.base + 0x1fff {
        assert(all[tiles.len() as int + 1] == deleted);
    } else {
        assert(all[tiles.len() as int + 2] == deleted);
    }
}

/// After a reset the images of tiles that are not sent again are deleted.
pub proof fn lemma_stale_deleted(state: RendererState, tiles: Seq<TileView>, index: u32)
    requires
        kitty::tiles_outcome(state, tiles, true).0 is None,
        state.tiles.contains_key(index),
        !protocol_laws::among(tiles, index),
    ensures
        kitty::tiles_outcome(state, tiles, true).1.contains(
            kitty::deletion(state.transport, state.tiles[index]),
        ),
{
    let first = kitty::first_run(state, true);
    let run = kitty::with_tiles(first, tiles);
    lemma_stale_kept(first, tiles, index);
    let keys = ordered::ascending(run.stale.dom());
    ordered::lemma_ascending_exists(run.stale.dom());
    assert(keys.to_set().contains(index));
    let i = choose|i: int| 0 <= i < keys.len() && keys[i] == index;
    let values = ordered::values_by_key(run.stale);
    assert(values[i] == state.tiles[index]);
    let deletions = kitty::deletions(state.transport, values);
    let deleted = kitty::deletion(state.transport, state.tiles[index]);
    assert(deletions[i] == deleted);
    let all = kitty::tiles_outcome(state, tiles, true).1;
    assert(all[run.output.len() + i] == deleted);
}

proof fn lemma_stale_kept(run: TileRun, tiles: Seq<TileView>, index: u32)
    requires
        run.stale.contains_key(index),
        !protocol_laws::among(tiles, index),
    ensures
        kitty::with_tiles(run, tiles).stale.contains_key(index),
        kitty::with_tiles(run, tiles).stale[index] == run.stale[index],
    decreases tiles.len(),
{
    if tiles.len() > 0 {
        let before = tiles.drop_last();
        if protocol_laws::among(before, index) {
            let i = choose|i: int| 0 <= i < before.len() && (#[trigger] before[i]).index == index;
            assert(tiles[i].index == index);
        }
        lemma_stale_kept(run, before, index);
        assert(tiles[tiles.len() - 1].index != index);
    }
}

/// A tile that takes the place of another has another image than the one that is shown, so that
/// both are held for a moment. Both are reserved for that tile.
pub proof fn lemma_other_image(run: TileRun, tile: TileView, shown: u32)
    requires
        run.error is None,
        run.state.base + 0x1fff <= u32::MAX,
        kitty::with_tile(run, tile).error is None,
        kitty::is_tile_image(run.state.base, tile.index, shown),
        kitty::lookup(run.stale, tile.index) == Some(shown) || !run.stale.contains_key(tile.index)
            && kitty::lookup(run.state.tiles, tile.index) == Some(shown),
    ensures
        ({
            let after = kitty::with_tile(run, tile);
            let image_id = after.state.tiles[tile.index];
            &&& after.state.tiles.contains_key(tile.index)
            &&& image_id != shown
            &&& kitty::is_tile_image(run.state.base, tile.index, image_id)
            &&& !after.stale.contains_key(tile.index)
            &&& after.output.len() == run.output.len() + 1
        }),
{
}

/// A tile beyond the last that has images reserved is refused, and nothing is sent for it.
pub proof fn lemma_too_many_tiles(run: TileRun, tile: TileView)
    requires
        run.error is None,
    ensures
        tile.index > 0x0ffe <==> kitty::with_tile(run, tile).error == Some(
            KittyError::TileIndex(tile.index),
        ),
        tile.index > 0x0ffe ==> kitty::with_tile(run, tile).output == run.output
            && kitty::with_tile(run, tile).state == run.state,
{
}

/// Tiles behind tmux need the anchor, which comes with the first atlas.
pub proof fn lemma_anchor_needed(state: RendererState, tiles: Seq<TileView>, reset: bool)
    requires
        state.transport is Tmux,
        state.atlas is None,
    ensures
        kitty::tiles_outcome(state, tiles, reset).0 == Some(KittyError::AnchorMissing),
        kitty::tiles_outcome(state, tiles, reset).1.len() == 0,
        kitty::tiles_outcome(state, tiles, reset).2 == state,
{
}

/// A new atlas goes out as its file and then the update that shows it. The anchor goes out before
/// them with the first atlas behind tmux, and never again.
pub proof fn lemma_atlas_segments(
    state: RendererState,
    image: pixels::Pixels,
    crop: ViewportRect,
    cols: u16,
    rows: u16,
)
    requires
        kitty::atlas_outcome(state, image, crop, cols, rows) is Ok,
    ensures
        ({
            let segments = kitty::atlas_outcome(state, image, crop, cols, rows)->Ok_0.0;
            let first = state.transport is Tmux && state.atlas is None;
            &&& segments.len() == if first {
                3int
            } else {
                2int
            }
            &&& pixels::png_text(image) is Ok
            &&& segments[segments.len() - 2] == text::joined(
                kitty::upload(
                    state.transport,
                    state.next_atlas(),
                    encode_utf8(pixels::png_text(image)->Ok_0),
                ),
            )
            &&& segments[segments.len() - 1] == kitty::synchronized(
                state.transport,
                kitty::atlas_transition(state, crop, cols, rows),
            )
            &&& first ==> pixels::png_text(kitty::anchor_pixels()) is Ok && segments[0]
                == text::joined(
                kitty::upload(
                    state.transport,
                    (state.base + 0x1ffd) as u32,
                    encode_utf8(pixels::png_text(kitty::anchor_pixels())->Ok_0),
                ),
            )
        }),
{
}

/// A tile that cannot be made into a file is not taken to be shown, and nothing is sent for it.
pub proof fn lemma_failed_tile(run: TileRun, tile: TileView)
    requires
        run.error is None,
        tile.index <= 0x0ffe,
        pixels::png_text(tile.image) is Err,
        !run.stale.contains_key(tile.index) || !run.state.tiles.contains_key(tile.index),
    ensures
        ({
            let after = kitty::with_tile(run, tile);
            &&& after.error == Some(KittyError::Png(pixels::png_text(tile.image)->Err_0))
            &&& after.output == run.output
            &&& !after.state.tiles.contains_key(tile.index)
            &&& after.state.known == run.state.known
        }),
{
}

} // verus!
