//! What holds of the graphics commands as a whole.

use crate::kitty;
use crate::kitty::{
    RendererState, Transport, ANCHOR_IMAGE_OFFSET, FIRST_ATLAS_OFFSET, MAX_TILE_INDEX,
    SECOND_ATLAS_OFFSET,
};
use crate::ordered;
use crate::pixels;
use crate::render::{TileView, ViewportRect};
use crate::selection;
use crate::text;
use vstd::prelude::*;
use vstd::utf8::*;

verus! {

/// Every image id of a process is positive and fits the 24 bits that a placeholder carries.
pub proof fn lemma_ids_fit(pid: u32, offset: u32)
    requires
        offset <= SECOND_ATLAS_OFFSET,
    ensures
        0 < selection::id_base(pid) + offset <= 0x00ff_ffff,
{
}

/// Processes of different namespaces share no image id.
pub proof fn lemma_namespaces_apart(a: u32, b: u32, i: u32, j: u32)
    requires
        a % 2047 != b % 2047,
        i <= SECOND_ATLAS_OFFSET,
        j <= SECOND_ATLAS_OFFSET,
    ensures
        selection::id_base(a) + i != selection::id_base(b) + j,
{
}

/// The images of different tile indices never coincide, nor does one coincide with an atlas.
/// Below the largest index none coincides with the anchor either.
pub proof fn lemma_tile_images_apart(base: u32, index: u32, image_id: u32, other: u32, other_id: u32)
    requires
        kitty::is_tile_image(base, index, image_id),
        kitty::is_tile_image(base, other, other_id),
    ensures
        index != other ==> image_id != other_id,
        image_id != base + FIRST_ATLAS_OFFSET,
        image_id != base + SECOND_ATLAS_OFFSET,
        index < MAX_TILE_INDEX ==> image_id != base + ANCHOR_IMAGE_OFFSET,
{
}

/// A new tile or atlas image never takes the id of the one that it replaces.
pub proof fn lemma_replacement_differs(state: RendererState, index: u32, previous: u32)
    requires
        state.wf(),
        kitty::is_tile_image(state.base, index, previous),
    ensures
        kitty::next_tile_image(state.base, index, Some(previous)) != previous,
        kitty::is_tile_image(
            state.base,
            index,
            kitty::next_tile_image(state.base, index, Some(previous)),
        ),
        state.atlas != Some(state.next_atlas()),
{
}

/// Put together again, the chunks of an upload are the file.
pub proof fn lemma_chunks_reassemble(bytes: Seq<u8>)
    ensures
        text::joined(
            Seq::new(kitty::chunk_count(bytes.len()), |i: int| kitty::chunk(bytes, i)),
        ) == bytes,
{
    let all = Seq::new(kitty::chunk_count(bytes.len()), |i: int| kitty::chunk(bytes, i));
    lemma_chunks_prefix(bytes, all.len());
    assert(all.take(all.len() as int) =~= all);
    assert(bytes.take(bytes.len() as int) =~= bytes);
}

proof fn lemma_chunks_prefix(bytes: Seq<u8>, count: nat)
    requires
        count <= kitty::chunk_count(bytes.len()),
    ensures
        text::joined(
            Seq::new(kitty::chunk_count(bytes.len()), |i: int| kitty::chunk(bytes, i)).take(
                count as int,
            ),
        ) == bytes.take(
            if count * 4096 < bytes.len() {
                (count * 4096) as int
            } else {
                bytes.len() as int
            },
        ),
    decreases count,
{
    let all = Seq::new(kitty::chunk_count(bytes.len()), |i: int| kitty::chunk(bytes, i));
    if count > 0 {
        lemma_chunks_prefix(bytes, (count - 1) as nat);
        let now = all.take(count as int);
        assert(now.drop_last() =~= all.take(count - 1));
        assert(now.last() == kitty::chunk(bytes, count - 1));
    }
    assert(text::joined(all.take(count as int)) =~= bytes.take(
        if count * 4096 < bytes.len() {
            (count * 4096) as int
        } else {
            bytes.len() as int
        },
    ));
}

/// Every chunk carries between one byte and the protocol's limit, and all but the last say that
/// more follow.
pub proof fn lemma_upload_framing(transport: Transport, image_id: u32, bytes: Seq<u8>, index: int)
    requires
        0 <= index < kitty::chunk_count(bytes.len()),
    ensures
        0 < kitty::chunk(bytes, index).len() <= kitty::PAYLOAD_CHUNK_SIZE,
        kitty::upload(transport, image_id, bytes)[index] == kitty::apc(
            transport,
            kitty::upload_control(
                image_id,
                index,
                if index + 1 < kitty::chunk_count(bytes.len()) {
                    1
                } else {
                    0
                },
            ),
            kitty::chunk(bytes, index),
        ),
{
}

/// What the terminal behind tmux receives of the inside of a passthrough command: each pair of
/// escape bytes is one.
pub open spec fn received(bytes: Seq<u8>) -> Seq<u8>
    decreases bytes.len(),
{
    if bytes.len() == 0 {
        seq![]
    } else if bytes.len() > 1 && bytes[0] == 0x1b && bytes[1] == 0x1b {
        seq![0x1bu8] + received(bytes.skip(2))
    } else {
        seq![bytes[0]] + received(bytes.skip(1))
    }
}

proof fn lemma_escaped_first(bytes: Seq<u8>)
    requires
        bytes.len() > 0,
    ensures
        kitty::escaped(bytes) == (if bytes[0] == 0x1b {
            seq![0x1bu8, 0x1bu8]
        } else {
            seq![bytes[0]]
        }) + kitty::escaped(bytes.skip(1)),
    decreases bytes.len(),
{
    reveal_with_fuel(kitty::escaped, 2);
    if bytes.len() == 1 {
        assert(bytes.drop_last() =~= seq![]);
        assert(bytes.skip(1) =~= seq![]);
        assert(kitty::escaped(bytes) =~= (if bytes[0] == 0x1b {
            seq![0x1bu8, 0x1bu8]
        } else {
            seq![bytes[0]]
        }) + kitty::escaped(bytes.skip(1)));
    } else {
        lemma_escaped_first(bytes.drop_last());
        assert(bytes.skip(1).drop_last() =~= bytes.drop_last().skip(1));
        assert(bytes.skip(1).last() == bytes.last());
        assert(kitty::escaped(bytes) =~= (if bytes[0] == 0x1b {
            seq![0x1bu8, 0x1bu8]
        } else {
            seq![bytes[0]]
        }) + kitty::escaped(bytes.skip(1)));
    }
}

/// The terminal behind tmux receives the command as it was before it was wrapped.
pub proof fn lemma_escape_reversible(bytes: Seq<u8>)
    ensures
        received(kitty::escaped(bytes)) == bytes,
    decreases bytes.len(),
{
    if bytes.len() > 0 {
        lemma_escaped_first(bytes);
        lemma_escape_reversible(bytes.skip(1));
        let rest = kitty::escaped(bytes.skip(1));
        if bytes[0] == 0x1b {
            assert(kitty::escaped(bytes).skip(2) =~= rest);
        } else {
            assert(kitty::escaped(bytes).skip(1) =~= rest);
        }
        assert(received(kitty::escaped(bytes)) =~= bytes);
    }
}

/// Whether `bytes` begin and end as one synchronized update does.
pub open spec fn is_synchronized(transport: Transport, bytes: Seq<u8>) -> bool {
    let begin = kitty::passthrough(transport, encode_utf8("\x1b[?2026h"@));
    let end = kitty::passthrough(transport, encode_utf8("\x1b[?2026l"@));
    &&& begin.len() + end.len() <= bytes.len()
    &&& bytes.take(begin.len() as int) == begin
    &&& bytes.skip(bytes.len() - end.len()) == end
}

/// Another crop of the atlas comes as one synchronized update, in which the crop is shown before
/// any tile over it is deleted. No pixels are sent, and no tile is left over.
pub proof fn lemma_preview_atomic(state: RendererState, crop: ViewportRect, cols: u16, rows: u16)
    requires
        state.wf(),
        kitty::preview_outcome(state, crop, cols, rows) is Ok,
    ensures
        kitty::preview_outcome(state, crop, cols, rows)->Ok_0.0 == seq![
            kitty::synchronized(
                state.transport,
                seq![
                    kitty::atlas_placement(
                        state.transport,
                        state.atlas->0,
                        state.relative_to(),
                        crop,
                        cols,
                        rows,
                    ),
                ] + state.tile_deletions(),
            ),
        ],
        is_synchronized(
            state.transport,
            kitty::preview_outcome(state, crop, cols, rows)->Ok_0.0[0],
        ),
        kitty::preview_outcome(state, crop, cols, rows)->Ok_0.1.tiles == Map::<u32, u32>::empty(),
{
    let shown = kitty::preview_transition(state, state.atlas->0, crop, cols, rows);
    lemma_synchronized(state.transport, shown);
}

proof fn lemma_synchronized(transport: Transport, commands: Seq<Seq<u8>>)
    ensures
        is_synchronized(transport, kitty::synchronized(transport, commands)),
{
    let begin = kitty::passthrough(transport, encode_utf8("\x1b[?2026h"@));
    let end = kitty::passthrough(transport, encode_utf8("\x1b[?2026l"@));
    let bytes = kitty::synchronized(transport, commands);
    assert(bytes.take(begin.len() as int) =~= begin);
    assert(bytes.skip(bytes.len() - end.len()) =~= end);
}

/// A new atlas is shown by the last segment, one synchronized update, after the whole of it was
/// sent; that update deletes the tiles and the atlas that it replaces.
pub proof fn lemma_atlas_atomic(
    state: RendererState,
    image: pixels::Pixels,
    crop: ViewportRect,
    cols: u16,
    rows: u16,
)
    requires
        state.wf(),
        kitty::atlas_outcome(state, image, crop, cols, rows) is Ok,
    ensures
        kitty::atlas_outcome(state, image, crop, cols, rows)->Ok_0.0.last()
            == kitty::synchronized(
            state.transport,
            kitty::atlas_transition(state, crop, cols, rows),
        ),
        is_synchronized(
            state.transport,
            kitty::atlas_outcome(state, image, crop, cols, rows)->Ok_0.0.last(),
        ),
        state.atlas matches Some(previous) ==> kitty::atlas_transition(
            state,
            crop,
            cols,
            rows,
        ).last() == kitty::deletion(state.transport, previous),
{
    lemma_synchronized(state.transport, kitty::atlas_transition(state, crop, cols, rows));
}

/// Every tile image that was ever sent, of both generations, is deleted with the tiles.
pub proof fn lemma_tiles_reclaimed(state: RendererState, image_id: u32)
    requires
        state.wf(),
        state.known.contains(image_id),
    ensures
        state.tile_deletions().contains(kitty::deletion(state.transport, image_id)),
{
    let order = ordered::ascending(state.known);
    ordered::lemma_ascending_exists(state.known);
    assert(order.to_set().contains(image_id));
    let at = choose|i: int| 0 <= i < order.len() && order[i] == image_id;
    assert(state.tile_deletions()[at] == kitty::deletion(state.transport, image_id));
}

/// A tile is shown by the same segment that sends it, and the image that it replaces stays
/// known until all tiles are deleted.
pub proof fn lemma_tile_known(run: kitty::TileRun, tile: TileView)
    requires
        run.error is None,
        kitty::with_tile(run, tile).error is None,
    ensures
        kitty::with_tile(run, tile).output.len() == run.output.len() + 1,
        kitty::with_tile(run, tile).state.tiles.contains_key(tile.index),
        kitty::with_tile(run, tile).state.known.contains(
            kitty::with_tile(run, tile).state.tiles[tile.index],
        ),
        run.state.known.subset_of(kitty::with_tile(run, tile).state.known),
{
}

/// A tile that replaces another is sent and shown before the image of the other is deleted, and
/// all of that is one segment, which nothing can come between.
pub proof fn lemma_tile_swapped(
    state: RendererState,
    image_id: u32,
    tile: TileView,
    previous: u32,
    payload: Seq<char>,
)
    ensures
        kitty::tile_segment(state, image_id, tile, Some(previous), payload) == text::joined(
            kitty::upload(state.transport, image_id, encode_utf8(payload)),
        ) + kitty::tile_placement(state.transport, image_id, state.relative_to(), tile, None)
            + kitty::deletion(state.transport, previous),
{
    let sent = kitty::upload(state.transport, image_id, encode_utf8(payload));
    let shown = kitty::tile_placement(
        state.transport,
        image_id,
        state.relative_to(),
        tile,
        Some(previous),
    );
    let deleted = kitty::deletion(state.transport, previous);
    let placed = kitty::tile_placement(
        state.transport,
        image_id,
        state.relative_to(),
        tile,
        None,
    );
    assert(sent.push(shown).drop_last() =~= sent);
    assert(text::joined(sent.push(shown)) == text::joined(sent) + shown);
    match state.transport {
        Transport::Tmux => {
            let all = sent.push(shown) + seq![deleted];
            assert(all.drop_last() =~= sent.push(shown));
            assert(all.last() == deleted);
            assert(text::joined(all) == text::joined(sent) + shown + deleted);
        },
        Transport::Direct => {
            assert(sent.push(shown) + Seq::<Seq<u8>>::empty() =~= sent.push(shown));
            assert(shown =~= placed + deleted);
        },
    }
    assert(kitty::tile_segment(state, image_id, tile, Some(previous), payload) =~= text::joined(
        sent,
    ) + placed + deleted);
}

/// After everything is deleted there is nothing more to delete.
pub proof fn lemma_delete_all(state: RendererState)
    requires
        state.wf(),
    ensures
        kitty::all_deletions(
            RendererState { atlas: None, dimensions: None, ..state.without_tiles() },
        ) == Seq::<Seq<u8>>::empty(),
{
    let after = RendererState { atlas: None, dimensions: None, ..state.without_tiles() };
    ordered::lemma_ascending(Seq::empty());
    assert(Seq::<u32>::empty().to_set() =~= Set::empty());
    assert(ordered::ascending(Set::empty()) =~= Seq::empty());
    assert(kitty::all_deletions(after) =~= Seq::empty());
}

} // verus!
