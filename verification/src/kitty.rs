//! Commands of the Kitty graphics protocol, directly or through tmux.

use crate::ordered;
use crate::ordered::{ids_of, values_of};
use crate::pixels;
use crate::pixels::{encode_png, PngError, RgbImage};
use crate::placeholder;
use crate::placeholder::push_placeholders;
use crate::render;
use crate::render::{RasterTile, TileView, ViewportRect};
use crate::text;
use crate::text::{join_segments, push_decimal, push_segment, push_text};
use std::collections::{BTreeMap, BTreeSet};
use vstd::prelude::*;
use vstd::utf8::*;

verus! {

broadcast use vstd::std_specs::btree::group_btree_axioms;

pub const PAYLOAD_CHUNK_SIZE: usize = 4096;

pub const TILE_PLACEMENT_ID: u32 = 1;

pub const ATLAS_PLACEMENT_ID: u32 = 2;

pub const ANCHOR_PLACEMENT_ID: u32 = 3;

pub const MAX_TILE_INDEX: u32 = 0x0ffe;

pub const ANCHOR_IMAGE_OFFSET: u32 = 0x1ffd;

pub const FIRST_ATLAS_OFFSET: u32 = 0x1ffe;

pub const SECOND_ATLAS_OFFSET: u32 = 0x1fff;

/// How the bytes reach the terminal.
#[derive(Debug, Clone, Copy, PartialEq, Eq, Structural)]
pub enum Transport {
    Direct,
    Tmux,
}

/// The bytes with each escape byte doubled.
pub open spec fn escaped(bytes: Seq<u8>) -> Seq<u8>
    decreases bytes.len(),
{
    if bytes.len() == 0 {
        seq![]
    } else if bytes.last() == 0x1b {
        escaped(bytes.drop_last()) + seq![0x1bu8, 0x1bu8]
    } else {
        escaped(bytes.drop_last()).push(bytes.last())
    }
}

/// What is written so that the terminal behind `transport` receives `command`.
pub open spec fn passthrough(transport: Transport, command: Seq<u8>) -> Seq<u8> {
    match transport {
        Transport::Direct => command,
        Transport::Tmux => encode_utf8("\x1bPtmux;"@) + escaped(command) + encode_utf8(
            "\x1b\\"@,
        ),
    }
}

/// Wraps a command for the terminal behind `transport`.
pub fn encode_passthrough(transport: Transport, command: &Vec<u8>) -> (bytes: Vec<u8>)
    ensures
        bytes@ == passthrough(transport, command@),
{
    match transport {
        Transport::Direct => command.clone(),
        Transport::Tmux => {
            let mut wrapped: Vec<u8> = Vec::new();
            push_text(&mut wrapped, "\x1bPtmux;");
            let ghost head = wrapped@;
            assert(head =~= encode_utf8("\x1bPtmux;"@));
            let mut i: usize = 0;
            assert(head + escaped(command@.take(0)) =~= head);
            while i < command.len()
                invariant
                    i <= command@.len(),
                    wrapped@ == head + escaped(command@.take(i as int)),
                decreases command@.len() - i,
            {
                let byte = command[i];
                proof {
                    let next = command@.take(i + 1);
                    assert(next.drop_last() =~= command@.take(i as int));
                    assert(next.last() == byte);
                }
                if byte == 0x1b {
                    wrapped.push(0x1b);
                }
                wrapped.push(byte);
                assert(wrapped@ =~= head + escaped(command@.take(i + 1)));
                i = i + 1;
            }
            assert(command@.take(command@.len() as int) =~= command@);
            push_text(&mut wrapped, "\x1b\\");
            wrapped
        },
    }
}

/// A graphics command with its control data and payload.
pub open spec fn apc(transport: Transport, control: Seq<char>, payload: Seq<u8>) -> Seq<u8> {
    passthrough(
        transport,
        encode_utf8("\x1b_G"@) + encode_utf8(control) + encode_utf8(";"@) + payload + encode_utf8(
            "\x1b\\"@,
        ),
    )
}

/// Encodes a graphics command.
pub fn encode_apc(transport: Transport, control: &str, payload: &[u8]) -> (bytes: Vec<u8>)
    ensures
        bytes@ == apc(transport, control@, payload@),
{
    let mut command: Vec<u8> = Vec::new();
    push_text(&mut command, "\x1b_G");
    assert(command@ =~= encode_utf8("\x1b_G"@));
    push_text(&mut command, control);
    push_text(&mut command, ";");
    command.extend_from_slice(payload);
    assert(command@ =~= encode_utf8("\x1b_G"@) + encode_utf8(control@) + encode_utf8(";"@)
        + payload@);
    push_text(&mut command, "\x1b\\");
    encode_passthrough(transport, &command)
}

/// Appends a graphics command as a segment of its own.
pub fn push_apc(output: &mut Vec<Vec<u8>>, transport: Transport, control: &str, payload: &[u8])
    ensures
        text::contents(final(output)@) == text::contents(old(output)@).push(
            apc(transport, control@, payload@),
        ),
{
    push_segment(output, encode_apc(transport, control, payload));
}

/// Control data that deletes an image with all its placements.
pub open spec fn delete_control(image_id: u32) -> Seq<char> {
    "a=d,d=I,i="@ + text::decimal(image_id as nat) + ",q=2"@
}

fn delete_text(image_id: u32) -> (control: String)
    ensures
        control@ == delete_control(image_id),
{
    let mut control = "a=d,d=I,i=".to_owned();
    push_decimal(&mut control, image_id as u64);
    control.append(",q=2");
    control
}

/// The command that deletes an image.
pub open spec fn deletion(transport: Transport, image_id: u32) -> Seq<u8> {
    apc(transport, delete_control(image_id), seq![])
}

/// Appends the command that deletes an image.
pub fn push_delete_image(output: &mut Vec<Vec<u8>>, transport: Transport, image_id: u32)
    ensures
        text::contents(final(output)@) == text::contents(old(output)@).push(deletion(transport, image_id)),
{
    let control = delete_text(image_id);
    let payload: Vec<u8> = Vec::new();
    assert(payload@ =~= seq![]);
    push_apc(output, transport, control.as_str(), payload.as_slice());
}

/// The commands that delete images in the given order.
pub open spec fn deletions(transport: Transport, image_ids: Seq<u32>) -> Seq<Seq<u8>> {
    image_ids.map_values(|image_id: u32| deletion(transport, image_id))
}

fn push_deletions(output: &mut Vec<Vec<u8>>, transport: Transport, image_ids: &Vec<u32>)
    ensures
        text::contents(final(output)@) == text::contents(old(output)@) + deletions(transport, image_ids@),
{
    let mut i: usize = 0;
    assert(text::contents(output@) =~= text::contents(old(output)@) + deletions(transport, image_ids@.take(0)));
    while i < image_ids.len()
        invariant
            i <= image_ids@.len(),
            text::contents(output@) == text::contents(old(output)@) + deletions(
                transport,
                image_ids@.take(i as int),
            ),
        decreases image_ids@.len() - i,
    {
        push_delete_image(output, transport, image_ids[i]);
        assert(text::contents(output@) =~= text::contents(old(output)@) + deletions(
            transport,
            image_ids@.take(i + 1),
        ));
        i = i + 1;
    }
    assert(image_ids@.take(image_ids@.len() as int) =~= image_ids@);
}

/// Commands that the terminal shows as one update.
pub open spec fn synchronized(transport: Transport, commands: Seq<Seq<u8>>) -> Seq<u8> {
    passthrough(transport, encode_utf8("\x1b[?2026h"@)) + text::joined(commands) + passthrough(
        transport,
        encode_utf8("\x1b[?2026l"@),
    )
}

/// The bytes that begin a synchronized update.
pub fn begin_synchronized_update() -> (bytes: Vec<u8>)
    ensures
        bytes@ == encode_utf8("\x1b[?2026h"@),
{
    let mut bytes: Vec<u8> = Vec::new();
    push_text(&mut bytes, "\x1b[?2026h");
    assert(bytes@ =~= encode_utf8("\x1b[?2026h"@));
    bytes
}

/// The bytes that end a synchronized update.
pub fn end_synchronized_update() -> (bytes: Vec<u8>)
    ensures
        bytes@ == encode_utf8("\x1b[?2026l"@),
{
    let mut bytes: Vec<u8> = Vec::new();
    push_text(&mut bytes, "\x1b[?2026l");
    assert(bytes@ =~= encode_utf8("\x1b[?2026l"@));
    bytes
}

/// Appends one segment that carries all the commands as one synchronized update.
pub fn push_synchronized_transaction(
    output: &mut Vec<Vec<u8>>,
    transport: Transport,
    commands: Vec<Vec<u8>>,
)
    ensures
        text::contents(final(output)@) == text::contents(old(output)@).push(
            synchronized(transport, text::contents(commands@)),
        ),
{
    let mut transaction = encode_passthrough(transport, &begin_synchronized_update());
    let mut middle = join_segments(&commands);
    transaction.append(&mut middle);
    let mut ending = encode_passthrough(transport, &end_synchronized_update());
    transaction.append(&mut ending);
    assert(transaction@ =~= synchronized(transport, text::contents(commands@)));
    push_segment(output, transaction);
}

/// The number of payload chunks of an upload.
pub open spec fn chunk_count(len: nat) -> nat {
    (len + 4095) / 4096
}

/// The payload bytes of the chunk at `index`.
pub open spec fn chunk(bytes: Seq<u8>, index: int) -> Seq<u8> {
    bytes.subrange(
        index * 4096,
        if (index + 1) * 4096 < bytes.len() {
            (index + 1) * 4096
        } else {
            bytes.len() as int
        },
    )
}

/// Control data of the chunk at `index`: only the first names the image, only the last ends it.
pub open spec fn upload_control(image_id: u32, index: int, more: nat) -> Seq<char> {
    if index == 0 {
        "a=t,f=100,t=d,i="@ + text::decimal(image_id as nat) + ",q=2,m="@ + text::decimal(more)
    } else {
        "m="@ + text::decimal(more) + ",q=2"@
    }
}

fn upload_text(image_id: u32, first: bool, more: bool) -> (control: String)
    ensures
        control@ == upload_control(
            image_id,
            if first {
                0
            } else {
                1
            },
            if more {
                1
            } else {
                0
            },
        ),
{
    let more: u64 = if more {
        1
    } else {
        0
    };
    if first {
        let mut control = "a=t,f=100,t=d,i=".to_owned();
        push_decimal(&mut control, image_id as u64);
        control.append(",q=2,m=");
        push_decimal(&mut control, more);
        control
    } else {
        let mut control = "m=".to_owned();
        push_decimal(&mut control, more);
        control.append(",q=2");
        control
    }
}

/// The commands that send an image file in chunks.
pub open spec fn upload(transport: Transport, image_id: u32, bytes: Seq<u8>) -> Seq<Seq<u8>> {
    Seq::new(
        chunk_count(bytes.len()),
        |index: int|
            apc(
                transport,
                upload_control(
                    image_id,
                    index,
                    if (index + 1) * 4096 < bytes.len() {
                        1
                    } else {
                        0
                    },
                ),
                chunk(bytes, index),
            ),
    )
}

/// Appends the commands that send a file.
pub fn push_payload(
    output: &mut Vec<Vec<u8>>,
    transport: Transport,
    image_id: u32,
    bytes: &[u8],
)
    ensures
        text::contents(final(output)@) == text::contents(old(output)@) + upload(transport, image_id, bytes@),
{
    let len: usize = bytes.len();
    let mut start: usize = 0;
    let ghost mut index: int = 0;
    let ghost all = upload(transport, image_id, bytes@);
    assert(text::contents(output@) =~= text::contents(old(output)@) + all.take(0));
    while start < len
        invariant
            len == bytes@.len(),
            0 <= index,
            start == if index * 4096 < len {
                index * 4096
            } else {
                len as int
            },
            index <= all.len(),
            start == len ==> index == all.len(),
            all == upload(transport, image_id, bytes@),
            text::contents(output@) == text::contents(old(output)@) + all.take(index),
        decreases len - start,
    {
        let end: usize = if len - start > PAYLOAD_CHUNK_SIZE {
            start + PAYLOAD_CHUNK_SIZE
        } else {
            len
        };
        let control = upload_text(image_id, start == 0, end < len);
        push_apc(
            output,
            transport,
            control.as_str(),
            vstd::slice::slice_subrange(bytes, start, end),
        );
        proof {
            assert(index < all.len());
            assert(chunk(bytes@, index) =~= bytes@.subrange(start as int, end as int));
            assert(text::contents(output@) =~= text::contents(old(output)@) + all.take(index + 1));
            index = index + 1;
        }
        start = end;
    }
    assert(all.take(all.len() as int) =~= all);
}

/// Encodes an image as a PNG file and appends the commands that send it.
pub fn push_upload(
    output: &mut Vec<Vec<u8>>,
    transport: Transport,
    image_id: u32,
    image: &RgbImage,
) -> (result: Result<(), PngError>)
    requires
        image.wf(),
    ensures
        match pixels::png_text(image@) {
            Ok(payload) => result is Ok && text::contents(final(output)@) == text::contents(old(output)@)
                + upload(transport, image_id, encode_utf8(payload)),
            Err(error) => result == Err::<(), PngError>(error) && final(output)@ == old(output)@,
        },
{
    match encode_png(image) {
        Ok(payload) => {
            push_payload(output, transport, image_id, payload.as_str().as_bytes());
            Ok(())
        },
        Err(error) => Err(error),
    }
}

/// Appends one segment that carries a whole upload.
pub fn push_upload_transaction(
    output: &mut Vec<Vec<u8>>,
    transport: Transport,
    image_id: u32,
    image: &RgbImage,
) -> (result: Result<(), PngError>)
    requires
        image.wf(),
    ensures
        match pixels::png_text(image@) {
            Ok(payload) => result is Ok && text::contents(final(output)@) == text::contents(
                old(output)@,
            ).push(text::joined(upload(transport, image_id, encode_utf8(payload)))),
            Err(error) => result == Err::<(), PngError>(error) && final(output)@ == old(output)@,
        },
{
    let mut chunks: Vec<Vec<u8>> = Vec::new();
    match push_upload(&mut chunks, transport, image_id, image) {
        Ok(()) => {
            proof {
                let payload = pixels::png_text(image@)->Ok_0;
                assert(text::contents(chunks@) =~= upload(transport, image_id, encode_utf8(payload)));
            }
            push_segment(output, join_segments(&chunks));
            Ok(())
        },
        Err(error) => Err(error),
    }
}

/// The text that moves the cursor to a one-based cell.
pub open spec fn cursor_move(row: nat, col: nat) -> Seq<char> {
    "\x1b["@ + text::decimal(row) + ";"@ + text::decimal(col) + "H"@
}

/// Ties a placement to the anchor placement of an image, `h` columns and `v` rows away.
pub open spec fn relative_control(anchor: Option<u32>, h: u16, v: u16) -> Seq<char> {
    match anchor {
        Some(anchor) => ",P="@ + text::decimal(anchor as nat) + ",Q="@ + text::decimal(
            ANCHOR_PLACEMENT_ID as nat,
        ) + ",H="@ + text::decimal(h as nat) + ",V="@ + text::decimal(v as nat),
        None => seq![],
    }
}

fn relative_text(anchor: Option<u32>, h: u16, v: u16) -> (control: String)
    ensures
        control@ == relative_control(anchor, h, v),
{
    match anchor {
        Some(anchor) => {
            let mut control = ",P=".to_owned();
            push_decimal(&mut control, anchor as u64);
            control.append(",Q=");
            push_decimal(&mut control, ANCHOR_PLACEMENT_ID as u64);
            control.append(",H=");
            push_decimal(&mut control, h as u64);
            control.append(",V=");
            push_decimal(&mut control, v as u64);
            control
        },
        None => String::new(),
    }
}

/// Control data that shows a crop of the atlas over `cols` by `rows` cells, below the tiles.
pub open spec fn atlas_control(
    image_id: u32,
    anchor: Option<u32>,
    crop: ViewportRect,
    cols: u16,
    rows: u16,
) -> Seq<char> {
    "a=p,i="@ + text::decimal(image_id as nat) + ",p="@ + text::decimal(ATLAS_PLACEMENT_ID as nat)
        + ",x="@ + text::decimal(crop.x as nat) + ",y="@ + text::decimal(crop.y as nat) + ",w="@
        + text::decimal(crop.width as nat) + ",h="@ + text::decimal(crop.height as nat) + ",c="@
        + text::decimal(cols as nat) + ",r="@ + text::decimal(rows as nat) + ",C=1,q=2,z=-1"@
        + relative_control(anchor, 0, 0)
}

/// The command that shows a crop of the atlas.
pub open spec fn atlas_placement(
    transport: Transport,
    image_id: u32,
    anchor: Option<u32>,
    crop: ViewportRect,
    cols: u16,
    rows: u16,
) -> Seq<u8> {
    let command = apc(transport, atlas_control(image_id, anchor, crop, cols, rows), seq![]);
    match transport {
        Transport::Tmux => command,
        Transport::Direct => encode_utf8("\x1b[1;1H"@) + command,
    }
}

/// Appends the command that shows a crop of the atlas.
pub fn push_atlas_placement(
    output: &mut Vec<Vec<u8>>,
    transport: Transport,
    image_id: u32,
    anchor: Option<u32>,
    crop: ViewportRect,
    cols: u16,
    rows: u16,
)
    ensures
        text::contents(final(output)@) == text::contents(old(output)@).push(
            atlas_placement(transport, image_id, anchor, crop, cols, rows),
        ),
{
    let mut control = "a=p,i=".to_owned();
    push_decimal(&mut control, image_id as u64);
    control.append(",p=");
    push_decimal(&mut control, ATLAS_PLACEMENT_ID as u64);
    control.append(",x=");
    push_decimal(&mut control, crop.x as u64);
    control.append(",y=");
    push_decimal(&mut control, crop.y as u64);
    control.append(",w=");
    push_decimal(&mut control, crop.width as u64);
    control.append(",h=");
    push_decimal(&mut control, crop.height as u64);
    control.append(",c=");
    push_decimal(&mut control, cols as u64);
    control.append(",r=");
    push_decimal(&mut control, rows as u64);
    control.append(",C=1,q=2,z=-1");
    let relative = relative_text(anchor, 0, 0);
    control.append(relative.as_str());
    let payload: Vec<u8> = Vec::new();
    assert(payload@ =~= seq![]);
    let mut command = encode_apc(transport, control.as_str(), payload.as_slice());
    match transport {
        Transport::Tmux => push_segment(output, command),
        Transport::Direct => {
            let mut placed: Vec<u8> = Vec::new();
            push_text(&mut placed, "\x1b[1;1H");
            placed.append(&mut command);
            assert(placed@ =~= atlas_placement(transport, image_id, anchor, crop, cols, rows));
            push_segment(output, placed);
        },
    }
}

/// Control data that shows a whole tile image over its cells.
pub open spec fn tile_control(image_id: u32, anchor: Option<u32>, tile: TileView) -> Seq<char> {
    "a=p,i="@ + text::decimal(image_id as nat) + ",p="@ + text::decimal(TILE_PLACEMENT_ID as nat)
        + ",c="@ + text::decimal(tile.cols as nat) + ",r="@ + text::decimal(tile.rows as nat)
        + ",C=1,q=2,z=0"@ + relative_control(anchor, tile.col, tile.row)
}

/// The command that shows a tile. Directly it also deletes the image that the tile replaces.
pub open spec fn tile_placement(
    transport: Transport,
    image_id: u32,
    anchor: Option<u32>,
    tile: TileView,
    previous: Option<u32>,
) -> Seq<u8> {
    let command = apc(transport, tile_control(image_id, anchor, tile), seq![]);
    match transport {
        Transport::Tmux => command,
        Transport::Direct => encode_utf8(
            cursor_move((tile.row + 1) as nat, (tile.col + 1) as nat),
        ) + command + match previous {
            Some(previous) => deletion(transport, previous),
            None => seq![],
        },
    }
}

/// Appends the command that shows a tile.
pub fn push_placement(
    output: &mut Vec<Vec<u8>>,
    transport: Transport,
    image_id: u32,
    anchor: Option<u32>,
    tile: &RasterTile,
    previous: Option<u32>,
)
    ensures
        text::contents(final(output)@) == text::contents(old(output)@).push(
            tile_placement(transport, image_id, anchor, tile@, previous),
        ),
{
    let mut control = "a=p,i=".to_owned();
    push_decimal(&mut control, image_id as u64);
    control.append(",p=");
    push_decimal(&mut control, TILE_PLACEMENT_ID as u64);
    control.append(",c=");
    push_decimal(&mut control, tile.cols as u64);
    control.append(",r=");
    push_decimal(&mut control, tile.rows as u64);
    control.append(",C=1,q=2,z=0");
    let relative = relative_text(anchor, tile.col, tile.row);
    control.append(relative.as_str());
    let payload: Vec<u8> = Vec::new();
    assert(payload@ =~= seq![]);
    let mut command = encode_apc(transport, control.as_str(), payload.as_slice());
    match transport {
        Transport::Tmux => push_segment(output, command),
        Transport::Direct => {
            let mut placed: Vec<u8> = Vec::new();
            let position = cursor_text(tile.row as u64 + 1, tile.col as u64 + 1);
            push_text(&mut placed, position.as_str());
            placed.append(&mut command);
            if let Some(previous) = previous {
                let delete = delete_text(previous);
                let mut reclaim = encode_apc(transport, delete.as_str(), payload.as_slice());
                placed.append(&mut reclaim);
            }
            assert(placed@ =~= tile_placement(transport, image_id, anchor, tile@, previous));
            push_segment(output, placed);
        },
    }
}

/// The text that moves the cursor to a one-based cell.
pub fn cursor_text(row: u64, col: u64) -> (position: String)
    ensures
        position@ == cursor_move(row as nat, col as nat),
{
    let mut position = "\x1b[".to_owned();
    push_decimal(&mut position, row);
    position.append(";");
    push_decimal(&mut position, col);
    position.append("H");
    position
}

/// The command that places the anchor cell.
pub open spec fn anchor_control(image_id: u32) -> Seq<char> {
    "a=p,i="@ + text::decimal(image_id as nat) + ",p="@ + text::decimal(
        ANCHOR_PLACEMENT_ID as nat,
    ) + ",c=1,r=1,C=1,q=2,z=-2,U=1"@
}

/// The commands that put the anchor of all relative placements into the top left cell.
pub open spec fn anchor_placement(transport: Transport, image_id: u32) -> Seq<Seq<u8>> {
    seq![apc(transport, anchor_control(image_id), seq![])] + placeholder::placeholder_rows(
        image_id,
        ANCHOR_PLACEMENT_ID,
        0,
        0,
        1,
        1,
    )
}

/// Appends the commands that place the anchor.
pub fn push_anchor_placement(output: &mut Vec<Vec<u8>>, transport: Transport, image_id: u32)
    ensures
        text::contents(final(output)@) == text::contents(old(output)@) + anchor_placement(
            transport,
            image_id,
        ),
{
    let mut control = "a=p,i=".to_owned();
    push_decimal(&mut control, image_id as u64);
    control.append(",p=");
    push_decimal(&mut control, ANCHOR_PLACEMENT_ID as u64);
    control.append(",c=1,r=1,C=1,q=2,z=-2,U=1");
    let payload: Vec<u8> = Vec::new();
    assert(payload@ =~= seq![]);
    push_apc(output, transport, control.as_str(), payload.as_slice());
    push_placeholders(output, image_id, ANCHOR_PLACEMENT_ID, 0, 0, 1, 1);
    assert(text::contents(output@) =~= text::contents(old(output)@) + anchor_placement(
        transport,
        image_id,
    ));
}

/// Why graphics commands could not be encoded.
#[derive(Debug, Clone, Copy, PartialEq, Eq, Structural)]
pub enum KittyError {
    /// The crop is empty or reaches beyond the image, whose width and height follow.
    CropOutside(ViewportRect, u32, u32),
    /// The placement covers no cell.
    EmptyPlacement,
    /// No atlas has been uploaded.
    AtlasMissing,
    /// Tiles through tmux need the anchor that comes with the atlas.
    AnchorMissing,
    /// The tile index is too large for the reserved image ids.
    TileIndex(u32),
    /// The image could not be encoded.
    Png(PngError),
}

impl KittyError {
    /// The error in words.
    pub open spec fn words(self) -> Seq<char> {
        match self {
            KittyError::CropOutside(crop, width, height) =>
                "Kitty source crop ViewportRect { x: "@ + text::decimal(crop.x as nat) + ", y: "@
                    + text::decimal(crop.y as nat) + ", width: "@ + text::decimal(
                    crop.width as nat,
                ) + ", height: "@ + text::decimal(crop.height as nat) + " } is outside image ("@
                    + text::decimal(width as nat) + ", "@ + text::decimal(height as nat) + ")"@,
            KittyError::EmptyPlacement => "Kitty placement must occupy at least one cell"@,
            KittyError::AtlasMissing => "cannot place Kitty navigation atlas before it is uploaded"@,
            KittyError::AnchorMissing =>
                "cannot place Kitty tiles in tmux before the relative-placement anchor"@,
            KittyError::TileIndex(index) => "Kitty tile index "@ + text::decimal(index as nat)
                + " exceeds "@ + text::decimal(MAX_TILE_INDEX as nat),
            KittyError::Png(_) => "cannot encode Kitty frame as PNG"@,
        }
    }

    /// The error in words.
    pub fn message(&self) -> (message: String)
        ensures
            message@ == self.words(),
    {
        match self {
            KittyError::CropOutside(crop, width, height) => {
                let mut message = "Kitty source crop ViewportRect { x: ".to_owned();
                push_decimal(&mut message, crop.x as u64);
                message.append(", y: ");
                push_decimal(&mut message, crop.y as u64);
                message.append(", width: ");
                push_decimal(&mut message, crop.width as u64);
                message.append(", height: ");
                push_decimal(&mut message, crop.height as u64);
                message.append(" } is outside image (");
                push_decimal(&mut message, *width as u64);
                message.append(", ");
                push_decimal(&mut message, *height as u64);
                message.append(")");
                message
            },
            KittyError::EmptyPlacement => "Kitty placement must occupy at least one cell".to_owned(),
            KittyError::AtlasMissing =>
                "cannot place Kitty navigation atlas before it is uploaded".to_owned(),
            KittyError::AnchorMissing =>
                "cannot place Kitty tiles in tmux before the relative-placement anchor".to_owned(),
            KittyError::TileIndex(index) => {
                let mut message = "Kitty tile index ".to_owned();
                push_decimal(&mut message, *index as u64);
                message.append(" exceeds ");
                push_decimal(&mut message, MAX_TILE_INDEX as u64);
                message
            },
            KittyError::Png(_) => "cannot encode Kitty frame as PNG".to_owned(),
        }
    }
}

/// The sum, or the largest number of 32 bits where the sum is larger.
pub open spec fn saturated(a: u32, b: u32) -> int {
    if a + b > u32::MAX {
        u32::MAX as int
    } else {
        a + b
    }
}

/// What is wrong with a placement of a crop of an image, if anything.
pub open spec fn placement_fault(
    dimensions: (u32, u32),
    crop: ViewportRect,
    cols: u16,
    rows: u16,
) -> Option<KittyError> {
    if crop.width == 0 || crop.height == 0 || saturated(crop.x, crop.width) > dimensions.0
        || saturated(crop.y, crop.height) > dimensions.1 {
        Some(KittyError::CropOutside(crop, dimensions.0, dimensions.1))
    } else if cols == 0 || rows == 0 {
        Some(KittyError::EmptyPlacement)
    } else {
        None
    }
}

/// Checks a placement of a crop of an image.
pub fn validate_placement(
    dimensions: (u32, u32),
    crop: ViewportRect,
    cols: u16,
    rows: u16,
) -> (result: Result<(), KittyError>)
    ensures
        match placement_fault(dimensions, crop, cols, rows) {
            Some(fault) => result == Err::<(), KittyError>(fault),
            None => result is Ok,
        },
{
    if crop.width == 0 || crop.height == 0 || crop.x.saturating_add(crop.width) > dimensions.0
        || crop.y.saturating_add(crop.height) > dimensions.1 {
        return Err(KittyError::CropOutside(crop, dimensions.0, dimensions.1));
    }
    if cols == 0 || rows == 0 {
        return Err(KittyError::EmptyPlacement);
    }
    Ok(())
}

/// The images that the terminal holds for this process.
pub struct Renderer {
    pub transport: Transport,
    pub image_id_base: u32,
    /// The image shown at each tile index.
    pub active_tiles: BTreeMap<u32, u32>,
    /// Every tile image sent since the last time all of them were deleted.
    pub known_tile_images: BTreeSet<u32>,
    pub active_atlas: Option<u32>,
    pub atlas_dimensions: Option<(u32, u32)>,
}

/// What a renderer knows of the images that the terminal holds.
#[verifier::ext_equal]
pub struct RendererState {
    pub transport: Transport,
    pub base: u32,
    pub tiles: Map<u32, u32>,
    pub known: Set<u32>,
    pub atlas: Option<u32>,
    pub dimensions: Option<(u32, u32)>,
}

impl View for Renderer {
    type V = RendererState;

    open spec fn view(&self) -> RendererState {
        RendererState {
            transport: self.transport,
            base: self.image_id_base,
            tiles: self.active_tiles@,
            known: self.known_tile_images@,
            atlas: self.active_atlas,
            dimensions: self.atlas_dimensions,
        }
    }
}

/// Two images are reserved for each tile index, so that a new one can be shown before the old
/// one is deleted.
pub open spec fn is_tile_image(base: u32, index: u32, image_id: u32) -> bool {
    index <= MAX_TILE_INDEX && (image_id == base + index * 2 || image_id == base + index * 2 + 1)
}

impl RendererState {
    /// All ids lie in the reserved range, shown tiles are known, and an atlas has a size.
    pub open spec fn wf(self) -> bool {
        &&& self.base + SECOND_ATLAS_OFFSET <= u32::MAX
        &&& forall|index: u32| #[trigger]
            self.tiles.contains_key(index) ==> is_tile_image(self.base, index, self.tiles[index])
                && self.known.contains(self.tiles[index])
        &&& forall|image_id: u32| #[trigger]
            self.known.contains(image_id) ==> self.base <= image_id <= self.base
                + MAX_TILE_INDEX * 2 + 1
        &&& self.known.finite()
        &&& self.atlas is Some == self.dimensions is Some
        &&& self.atlas matches Some(atlas) ==> atlas == self.base + FIRST_ATLAS_OFFSET || atlas
            == self.base + SECOND_ATLAS_OFFSET
    }

    /// The image that carries the anchor cell.
    pub open spec fn anchor(self) -> u32 {
        (self.base + ANCHOR_IMAGE_OFFSET) as u32
    }

    /// The anchor of relative placements: only tmux needs one.
    pub open spec fn relative_to(self) -> Option<u32> {
        match self.transport {
            Transport::Tmux => Some(self.anchor()),
            Transport::Direct => None,
        }
    }

    /// The atlas image that is not shown now.
    pub open spec fn next_atlas(self) -> u32 {
        if self.atlas == Some((self.base + FIRST_ATLAS_OFFSET) as u32) {
            (self.base + SECOND_ATLAS_OFFSET) as u32
        } else {
            (self.base + FIRST_ATLAS_OFFSET) as u32
        }
    }

    /// The commands that delete every tile image.
    pub open spec fn tile_deletions(self) -> Seq<Seq<u8>> {
        deletions(self.transport, ordered::ascending(self.known))
    }

    /// The state after every tile image is deleted.
    pub open spec fn without_tiles(self) -> RendererState {
        RendererState { tiles: Map::empty(), known: Set::empty(), ..self }
    }
}

/// The commands that show a crop of a new atlas, and then delete what it replaces.
pub open spec fn atlas_transition(
    state: RendererState,
    crop: ViewportRect,
    cols: u16,
    rows: u16,
) -> Seq<Seq<u8>> {
    let anchor = match state.transport {
        Transport::Tmux => anchor_placement(state.transport, state.anchor()),
        Transport::Direct => seq![],
    };
    let placement = atlas_placement(
        state.transport,
        state.next_atlas(),
        state.relative_to(),
        crop,
        cols,
        rows,
    );
    let previous = match state.atlas {
        Some(previous) => seq![deletion(state.transport, previous)],
        None => seq![],
    };
    anchor.push(placement) + state.tile_deletions() + previous
}

/// The one black pixel of the anchor image.
pub open spec fn anchor_pixels() -> pixels::Pixels {
    pixels::Pixels { width: 1, height: 1, data: seq![0, 0, 0] }
}

/// What sending an atlas yields.
pub open spec fn atlas_outcome(
    state: RendererState,
    image: pixels::Pixels,
    crop: ViewportRect,
    cols: u16,
    rows: u16,
) -> Result<(Seq<Seq<u8>>, RendererState), KittyError> {
    let dimensions = (image.width as u32, image.height as u32);
    let needs_anchor = state.transport is Tmux && state.atlas is None;
    match placement_fault(dimensions, crop, cols, rows) {
        Some(fault) => Err(fault),
        None => if needs_anchor && pixels::png_text(anchor_pixels()) is Err {
            Err(KittyError::Png(pixels::png_text(anchor_pixels())->Err_0))
        } else {
            match pixels::png_text(image) {
                Err(error) => Err(KittyError::Png(error)),
                Ok(payload) => {
                    let anchor = if needs_anchor {
                        seq![
                            text::joined(
                                upload(
                                    state.transport,
                                    state.anchor(),
                                    encode_utf8(pixels::png_text(anchor_pixels())->Ok_0),
                                ),
                            ),
                        ]
                    } else {
                        seq![]
                    };
                    let sent = text::joined(
                        upload(state.transport, state.next_atlas(), encode_utf8(payload)),
                    );
                    let shown = synchronized(
                        state.transport,
                        atlas_transition(state, crop, cols, rows),
                    );
                    Ok(
                        (
                            anchor.push(sent).push(shown),
                            RendererState {
                                atlas: Some(state.next_atlas()),
                                dimensions: Some(dimensions),
                                ..state.without_tiles()
                            },
                        ),
                    )
                },
            }
        },
    }
}

/// The commands that show another crop of the atlas, and then delete the tiles over it.
pub open spec fn preview_transition(
    state: RendererState,
    image_id: u32,
    crop: ViewportRect,
    cols: u16,
    rows: u16,
) -> Seq<Seq<u8>> {
    seq![
        atlas_placement(state.transport, image_id, state.relative_to(), crop, cols, rows),
    ] + state.tile_deletions()
}

/// What showing another crop of the atlas yields.
pub open spec fn preview_outcome(
    state: RendererState,
    crop: ViewportRect,
    cols: u16,
    rows: u16,
) -> Result<(Seq<Seq<u8>>, RendererState), KittyError> {
    match (state.atlas, state.dimensions) {
        (Some(image_id), Some(dimensions)) => match placement_fault(dimensions, crop, cols, rows) {
            Some(fault) => Err(fault),
            None => Ok(
                (
                    seq![
                        synchronized(
                            state.transport,
                            preview_transition(state, image_id, crop, cols, rows),
                        ),
                    ],
                    state.without_tiles(),
                ),
            ),
        },
        _ => Err(KittyError::AtlasMissing),
    }
}

/// Tiles being replaced: what is shown, the old tiles still to be replaced or deleted, and the
/// segments so far.
#[verifier::ext_equal]
pub struct TileRun {
    pub state: RendererState,
    pub stale: Map<u32, u32>,
    pub output: Seq<Seq<u8>>,
    pub error: Option<KittyError>,
}

/// The value at a key, where there is one.
pub open spec fn lookup(map: Map<u32, u32>, key: u32) -> Option<u32> {
    if map.contains_key(key) {
        Some(map[key])
    } else {
        None
    }
}

/// The reserved image of a tile index that is not shown now.
pub open spec fn next_tile_image(base: u32, index: u32, previous: Option<u32>) -> u32 {
    if previous == Some((base + index * 2) as u32) {
        (base + index * 2 + 1) as u32
    } else {
        (base + index * 2) as u32
    }
}

/// The one segment that sends a tile, shows it and then deletes the image it replaces.
pub open spec fn tile_segment(
    state: RendererState,
    image_id: u32,
    tile: TileView,
    previous: Option<u32>,
    payload: Seq<char>,
) -> Seq<u8> {
    let sent = upload(state.transport, image_id, encode_utf8(payload));
    let shown = tile_placement(state.transport, image_id, state.relative_to(), tile, previous);
    text::joined(
        sent.push(shown) + match (state.transport, previous) {
            (Transport::Tmux, Some(previous)) => seq![deletion(state.transport, previous)],
            _ => seq![],
        },
    )
}

/// One more tile.
pub open spec fn with_tile(run: TileRun, tile: TileView) -> TileRun {
    let index = tile.index;
    if run.error is Some {
        run
    } else if index > MAX_TILE_INDEX {
        TileRun { error: Some(KittyError::TileIndex(index)), ..run }
    } else {
        let previous = match lookup(run.stale, index) {
            Some(previous) => Some(previous),
            None => lookup(run.state.tiles, index),
        };
        let rest = if run.stale.contains_key(index) {
            run.state.tiles
        } else {
            run.state.tiles.remove(index)
        };
        let stale = run.stale.remove(index);
        let image_id = next_tile_image(run.state.base, index, previous);
        match pixels::png_text(tile.image) {
            Err(error) => TileRun {
                state: RendererState { tiles: rest, ..run.state },
                stale,
                error: Some(KittyError::Png(error)),
                ..run
            },
            Ok(payload) => TileRun {
                state: RendererState {
                    tiles: rest.insert(index, image_id),
                    known: run.state.known.insert(image_id),
                    ..run.state
                },
                stale,
                output: run.output.push(
                    tile_segment(run.state, image_id, tile, previous, payload),
                ),
                error: None,
            },
        }
    }
}

/// One tile after the other.
pub open spec fn with_tiles(run: TileRun, tiles: Seq<TileView>) -> TileRun
    decreases tiles.len(),
{
    if tiles.len() == 0 {
        run
    } else {
        with_tile(with_tiles(run, tiles.drop_last()), tiles.last())
    }
}

/// The run before the first tile. A reset makes all the tiles shown now stale.
pub open spec fn first_run(state: RendererState, reset: bool) -> TileRun {
    TileRun {
        state: if reset {
            RendererState { tiles: Map::empty(), ..state }
        } else {
            state
        },
        stale: if reset {
            state.tiles
        } else {
            Map::empty()
        },
        output: seq![],
        error: None,
    }
}

/// The error, if any, the segments and the state that sending tiles yields. After a reset the
/// stale tiles that no new tile replaced are deleted last.
pub open spec fn tiles_outcome(state: RendererState, tiles: Seq<TileView>, reset: bool) -> (
    Option<KittyError>,
    Seq<Seq<u8>>,
    RendererState,
) {
    if state.transport is Tmux && state.atlas is None {
        (Some(KittyError::AnchorMissing), seq![], state)
    } else {
        let run = with_tiles(first_run(state, reset), tiles);
        (
            run.error,
            run.output + deletions(state.transport, ordered::values_by_key(run.stale)),
            run.state,
        )
    }
}

/// The commands that delete every image of the process.
pub open spec fn all_deletions(state: RendererState) -> Seq<Seq<u8>> {
    let atlas = if state.atlas is Some {
        seq![
            deletion(state.transport, (state.base + FIRST_ATLAS_OFFSET) as u32),
            deletion(state.transport, (state.base + SECOND_ATLAS_OFFSET) as u32),
        ]
    } else {
        seq![]
    };
    let anchor = if state.atlas is Some && state.transport is Tmux {
        seq![deletion(state.transport, state.anchor())]
    } else {
        seq![]
    };
    state.tile_deletions() + atlas + anchor
}

impl Renderer {
    pub open spec fn wf(&self) -> bool {
        self@.wf()
    }

    /// A renderer for a terminal that holds no image of this process yet.
    pub fn new(transport: Transport, image_id_base: u32) -> (renderer: Renderer)
        requires
            image_id_base + SECOND_ATLAS_OFFSET <= u32::MAX,
        ensures
            renderer.wf(),
            renderer@ == (RendererState {
                transport,
                base: image_id_base,
                tiles: Map::empty(),
                known: Set::empty(),
                atlas: None,
                dimensions: None,
            }),
    {
        Renderer {
            transport,
            image_id_base,
            active_tiles: BTreeMap::new(),
            known_tile_images: BTreeSet::new(),
            active_atlas: None,
            atlas_dimensions: None,
        }
    }

    /// A renderer that knows of the same images.
    pub fn duplicate(&self) -> (copy: Renderer)
        ensures
            copy@ == self@,
    {
        let copy = Renderer {
            transport: self.transport,
            image_id_base: self.image_id_base,
            active_tiles: self.active_tiles.clone(),
            known_tile_images: self.known_tile_images.clone(),
            active_atlas: self.active_atlas,
            atlas_dimensions: self.atlas_dimensions,
        };
        assert(copy@ =~= self@);
        copy
    }

    pub fn is_tmux(&self) -> (tmux: bool)
        ensures
            tmux == (self@.transport is Tmux),
    {
        match self.transport {
            Transport::Tmux => true,
            Transport::Direct => false,
        }
    }

    pub fn has_atlas(&self) -> (present: bool)
        ensures
            present == (self@.atlas is Some),
    {
        self.active_atlas.is_some()
    }

    fn anchor_image_id(&self) -> (anchor: Option<u32>)
        requires
            self.wf(),
        ensures
            anchor == self@.relative_to(),
    {
        match self.transport {
            Transport::Tmux => Some(self.image_id_base + ANCHOR_IMAGE_OFFSET),
            Transport::Direct => None,
        }
    }

    fn delete_active_tiles(&mut self, output: &mut Vec<Vec<u8>>)
        requires
            old(self).wf(),
        ensures
            final(self)@ == old(self)@.without_tiles(),
            text::contents(final(output)@) == text::contents(old(output)@)
                + old(self)@.tile_deletions(),
    {
        let known = ids_of(&self.known_tile_images);
        self.active_tiles.clear();
        self.known_tile_images.clear();
        push_deletions(output, self.transport, &known);
        assert(self@ =~= old(self)@.without_tiles());
    }

    /// Uploads a full-screen navigation atlas and displays a crop from it. The atlas remains in
    /// the image cache of the terminal, so that later previews only need a placement command.
    pub fn encode_atlas(
        &mut self,
        image: &RgbImage,
        crop: ViewportRect,
        cols: u16,
        rows: u16,
    ) -> (result: Result<Vec<Vec<u8>>, KittyError>)
        requires
            old(self).wf(),
            image.wf(),
        ensures
            final(self).wf(),
            match atlas_outcome(old(self)@, image@, crop, cols, rows) {
                Ok((output, state)) => result is Ok && text::contents(result->Ok_0@) == output
                    && final(self)@ == state,
                Err(error) => result == Err::<Vec<Vec<u8>>, KittyError>(error) && final(self)@
                    == old(self)@,
            },
    {
        let dimensions = (image.width, image.height);
        match validate_placement(dimensions, crop, cols, rows) {
            Ok(()) => {},
            Err(fault) => return Err(fault),
        }
        let first_id: u32 = self.image_id_base + FIRST_ATLAS_OFFSET;
        let showing_first = match self.active_atlas {
            Some(active) => active == first_id,
            None => false,
        };
        let image_id: u32 = if showing_first {
            self.image_id_base + SECOND_ATLAS_OFFSET
        } else {
            first_id
        };
        let tmux = self.is_tmux();
        let mut output: Vec<Vec<u8>> = Vec::new();
        if tmux && self.active_atlas.is_none() {
            let pixel = RgbImage::from_pixel(1, 1, [0, 0, 0]);
            assert(pixel@ =~= anchor_pixels());
            match push_upload_transaction(
                &mut output,
                self.transport,
                self.image_id_base + ANCHOR_IMAGE_OFFSET,
                &pixel,
            ) {
                Ok(()) => {},
                Err(error) => return Err(KittyError::Png(error)),
            }
        }
        match push_upload_transaction(&mut output, self.transport, image_id, image) {
            Ok(()) => {},
            Err(error) => return Err(KittyError::Png(error)),
        }
        let mut transition: Vec<Vec<u8>> = Vec::new();
        if tmux {
            push_anchor_placement(
                &mut transition,
                self.transport,
                self.image_id_base + ANCHOR_IMAGE_OFFSET,
            );
        }
        let anchor = self.anchor_image_id();
        push_atlas_placement(&mut transition, self.transport, image_id, anchor, crop, cols, rows);
        self.delete_active_tiles(&mut transition);
        if let Some(previous) = self.active_atlas {
            push_delete_image(&mut transition, self.transport, previous);
        }
        assert(text::contents(transition@) =~= atlas_transition(old(self)@, crop, cols, rows));
        push_synchronized_transaction(&mut output, self.transport, transition);
        self.active_atlas = Some(image_id);
        self.atlas_dimensions = Some(dimensions);
        proof {
            let expected = atlas_outcome(old(self)@, image@, crop, cols, rows)->Ok_0;
            assert(text::contents(output@) =~= expected.0);
            assert(self@ =~= expected.1);
        }
        Ok(output)
    }

    /// Shows another crop of the atlas that the terminal already caches. No pixels are sent.
    pub fn encode_atlas_placement(
        &mut self,
        crop: ViewportRect,
        cols: u16,
        rows: u16,
    ) -> (result: Result<Vec<Vec<u8>>, KittyError>)
        requires
            old(self).wf(),
        ensures
            final(self).wf(),
            match preview_outcome(old(self)@, crop, cols, rows) {
                Ok((output, state)) => result is Ok && text::contents(result->Ok_0@) == output
                    && final(self)@ == state,
                Err(error) => result == Err::<Vec<Vec<u8>>, KittyError>(error) && final(self)@
                    == old(self)@,
            },
    {
        let (image_id, dimensions) = match (self.active_atlas, self.atlas_dimensions) {
            (Some(image_id), Some(dimensions)) => (image_id, dimensions),
            _ => return Err(KittyError::AtlasMissing),
        };
        match validate_placement(dimensions, crop, cols, rows) {
            Ok(()) => {},
            Err(fault) => return Err(fault),
        }
        let anchor = self.anchor_image_id();
        let mut transition: Vec<Vec<u8>> = Vec::new();
        push_atlas_placement(&mut transition, self.transport, image_id, anchor, crop, cols, rows);
        // Kitty and tmux must not render the new crop and the removal of the refined tiles
        // separately: that would briefly show a mixture of old tiles and the new crop.
        self.delete_active_tiles(&mut transition);
        assert(text::contents(transition@) =~= preview_transition(
            old(self)@,
            image_id,
            crop,
            cols,
            rows,
        ));
        let mut output: Vec<Vec<u8>> = Vec::new();
        push_synchronized_transaction(&mut output, self.transport, transition);
        proof {
            let expected = preview_outcome(old(self)@, crop, cols, rows)->Ok_0;
            assert(text::contents(output@) =~= expected.0);
        }
        Ok(output)
    }

    /// Sends refined tiles over the atlas.
    pub fn encode_tiles(&mut self, tiles: &[RasterTile], reset: bool) -> (result: Result<
        Vec<Vec<u8>>,
        KittyError,
    >)
        requires
            old(self).wf(),
            forall|i: int| 0 <= i < tiles@.len() ==> (#[trigger] tiles@[i]).image.wf(),
        ensures
            final(self).wf(),
            final(self)@ == tiles_outcome(old(self)@, render::tile_views(tiles@), reset).2,
            match tiles_outcome(old(self)@, render::tile_views(tiles@), reset).0 {
                Some(error) => result == Err::<Vec<Vec<u8>>, KittyError>(error),
                None => result is Ok && text::contents(result->Ok_0@) == tiles_outcome(
                    old(self)@,
                    render::tile_views(tiles@),
                    reset,
                ).1,
            },
    {
        if self.is_tmux() && self.active_atlas.is_none() {
            return Err(KittyError::AnchorMissing);
        }
        let mut output: Vec<Vec<u8>> = Vec::new();
        let mut stale: BTreeMap<u32, u32> = BTreeMap::new();
        if reset {
            std::mem::swap(&mut stale, &mut self.active_tiles);
        }
        let anchor = self.anchor_image_id();
        let ghost first = first_run(old(self)@, reset);
        let ghost views = render::tile_views(tiles@);
        assert(self@ =~= first.state);
        assert(text::contents(output@) =~= first.output);
        let mut i: usize = 0;
        while i < tiles.len()
            invariant
                i <= tiles@.len(),
                views == render::tile_views(tiles@),
                forall|j: int| 0 <= j < tiles@.len() ==> (#[trigger] tiles@[j]).image.wf(),
                first == first_run(old(self)@, reset),
                self.wf(),
                anchor == self@.relative_to(),
                self@.transport == old(self)@.transport,
                !(old(self)@.transport is Tmux && old(self)@.atlas is None),
                with_tiles(first, views.take(i as int)).error is None,
                with_tiles(first, views.take(i as int)).state == self@,
                with_tiles(first, views.take(i as int)).stale == stale@,
                with_tiles(first, views.take(i as int)).output == text::contents(output@),
                forall|index: u32| #[trigger]
                    stale@.contains_key(index) ==> is_tile_image(
                        self@.base,
                        index,
                        stale@[index],
                    ),
            decreases tiles@.len() - i,
        {
            let tile = &tiles[i];
            let index: u32 = tile.index;
            let ghost run = with_tiles(first, views.take(i as int));
            proof {
                let next = views.take(i + 1);
                assert(next.drop_last() =~= views.take(i as int));
                assert(next.last() == tile@);
            }
            if index > MAX_TILE_INDEX {
                proof {
                    lemma_error_kept(first, views, i + 1);
                }
                return Err(KittyError::TileIndex(index));
            }
            let previous = match stale.remove(&index) {
                Some(previous) => Some(previous),
                None => self.active_tiles.remove(&index),
            };
            assert(stale@ =~= run.stale.remove(index));
            let first_id: u32 = self.image_id_base + index * 2;
            let showing_first = match previous {
                Some(previous) => previous == first_id,
                None => false,
            };
            let image_id: u32 = if showing_first {
                first_id + 1
            } else {
                first_id
            };
            let mut segment: Vec<Vec<u8>> = Vec::new();
            match push_upload(&mut segment, self.transport, image_id, &tile.image) {
                Ok(()) => {},
                Err(error) => {
                    proof {
                        lemma_error_kept(first, views, i + 1);
                    }
                    return Err(KittyError::Png(error));
                },
            }
            push_placement(&mut segment, self.transport, image_id, anchor, tile, previous);
            // The new image is shown before the previous one and its placement are reclaimed, so
            // that the background never shows between versions.
            match (self.transport, previous) {
                (Transport::Tmux, Some(previous)) => push_delete_image(
                    &mut segment,
                    self.transport,
                    previous,
                ),
                _ => {},
            }
            // An upload must be complete before another graphics command. One segment for each
            // tile lets later tiles be discarded without leaving an upload half sent.
            let bytes = join_segments(&segment);
            proof {
                let payload = pixels::png_text(tile.image@)->Ok_0;
                let sent = upload(run.state.transport, image_id, encode_utf8(payload));
                let shown = tile_placement(
                    run.state.transport,
                    image_id,
                    run.state.relative_to(),
                    tile@,
                    previous,
                );
                assert(text::contents(segment@) =~= sent.push(shown) + match (
                    run.state.transport,
                    previous,
                ) {
                    (Transport::Tmux, Some(previous)) => seq![
                        deletion(run.state.transport, previous),
                    ],
                    _ => seq![],
                });
            }
            push_segment(&mut output, bytes);
            self.active_tiles.insert(index, image_id);
            self.known_tile_images.insert(image_id);
            assert(self@ =~= with_tile(run, tile@).state);
            i = i + 1;
        }
        assert(views.take(views.len() as int) =~= views);
        let rest = values_of(&stale);
        push_deletions(&mut output, self.transport, &rest);
        Ok(output)
    }

    /// Deletes every image of this process from the terminal.
    pub fn encode_delete(&mut self) -> (output: Vec<Vec<u8>>)
        requires
            old(self).wf(),
        ensures
            final(self).wf(),
            text::contents(output@) == all_deletions(old(self)@),
            final(self)@ == (RendererState {
                atlas: None,
                dimensions: None,
                ..old(self)@.without_tiles()
            }),
    {
        let mut output: Vec<Vec<u8>> = Vec::new();
        self.delete_active_images(&mut output);
        assert(text::contents(output@) =~= all_deletions(old(self)@));
        output
    }

    fn delete_active_images(&mut self, output: &mut Vec<Vec<u8>>)
        requires
            old(self).wf(),
        ensures
            text::contents(final(output)@) == text::contents(old(output)@) + all_deletions(
                old(self)@,
            ),
            final(self)@ == (RendererState {
                atlas: None,
                dimensions: None,
                ..old(self)@.without_tiles()
            }),
    {
        self.delete_active_tiles(output);
        let had_atlas = self.active_atlas.is_some();
        self.active_atlas = None;
        if had_atlas {
            push_delete_image(output, self.transport, self.image_id_base + FIRST_ATLAS_OFFSET);
            push_delete_image(output, self.transport, self.image_id_base + SECOND_ATLAS_OFFSET);
        }
        if had_atlas && self.is_tmux() {
            push_delete_image(output, self.transport, self.image_id_base + ANCHOR_IMAGE_OFFSET);
        }
        self.atlas_dimensions = None;
        assert(text::contents(output@) =~= text::contents(old(output)@) + all_deletions(
            old(self)@,
        ));
    }
}

/// Once a tile has failed, the run stays as it is.
proof fn lemma_error_kept(first: TileRun, tiles: Seq<TileView>, count: int)
    requires
        0 <= count <= tiles.len(),
        with_tiles(first, tiles.take(count)).error is Some,
    ensures
        with_tiles(first, tiles) == with_tiles(first, tiles.take(count)),
    decreases tiles.len() - count,
{
    if count < tiles.len() {
        assert(tiles.take(count + 1).drop_last() =~= tiles.take(count));
        lemma_error_kept(first, tiles, count + 1);
    } else {
        assert(tiles.take(count) =~= tiles);
    }
}

} // verus!
