//! What a terminal reads in the commands that it is sent.

use crate::kitty;
use crate::kitty::{RendererState, TileRun, Transport};
use crate::ordered;
use crate::placeholder;
use crate::pump;
use crate::render::{TileView, ViewportRect};
use crate::text;
use vstd::prelude::*;

verus! {

/// Whether control data holds a field between these two parts of it.
pub open spec fn stands(
    control: Seq<char>,
    key: char,
    value: Seq<char>,
    before: Seq<char>,
    after: Seq<char>,
) -> bool {
    &&& control == before + seq![key, '='] + value + after
    &&& before.len() == 0 || before.last() == ','
    &&& after.len() == 0 || after[0] == ','
}

/// Whether control data gives a key a value. Its fields stand apart by commas.
pub open spec fn reads(control: Seq<char>, key: char, value: Seq<char>) -> bool {
    exists|before: Seq<char>, after: Seq<char>| #[trigger]
        stands(control, key, value, before, after)
}

/// Whether control data gives a key a number.
pub open spec fn reads_number(control: Seq<char>, key: char, value: int) -> bool {
    reads(control, key, text::decimal(value as nat))
}

proof fn lemma_first_field(lead: Seq<char>, key: char, value: Seq<char>)
    requires
        lead == seq![key, '='],
    ensures
        reads(lead + value, key, value),
{
    let none = Seq::<char>::empty();
    assert(lead + value =~= none + seq![key, '='] + value + none);
    assert(stands(lead + value, key, value, none, none));
}

/// Whatever is put behind control data after a comma, its fields can still be read.
proof fn lemma_fields_stay(control: Seq<char>, more: Seq<char>)
    requires
        more.len() == 0 || more[0] == ',',
    ensures
        forall|key: char, value: Seq<char>|
            reads(control, key, value) ==> #[trigger] reads(control + more, key, value),
{
    assert forall|key: char, value: Seq<char>| reads(control, key, value) implies #[trigger] reads(
        control + more,
        key,
        value,
    ) by {
        let (before, after) = choose|before: Seq<char>, after: Seq<char>| #[trigger]
            stands(control, key, value, before, after);
        assert(control + more =~= before + seq![key, '='] + value + (after + more));
        assert(stands(control + more, key, value, before, after + more));
    }
}

proof fn lemma_next_field(control: Seq<char>, lead: Seq<char>, key: char, value: Seq<char>)
    requires
        lead == seq![',', key, '='],
    ensures
        reads(control + lead + value, key, value),
        forall|other: char, held: Seq<char>|
            reads(control, other, held) ==> #[trigger] reads(control + lead + value, other, held),
{
    let none = Seq::<char>::empty();
    let before = control.push(',');
    assert(control + lead + value =~= before + seq![key, '='] + value + none);
    assert(stands(control + lead + value, key, value, before, none));
    lemma_fields_stay(control, lead + value);
    assert(control + lead + value =~= control + (lead + value));
}

/// A field whose value is a word.
proof fn lemma_word_field(control: Seq<char>, lead: Seq<char>, key: char, value: Seq<char>)
    requires
        lead == seq![',', key, '='] + value,
    ensures
        reads(control + lead, key, value),
        forall|other: char, held: Seq<char>|
            reads(control, other, held) ==> #[trigger] reads(control + lead, other, held),
{
    lemma_next_field(control, seq![',', key, '='], key, value);
    assert(control + lead =~= control + seq![',', key, '='] + value);
}

proof fn lemma_placed(id: u32) -> (control: Seq<char>)
    ensures
        control == "a=p,i="@ + text::decimal(id as nat),
        reads(control, 'a', seq!['p']),
        reads_number(control, 'i', id as int),
{
    reveal_strlit("a=p,i=");
    let first = seq!['a', '='] + seq!['p'];
    lemma_first_field(seq!['a', '='], 'a', seq!['p']);
    lemma_next_field(first, seq![',', 'i', '='], 'i', text::decimal(id as nat));
    assert("a=p,i="@ =~= first + seq![',', 'i', '=']);
    "a=p,i="@ + text::decimal(id as nat)
}

/// Whether control data ties a placement to the anchor, so many columns and rows away, behind tmux.
/// A terminal that is written to directly needs no anchor.
pub open spec fn tied(control: Seq<char>, anchor: Option<u32>, h: int, v: int) -> bool {
    anchor is Some ==> {
        &&& reads_number(control, 'P', anchor->0 as int)
        &&& reads_number(control, 'Q', 3)
        &&& reads_number(control, 'H', h)
        &&& reads_number(control, 'V', v)
    }
}

proof fn lemma_tied(control: Seq<char>, anchor: Option<u32>, h: u16, v: u16)
    ensures
        tied(control + kitty::relative_control(anchor, h, v), anchor, h as int, v as int),
        forall|key: char, value: Seq<char>|
            reads(control, key, value) ==> #[trigger] reads(
                control + kitty::relative_control(anchor, h, v),
                key,
                value,
            ),
{
    reveal_strlit(",P=");
    reveal_strlit(",Q=");
    reveal_strlit(",H=");
    reveal_strlit(",V=");
    match anchor {
        Some(id) => {
            let d1 = text::decimal(id as nat);
            let d2 = text::decimal(kitty::ANCHOR_PLACEMENT_ID as nat);
            let d3 = text::decimal(h as nat);
            let d4 = text::decimal(v as nat);
            let c1 = control + ",P="@ + d1;
            let c2 = c1 + ",Q="@ + d2;
            let c3 = c2 + ",H="@ + d3;
            let c4 = c3 + ",V="@ + d4;
            assert(",P="@ =~= seq![',', 'P', '=']);
            assert(",Q="@ =~= seq![',', 'Q', '=']);
            assert(",H="@ =~= seq![',', 'H', '=']);
            assert(",V="@ =~= seq![',', 'V', '=']);
            lemma_next_field(control, ",P="@, 'P', d1);
            lemma_next_field(c1, ",Q="@, 'Q', d2);
            lemma_next_field(c2, ",H="@, 'H', d3);
            lemma_next_field(c3, ",V="@, 'V', d4);
            assert(control + kitty::relative_control(anchor, h, v) =~= c4);
        },
        None => {
            assert(control + kitty::relative_control(anchor, h, v) =~= control);
        },
    }
}

/// A terminal that is told to place the atlas reads which image it is, which pixels of it are
/// shown, over how many cells, and that it lies under the tiles.
pub proof fn lemma_atlas_fields(
    image_id: u32,
    anchor: Option<u32>,
    crop: ViewportRect,
    cols: u16,
    rows: u16,
)
    ensures
        ({
            let control = kitty::atlas_control(image_id, anchor, crop, cols, rows);
            &&& reads(control, 'a', seq!['p'])
            &&& reads_number(control, 'i', image_id as int)
            &&& reads_number(control, 'p', 2)
            &&& reads_number(control, 'x', crop.x as int)
            &&& reads_number(control, 'y', crop.y as int)
            &&& reads_number(control, 'w', crop.width as int)
            &&& reads_number(control, 'h', crop.height as int)
            &&& reads_number(control, 'c', cols as int)
            &&& reads_number(control, 'r', rows as int)
            &&& reads(control, 'z', seq!['-', '1'])
            &&& tied(control, anchor, 0, 0)
        }),
{
    reveal_strlit(",p=");
    reveal_strlit(",x=");
    reveal_strlit(",y=");
    reveal_strlit(",w=");
    reveal_strlit(",h=");
    reveal_strlit(",c=");
    reveal_strlit(",r=");
    reveal_strlit(",C=1,q=2,z=-1");
    assert(",p="@ =~= seq![',', 'p', '=']);
    assert(",x="@ =~= seq![',', 'x', '=']);
    assert(",y="@ =~= seq![',', 'y', '=']);
    assert(",w="@ =~= seq![',', 'w', '=']);
    assert(",h="@ =~= seq![',', 'h', '=']);
    assert(",c="@ =~= seq![',', 'c', '=']);
    assert(",r="@ =~= seq![',', 'r', '=']);
    let dp = text::decimal(kitty::ATLAS_PLACEMENT_ID as nat);
    let dx = text::decimal(crop.x as nat);
    let dy = text::decimal(crop.y as nat);
    let dw = text::decimal(crop.width as nat);
    let dh = text::decimal(crop.height as nat);
    let dc = text::decimal(cols as nat);
    let dr = text::decimal(rows as nat);
    let c0 = lemma_placed(image_id);
    let c1 = c0 + ",p="@ + dp;
    let c2 = c1 + ",x="@ + dx;
    let c3 = c2 + ",y="@ + dy;
    let c4 = c3 + ",w="@ + dw;
    let c5 = c4 + ",h="@ + dh;
    let c6 = c5 + ",c="@ + dc;
    let c7 = c6 + ",r="@ + dr;
    let quiet = seq![',', 'C', '=', '1', ',', 'q', '=', '2'];
    let deep = seq![',', 'z', '='] + seq!['-', '1'];
    lemma_next_field(c0, ",p="@, 'p', dp);
    lemma_next_field(c1, ",x="@, 'x', dx);
    lemma_next_field(c2, ",y="@, 'y', dy);
    lemma_next_field(c3, ",w="@, 'w', dw);
    lemma_next_field(c4, ",h="@, 'h', dh);
    lemma_next_field(c5, ",c="@, 'c', dc);
    lemma_next_field(c6, ",r="@, 'r', dr);
    lemma_fields_stay(c7, quiet);
    lemma_word_field(c7 + quiet, deep, 'z', seq!['-', '1']);
    assert(c7 + ",C=1,q=2,z=-1"@ =~= c7 + quiet + deep);
    lemma_tied(c7 + ",C=1,q=2,z=-1"@, anchor, 0, 0);
}

/// A terminal that is told to place a tile reads which image it is, over how many cells, and that
/// it lies over the atlas. Behind tmux it reads where the tile lies from the anchor; else the cursor
/// is put there first, counted from one.
pub proof fn lemma_tile_fields(
    transport: Transport,
    image_id: u32,
    anchor: Option<u32>,
    tile: TileView,
    previous: Option<u32>,
)
    ensures
        ({
            let control = kitty::tile_control(image_id, anchor, tile);
            let command = kitty::apc(transport, control, seq![]);
            let sent = kitty::tile_placement(transport, image_id, anchor, tile, previous);
            let moved = vstd::utf8::encode_utf8(
                seq!['\x1b', '['] + text::decimal((tile.row + 1) as nat) + seq![';']
                    + text::decimal((tile.col + 1) as nat) + seq!['H'],
            );
            &&& reads(control, 'a', seq!['p'])
            &&& reads_number(control, 'i', image_id as int)
            &&& reads_number(control, 'p', 1)
            &&& reads_number(control, 'c', tile.cols as int)
            &&& reads_number(control, 'r', tile.rows as int)
            &&& reads(control, 'z', seq!['0'])
            &&& tied(control, anchor, tile.col as int, tile.row as int)
            &&& transport is Tmux ==> sent == command
            &&& transport is Direct ==> sent.take((moved + command).len() as int) == moved + command
        }),
{
    reveal_strlit(",p=");
    reveal_strlit(",c=");
    reveal_strlit(",r=");
    reveal_strlit(",C=1,q=2,z=0");
    reveal_strlit("\x1b[");
    reveal_strlit(";");
    reveal_strlit("H");
    assert(",p="@ =~= seq![',', 'p', '=']);
    assert(",c="@ =~= seq![',', 'c', '=']);
    assert(",r="@ =~= seq![',', 'r', '=']);
    let dp = text::decimal(kitty::TILE_PLACEMENT_ID as nat);
    let dc = text::decimal(tile.cols as nat);
    let dr = text::decimal(tile.rows as nat);
    let c0 = lemma_placed(image_id);
    let c1 = c0 + ",p="@ + dp;
    let c2 = c1 + ",c="@ + dc;
    let c3 = c2 + ",r="@ + dr;
    let quiet = seq![',', 'C', '=', '1', ',', 'q', '=', '2'];
    let top = seq![',', 'z', '='] + seq!['0'];
    lemma_next_field(c0, ",p="@, 'p', dp);
    lemma_next_field(c1, ",c="@, 'c', dc);
    lemma_next_field(c2, ",r="@, 'r', dr);
    lemma_fields_stay(c3, quiet);
    lemma_word_field(c3 + quiet, top, 'z', seq!['0']);
    assert(c3 + ",C=1,q=2,z=0"@ =~= c3 + quiet + top);
    lemma_tied(c3 + ",C=1,q=2,z=0"@, anchor, tile.col, tile.row);
    let row = text::decimal((tile.row + 1) as nat);
    let col = text::decimal((tile.col + 1) as nat);
    assert(kitty::cursor_move((tile.row + 1) as nat, (tile.col + 1) as nat) =~= seq!['\x1b', '[']
        + row + seq![';'] + col + seq!['H']);
    let moved = vstd::utf8::encode_utf8(
        kitty::cursor_move((tile.row + 1) as nat, (tile.col + 1) as nat),
    );
    let command = kitty::apc(transport, kitty::tile_control(image_id, anchor, tile), seq![]);
    let sent = kitty::tile_placement(transport, image_id, anchor, tile, previous);
    if transport is Direct {
        assert(sent.take((moved + command).len() as int) =~= moved + command);
    }
}

/// A terminal behind tmux that is told to place the anchor reads which image it is, that it takes one
/// cell below everything else, and that placeholder cells say where.
#[verifier::spinoff_prover]
#[verifier::rlimit(50)]
pub proof fn lemma_anchor_fields(image_id: u32)
    ensures
        ({
            let control = kitty::anchor_control(image_id);
            &&& reads(control, 'a', seq!['p'])
            &&& reads_number(control, 'i', image_id as int)
            &&& reads_number(control, 'p', 3)
            &&& reads(control, 'c', seq!['1'])
            &&& reads(control, 'r', seq!['1'])
            &&& reads(control, 'z', seq!['-', '2'])
            &&& reads(control, 'U', seq!['1'])
        }),
{
    reveal_strlit(",p=");
    assert(",p="@ =~= seq![',', 'p', '=']);
    let dp = text::decimal(kitty::ANCHOR_PLACEMENT_ID as nat);
    let c0 = lemma_placed(image_id);
    let c1 = c0 + ",p="@ + dp;
    let wide = seq![',', 'c', '='] + seq!['1'];
    let high = seq![',', 'r', '='] + seq!['1'];
    let quiet = seq![',', 'C', '=', '1', ',', 'q', '=', '2'];
    let deep = seq![',', 'z', '='] + seq!['-', '2'];
    let held = seq![',', 'U', '='] + seq!['1'];
    let c2 = c1 + wide;
    let c3 = c2 + high;
    let c4 = c3 + quiet;
    let c5 = c4 + deep;
    lemma_next_field(c0, ",p="@, 'p', dp);
    lemma_word_field(c1, wide, 'c', seq!['1']);
    lemma_word_field(c2, high, 'r', seq!['1']);
    lemma_fields_stay(c3, quiet);
    lemma_word_field(c4, deep, 'z', seq!['-', '2']);
    lemma_word_field(c5, held, 'U', seq!['1']);
    lemma_anchor_words();
    let words = wide + high + quiet + deep + held;
    assert(c1 + words =~= c5 + held);
}

proof fn lemma_anchor_words()
    ensures
        ",c=1,r=1,C=1,q=2,z=-2,U=1"@ == (seq![',', 'c', '='] + seq!['1']) + (seq![',', 'r', '=']
            + seq!['1']) + seq![',', 'C', '=', '1', ',', 'q', '=', '2'] + (seq![',', 'z', '=']
            + seq!['-', '2']) + (seq![',', 'U', '='] + seq!['1']),
{
    reveal_strlit(",c=1,r=1,C=1,q=2,z=-2,U=1");
    assert(",c=1,r=1,C=1,q=2,z=-2,U=1"@ =~= (seq![',', 'c', '='] + seq!['1']) + (seq![
        ',',
        'r',
        '=',
    ] + seq!['1']) + seq![',', 'C', '=', '1', ',', 'q', '=', '2'] + (seq![',', 'z', '=']
        + seq!['-', '2']) + (seq![',', 'U', '='] + seq!['1']));
}

/// The anchor is placed by its command and one placeholder cell in the top left corner, whose colour
/// is the number of the image. It is an image of one pixel.
pub proof fn lemma_anchor_placed(transport: Transport, image_id: u32)
    ensures
        ({
            let sent = kitty::anchor_placement(transport, image_id);
            let start = kitty::cursor_move(1, 1) + seq![
                '\x1b', '[', '3', '8', ';', '2', ';',
            ] + placeholder::colour(image_id);
            let row = placeholder::placeholder_row(image_id, 3, 0, 0, 1, 0);
            &&& sent == seq![
                kitty::apc(transport, kitty::anchor_control(image_id), seq![]),
                vstd::utf8::encode_utf8(row),
            ]
            &&& row.take(start.len() as int) == start
        }),
        kitty::anchor_pixels().width == 1,
        kitty::anchor_pixels().height == 1,
{
    let rows = placeholder::placeholder_rows(image_id, 3, 0, 0, 1, 1);
    assert(rows.len() == 1);
    assert(kitty::anchor_placement(transport, image_id) =~= seq![
        kitty::apc(transport, kitty::anchor_control(image_id), seq![]),
        rows[0],
    ]);
    lemma_placeholder_start(image_id, 3, 0, 0, 1, 0);
}

/// A row of placeholder cells begins where the placement lies, and carries the number of the image
/// in its colour.
pub proof fn lemma_placeholder_start(
    image_id: u32,
    placement_id: u32,
    col: u16,
    row: u16,
    cols: u16,
    index: int,
)
    requires
        0 <= index,
    ensures
        ({
            let start = kitty::cursor_move((row + index + 1) as nat, (col + 1) as nat) + seq![
                '\x1b', '[', '3', '8', ';', '2', ';',
            ] + placeholder::colour(image_id);
            let line = placeholder::placeholder_row(
                image_id,
                placement_id,
                col,
                row,
                cols,
                index,
            );
            &&& line.take(start.len() as int) == start
            &&& crate::palette_laws::occurs(placeholder::cells(index, cols as nat), line)
            &&& crate::palette_laws::occurs(placeholder::colour(placement_id), line)
        }),
{
    reveal_strlit("H");
    reveal_strlit("H\x1b[38;2;");
    let line = placeholder::placeholder_row(image_id, placement_id, col, row, cols, index);
    let lead = seq!['\x1b', '[', '3', '8', ';', '2', ';'];
    let colour = placeholder::colour(image_id);
    let second = placeholder::colour(placement_id);
    let cells = placeholder::cells(index, cols as nat);
    let moved = kitty::cursor_move((row + index + 1) as nat, (col + 1) as nat);
    let start = moved + lead + colour;
    let middle = ";58;2;"@;
    let end = "\x1b[0m"@;
    assert("H\x1b[38;2;"@ =~= "H"@ + lead);
    assert("\x1b["@ + text::decimal((row + index + 1) as nat) + ";"@ + text::decimal(
        (col + 1) as nat,
    ) + "H\x1b[38;2;"@ =~= moved + lead);
    assert(line =~= start + middle + second + "m"@ + cells + end);
    assert(line.take(start.len() as int) =~= start);
    let before = start + middle + second + "m"@;
    assert(line.skip(before.len() as int).take(cells.len() as int) =~= cells);
    let first = start + middle;
    assert(line.skip(first.len() as int).take(second.len() as int) =~= second);
}

/// A terminal that is told to delete an image reads which one it is, and that its data goes too.
pub proof fn lemma_delete_fields(image_id: u32)
    ensures
        reads(kitty::delete_control(image_id), 'a', seq!['d']),
        reads(kitty::delete_control(image_id), 'd', seq!['I']),
        reads_number(kitty::delete_control(image_id), 'i', image_id as int),
{
    reveal_strlit("a=d,d=I,i=");
    reveal_strlit(",q=2");
    let id = text::decimal(image_id as nat);
    let c0 = seq!['a', '='] + seq!['d'];
    let c1 = c0 + seq![',', 'd', '='] + seq!['I'];
    let c2 = c1 + seq![',', 'i', '='] + id;
    lemma_first_field(seq!['a', '='], 'a', seq!['d']);
    lemma_next_field(c0, seq![',', 'd', '='], 'd', seq!['I']);
    lemma_next_field(c1, seq![',', 'i', '='], 'i', id);
    lemma_fields_stay(c2, ",q=2"@);
    assert(kitty::delete_control(image_id) =~= c2 + ",q=2"@);
}

/// A terminal that is sent an image reads in the first chunk which image it is and that it is a
/// PNG file, and in each chunk whether another follows.
pub proof fn lemma_upload_fields(image_id: u32, index: int, more: nat)
    requires
        0 <= index,
    ensures
        ({
            let control = kitty::upload_control(image_id, index, more);
            &&& reads_number(control, 'm', more as int)
            &&& index == 0 ==> {
                &&& reads(control, 'a', seq!['t'])
                &&& reads(control, 'f', seq!['1', '0', '0'])
                &&& reads(control, 't', seq!['d'])
                &&& reads_number(control, 'i', image_id as int)
            }
        }),
{
    let number = text::decimal(more);
    if index == 0 {
        reveal_strlit("a=t,f=100,t=d,i=");
        reveal_strlit(",q=2,m=");
        let id = text::decimal(image_id as nat);
        let c0 = seq!['a', '='] + seq!['t'];
        let c1 = c0 + seq![',', 'f', '='] + seq!['1', '0', '0'];
        let c2 = c1 + seq![',', 't', '='] + seq!['d'];
        let c3 = c2 + seq![',', 'i', '='] + id;
        let quiet = seq![',', 'q', '=', '2'];
        let c4 = c3 + quiet + seq![',', 'm', '='] + number;
        lemma_first_field(seq!['a', '='], 'a', seq!['t']);
        lemma_next_field(c0, seq![',', 'f', '='], 'f', seq!['1', '0', '0']);
        lemma_next_field(c1, seq![',', 't', '='], 't', seq!['d']);
        lemma_next_field(c2, seq![',', 'i', '='], 'i', id);
        lemma_fields_stay(c3, quiet);
        lemma_next_field(c3 + quiet, seq![',', 'm', '='], 'm', number);
        assert(kitty::upload_control(image_id, index, more) =~= c4);
    } else {
        reveal_strlit("m=");
        reveal_strlit(",q=2");
        assert("m="@ =~= seq!['m', '=']);
        lemma_first_field("m="@, 'm', number);
        lemma_fields_stay("m="@ + number, ",q=2"@);
    }
}

/// The pixels that are placed lie inside the image, and there are some, and the cells are some too;
/// else the placement is refused.
pub proof fn lemma_placements_sound(
    dimensions: (u32, u32),
    crop: ViewportRect,
    cols: u16,
    rows: u16,
)
    requires
        dimensions.0 < u32::MAX,
        dimensions.1 < u32::MAX,
    ensures
        kitty::placement_fault(dimensions, crop, cols, rows) is None <==> 0 < crop.width && 0
            < crop.height && crop.x + crop.width <= dimensions.0 && crop.y + crop.height
            <= dimensions.1 && 0 < cols && 0 < rows,
{
}

/// Whether a tile with an index is among tiles.
pub open spec fn among(tiles: Seq<TileView>, index: u32) -> bool {
    exists|i: int| 0 <= i < tiles.len() && (#[trigger] tiles[i]).index == index
}

proof fn lemma_run_tiles(run: TileRun, tiles: Seq<TileView>, index: u32)
    requires
        run.error is None,
        kitty::with_tiles(run, tiles).error is None,
    ensures
        ({
            let after = kitty::with_tiles(run, tiles);
            &&& after.state.tiles.contains_key(index) <==> run.state.tiles.contains_key(index)
                || among(tiles, index)
            &&& after.stale.contains_key(index) <==> run.stale.contains_key(index) && !among(
                tiles,
                index,
            )
            &&& after.stale.contains_key(index) ==> after.stale[index] == run.stale[index]
            &&& !among(tiles, index) && run.state.tiles.contains_key(index)
                ==> after.state.tiles[index] == run.state.tiles[index]
            &&& after.output.len() == run.output.len() + tiles.len()
            &&& after.state.atlas == run.state.atlas
            &&& after.state.transport == run.state.transport
        }),
    decreases tiles.len(),
{
    if tiles.len() > 0 {
        let before = tiles.drop_last();
        lemma_run_tiles(run, before, index);
        if among(before, index) {
            let i = choose|i: int| 0 <= i < before.len() && (#[trigger] before[i]).index == index;
            assert(tiles[i].index == index);
        }
        if tiles.last().index == index {
            assert(tiles[tiles.len() - 1].index == index);
        }
        if among(tiles, index) && tiles.last().index != index {
            let i = choose|i: int| 0 <= i < tiles.len() && (#[trigger] tiles[i]).index == index;
            assert(before[i].index == index);
        }
    }
}

/// After tiles are sent, just those are shown that were sent, and those that were shown before
/// where nothing was reset. The atlas under them stays. There is one segment for each tile, and
/// after a reset one for each tile that is no longer shown, which deletes it.
pub proof fn lemma_tiles_shown(state: RendererState, tiles: Seq<TileView>, reset: bool, index: u32)
    requires
        kitty::tiles_outcome(state, tiles, reset).0 is None,
    ensures
        ({
            let (_, segments, after) = kitty::tiles_outcome(state, tiles, reset);
            &&& after.tiles.contains_key(index) <==> among(tiles, index) || !reset
                && state.tiles.contains_key(index)
            &&& !reset && state.tiles.contains_key(index) && !among(tiles, index)
                ==> after.tiles[index] == state.tiles[index]
            &&& after.atlas == state.atlas
            &&& segments.len() >= tiles.len()
            &&& !reset ==> segments.len() == tiles.len()
        }),
{
    let first = kitty::first_run(state, reset);
    lemma_run_tiles(first, tiles, index);
    if !reset {
        let run = kitty::with_tiles(first, tiles);
        assert forall|other: u32| !run.stale.contains_key(other) by {
            lemma_run_tiles(first, tiles, other);
        }
        assert(run.stale =~= Map::empty());
        ordered::lemma_no_values();
    }
}

/// Segments without a byte are left out, and no byte is lost by it.
pub proof fn lemma_empty_left_out(segments: Seq<Seq<u8>>)
    ensures
        text::joined(pump::not_empty(segments)) == text::joined(segments),
        forall|i: int|
            0 <= i < pump::not_empty(segments).len() ==> (#[trigger] pump::not_empty(
                segments,
            )[i]).len() > 0,
    decreases segments.len(),
{
    if segments.len() > 0 {
        let before = segments.drop_last();
        lemma_empty_left_out(before);
        let kept = pump::not_empty(before);
        if segments.last().len() > 0 {
            assert(kept.push(segments.last()).drop_last() =~= kept);
        } else {
            assert(text::joined(segments) =~= text::joined(before));
        }
    }
}

} // verus!
