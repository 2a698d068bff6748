//! What a terminal shows after lines, placeholders and cells are written, and after cells are
//! cleared.

use crate::cell_laws;
use crate::cell_laws::{Canvas, Stroke};
use crate::cells;
use crate::cells::{Cell, TerminalColors};
use crate::kitty;
use crate::layout;
use crate::layout::DrawLayout;
use crate::pixels::Pixels;
use crate::placeholder;
use crate::placeholder::{DIACRITIC_COUNT, DIACRITIC_RANGES, PLACEHOLDER};
use crate::report;
use crate::text;
use vstd::prelude::*;
use vstd::utf8::*;

verus! {

/// The cursor is moved by its row and then its column, as numerals between the marks of the
/// command.
pub proof fn lemma_cursor_moves(row: nat, col: nat)
    ensures
        kitty::cursor_move(row, col) == seq!['\x1b', '['] + text::decimal(row) + seq![';']
            + text::decimal(col) + seq!['H'],
{
    reveal_strlit("\x1b[");
    reveal_strlit(";");
    reveal_strlit("H");
    assert(kitty::cursor_move(row, col) =~= seq!['\x1b', '['] + text::decimal(row) + seq![';']
        + text::decimal(col) + seq!['H']);
}

/// A terminal is told to clear a row from a column on, or all of a row. Both count from nought.
pub ghost enum Wipe {
    End(int, int),
    Row(int),
}

/// How clearing is written.
pub open spec fn wipe_bytes(wipe: Wipe) -> Seq<u8> {
    match wipe {
        Wipe::End(row, col) => encode_utf8(kitty::cursor_move((row + 1) as nat, (col + 1) as nat))
            + encode_utf8("\x1b[K"@),
        Wipe::Row(row) => encode_utf8(kitty::cursor_move((row + 1) as nat, 1)) + encode_utf8(
            "\x1b[2K"@,
        ),
    }
}

/// How clearing one after the other is written.
pub open spec fn wipes_bytes(wipes: Seq<Wipe>) -> Seq<u8>
    decreases wipes.len(),
{
    if wipes.len() == 0 {
        seq![]
    } else {
        wipes_bytes(wipes.drop_last()) + wipe_bytes(wipes.last())
    }
}

/// Whether clearing clears a cell.
pub open spec fn wipes(wipe: Wipe, row: int, col: int) -> bool {
    match wipe {
        Wipe::End(at, from) => row == at && col >= from,
        Wipe::Row(at) => row == at,
    }
}

/// Whether any of them clears a cell.
pub open spec fn wiped(all: Seq<Wipe>, row: int, col: int) -> bool {
    exists|i: int| 0 <= i < all.len() && wipes(#[trigger] all[i], row, col)
}

proof fn lemma_wipes_push(all: Seq<Wipe>, wipe: Wipe)
    ensures
        wipes_bytes(all.push(wipe)) == wipes_bytes(all) + wipe_bytes(wipe),
        forall|row: int, col: int| #[trigger]
            wiped(all.push(wipe), row, col) <==> wiped(all, row, col) || wipes(wipe, row, col),
{
    let more = all.push(wipe);
    assert(more.drop_last() =~= all);
    assert forall|row: int, col: int| #[trigger]
        wiped(more, row, col) <==> wiped(all, row, col) || wipes(wipe, row, col) by {
        if wiped(all, row, col) {
            let i = choose|i: int| 0 <= i < all.len() && wipes(#[trigger] all[i], row, col);
            assert(wipes(more[i], row, col));
        }
        if wipes(wipe, row, col) {
            assert(wipes(more[all.len() as int], row, col));
        }
        if wiped(more, row, col) {
            let i = choose|i: int| 0 <= i < more.len() && wipes(#[trigger] more[i], row, col);
            if i < all.len() {
                assert(wipes(all[i], row, col));
            }
        }
    }
}

proof fn lemma_ends_wiped(col: nat, count: int) -> (all: Seq<Wipe>)
    requires
        0 <= count,
    ensures
        wipes_bytes(all) == layout::cleared_ends(col, count),
        forall|row: int, c: int| #[trigger]
            wiped(all, row, c) <==> 0 <= row < count && c >= col,
    decreases count,
{
    if count == 0 {
        let none = Seq::<Wipe>::empty();
        assert(wipes_bytes(none) =~= layout::cleared_ends(col, 0));
        none
    } else {
        let before = lemma_ends_wiped(col, count - 1);
        let wipe = Wipe::End(count - 1, col as int);
        lemma_wipes_push(before, wipe);
        assert(wipes_bytes(before.push(wipe)) =~= layout::cleared_ends(col, count));
        before.push(wipe)
    }
}

proof fn lemma_rows_wiped(start: Seq<Wipe>, first: int, end: int) -> (all: Seq<Wipe>)
    requires
        0 <= first,
    ensures
        wipes_bytes(all) == wipes_bytes(start) + layout::cleared_rows(first, end),
        forall|row: int, c: int| #[trigger]
            wiped(all, row, c) <==> wiped(start, row, c) || first <= row < end,
    decreases end - first,
{
    if end <= first {
        assert(wipes_bytes(start) + layout::cleared_rows(first, end) =~= wipes_bytes(start));
        start
    } else {
        let before = lemma_rows_wiped(start, first, end - 1);
        let wipe = Wipe::Row(end - 1);
        lemma_wipes_push(before, wipe);
        assert(wipes_bytes(before.push(wipe)) =~= wipes_bytes(start) + layout::cleared_rows(
            first,
            end,
        ));
        before.push(wipe)
    }
}

/// Where an image leaves cells that the one before took, just those rows and ends of rows are
/// cleared. No cell of the present image is cleared, nor any of the two lines at the bottom.
pub proof fn lemma_stale_cells_cleared(previous: DrawLayout, current: DrawLayout, rows: u16) -> (all:
    Seq<Wipe>)
    requires
        rows >= 2,
    ensures
        wipes_bytes(all) == layout::stale_cells(previous, current, rows),
        forall|row: int, col: int| #[trigger]
            wiped(all, row, col) <==> {
                &&& 0 <= row < previous.rows
                &&& row < rows - 2
                &&& row >= current.rows || previous.cols > current.cols && col >= current.cols
            },
        forall|row: int, col: int|
            0 <= row < rows - 2 && row < previous.rows && 0 <= col < previous.cols && !(row
                < current.rows && col < current.cols) ==> #[trigger] wiped(all, row, col),
        forall|row: int, col: int|
            0 <= row < current.rows && 0 <= col < current.cols ==> !#[trigger] wiped(
                all,
                row,
                col,
            ),
{
    let mode_y = rows - 2;
    let top = if previous.rows < mode_y {
        previous.rows as int
    } else {
        mode_y
    };
    let both = if top < current.rows {
        top
    } else {
        current.rows as int
    };
    let none = Seq::<Wipe>::empty();
    let first = if previous.cols > current.cols {
        lemma_ends_wiped(current.cols as nat, both)
    } else {
        none
    };
    let all = lemma_rows_wiped(first, current.rows as int, top);
    assert(wipes_bytes(none) =~= Seq::<u8>::empty());
    assert(wipes_bytes(all) =~= layout::stale_cells(previous, current, rows));
    assert forall|row: int, col: int| previous.cols <= current.cols implies !#[trigger] wiped(
        none,
        row,
        col,
    ) by {}
    all
}

/// A line is as wide as the terminal: the text from its beginning on, and spaces behind it.
pub proof fn lemma_line_fitted(words: Seq<char>, width: nat, i: int)
    requires
        0 <= i < width,
    ensures
        layout::fitted(words, width).len() == width,
        layout::fitted(words, width)[i] == if i < words.len() {
            words[i]
        } else {
            ' '
        },
{
}

/// The three bytes of an image number are written as a colour, the most significant first.
pub proof fn lemma_number_in_colour(value: u32) -> (bytes: (nat, nat, nat))
    requires
        value <= 0x00ff_ffff,
    ensures
        bytes.0 < 256 && bytes.1 < 256 && bytes.2 < 256,
        value == bytes.0 * 65536 + bytes.1 * 256 + bytes.2,
        placeholder::colour(value) == text::decimal(bytes.0) + seq![';'] + text::decimal(bytes.1)
            + seq![';'] + text::decimal(bytes.2),
{
    reveal_strlit(";");
    let bytes = (
        (value / 65536 % 256) as nat,
        (value / 256 % 256) as nat,
        (value % 256) as nat,
    );
    assert(";"@ =~= seq![';']);
    bytes
}

#[verifier::spinoff_prover]
#[verifier::rlimit(50)]
proof fn lemma_ranges_ascend()
    ensures
        forall|i: int|
            0 <= i < DIACRITIC_RANGES@.len() ==> (#[trigger] DIACRITIC_RANGES@[i]).0
                <= DIACRITIC_RANGES@[i].1 && DIACRITIC_RANGES@[i].1 <= 0x10ffff,
        forall|i: int|
            0 < i < DIACRITIC_RANGES@.len() ==> DIACRITIC_RANGES@[i - 1].1 < (
            #[trigger] DIACRITIC_RANGES@[i]).0,
{
}

#[verifier::spinoff_prover]
#[verifier::rlimit(50)]
proof fn lemma_marks_ascend(range: int, i: int, j: int)
    requires
        0 <= range,
        0 <= i < j < placeholder::mark_count(range),
    ensures
        placeholder::nth_mark(range, i) is Some,
        placeholder::nth_mark(range, j) is Some,
        placeholder::nth_mark(range, i)->0 < placeholder::nth_mark(range, j)->0,
        range < DIACRITIC_RANGES@.len(),
        placeholder::nth_mark(range, i)->0 >= DIACRITIC_RANGES@[range].0,
    decreases DIACRITIC_RANGES@.len() - range,
{
    lemma_ranges_ascend();
    if range < DIACRITIC_RANGES@.len() {
        let (start, end) = DIACRITIC_RANGES@[range];
        let size = end - start + 1;
        if i >= size {
            lemma_marks_ascend(range + 1, i - size, j - size);
        } else if j >= size {
            lemma_mark_from(range + 1, j - size);
        }
    }
}

#[verifier::spinoff_prover]
#[verifier::rlimit(50)]
proof fn lemma_mark_from(range: int, i: int)
    requires
        0 <= range,
        0 <= i < placeholder::mark_count(range),
    ensures
        range < DIACRITIC_RANGES@.len(),
        placeholder::nth_mark(range, i) is Some,
        placeholder::nth_mark(range, i)->0 >= DIACRITIC_RANGES@[range].0,
    decreases DIACRITIC_RANGES@.len() - range,
{
    lemma_ranges_ascend();
    if range < DIACRITIC_RANGES@.len() {
        let (start, end) = DIACRITIC_RANGES@[range];
        if i >= end - start + 1 {
            lemma_mark_from(range + 1, i - (end - start + 1));
        }
    }
}

/// Each number of a row or column has a mark of its own, and the marks ascend with the numbers.
pub proof fn lemma_marks_apart(i: int, j: int)
    requires
        0 <= i < j < DIACRITIC_COUNT,
    ensures
        placeholder::nth_mark(0, i) is Some,
        placeholder::nth_mark(0, j) is Some,
        placeholder::nth_mark(0, i)->0 < placeholder::nth_mark(0, j)->0,
{
    placeholder::lemma_table_complete();
    lemma_marks_ascend(0, i, j);
}

/// Each placeholder cell of a row carries the mark of its row and that of its column.
pub proof fn lemma_placeholder_cells(row: int, cols: nat, col: int)
    requires
        0 <= col < cols,
    ensures
        placeholder::cells(row, cols).len() == 3 * cols,
        placeholder::cells(row, cols)[3 * col] == PLACEHOLDER,
        placeholder::cells(row, cols)[3 * col + 1] == placeholder::mark(row)->0,
        placeholder::cells(row, cols)[3 * col + 2] == placeholder::mark(col)->0,
    decreases cols,
{
    let before = placeholder::cells(row, (cols - 1) as nat);
    if cols > 1 {
        lemma_placeholder_cells(
            row,
            (cols - 1) as nat,
            if col < cols - 1 {
                col
            } else {
                0
            },
        );
    } else {
        assert(before.len() == 0);
    }
}

/// The colour of half a cell: the upper half is its foreground, the lower its background.
pub open spec fn half(cells: Seq<Cell>, width: int, x: int, y: int) -> Seq<u8> {
    let cell = cells[y / 2 * width + x];
    if y % 2 == 0 {
        cell.foreground@
    } else {
        cell.background@
    }
}

/// Cells that show an image show each of its pixels in half a cell, and black in the lower half of
/// the last row where the image has no pixel there.
pub proof fn lemma_halves_show(cells: Seq<Cell>, image: Pixels, x: int, y: int)
    requires
        cells::show_all(cells, image),
        0 <= x < image.width,
        0 <= y < image.height,
    ensures
        half(cells, image.width as int, x, y).len() == 3,
        half(cells, image.width as int, x, y)[0] == image.channel(x, y, 0),
        half(cells, image.width as int, x, y)[1] == image.channel(x, y, 1),
        half(cells, image.width as int, x, y)[2] == image.channel(x, y, 2),
        y + 1 == image.height && y % 2 == 0 ==> half(cells, image.width as int, x, y + 1)
            == seq![0u8, 0u8, 0u8],
{
    let row = y / 2;
    assert(cells::shows(cells[row * image.width + x], image, x, row));
}

/// A row of cells that is written from the left of a row on is shown in that row, whatever was
/// there before.
pub proof fn lemma_row_shown(canvas: Canvas, cols: int, row: int, cells: Seq<Cell>) -> (strokes: Seq<
    Stroke,
>)
    requires
        0 < cols,
        cells.len() <= cols,
        0 <= row,
        canvas.cells.len() >= row * cols + cols,
        canvas.cursor == Some((row, 0int)),
        canvas.colors == TerminalColors::unknown(),
    ensures
        cell_laws::strokes_bytes(strokes) == cells::cells_bytes(TerminalColors::unknown(), cells),
        ({
            let after = cell_laws::all_painted(canvas, cols, strokes);
            &&& after.cells.len() == canvas.cells.len()
            &&& forall|i: int|
                0 <= i < cells.len() ==> cells::same_cell(
                    #[trigger] after.cells[row * cols + i],
                    cells[i],
                )
            &&& cells.len() < cols ==> after.cursor == Some((row, cells.len() as int))
            &&& cells.len() > 0 ==> cells::in_use(
                after.colors.foreground,
                cells.last().foreground,
            ) && cells::in_use(after.colors.background, cells.last().background)
            &&& cells.len() == 0 ==> after == canvas
        }),
    decreases cells.len(),
{
    let none = Seq::<Stroke>::empty();
    if cells.len() == 0 {
        assert(cell_laws::strokes_bytes(none) =~= cells::cells_bytes(
            TerminalColors::unknown(),
            cells,
        ));
        none
    } else {
        let fewer = cells.drop_last();
        let cell = cells.last();
        let before = lemma_row_shown(canvas, cols, row, fewer);
        let assumed = cells::after_cells(TerminalColors::unknown(), fewer);
        let colouring = Stroke::Colours(
            if cells::in_use(assumed.foreground, cell.foreground) {
                None
            } else {
                Some(cell.foreground)
            },
            if cells::in_use(assumed.background, cell.background) {
                None
            } else {
                Some(cell.background)
            },
        );
        let coloured = before.push(colouring);
        let strokes = coloured.push(Stroke::Glyph);
        assert(coloured.drop_last() =~= before);
        assert(strokes.drop_last() =~= coloured);
        let then = cell_laws::all_painted(canvas, cols, before);
        let ready = cell_laws::all_painted(canvas, cols, coloured);
        let done = cell_laws::all_painted(canvas, cols, strokes);
        assert(then.cursor == Some((row, fewer.len() as int)));
        assert(cells::in_use(ready.colors.foreground, cell.foreground));
        assert(cells::in_use(ready.colors.background, cell.background));
        let at = row * cols + fewer.len();
        assert(0 <= row * cols) by (nonlinear_arith)
            requires
                0 <= row,
                0 < cols,
        ;
        assert(done.cells == then.cells.update(
            at,
            Cell {
                foreground: ready.colors.foreground->0,
                background: ready.colors.background->0,
            },
        ));
        assert forall|i: int| 0 <= i < cells.len() implies cells::same_cell(
            #[trigger] done.cells[row * cols + i],
            cells[i],
        ) by {
            if i < fewer.len() {
                assert(cells::same_cell(then.cells[row * cols + i], fewer[i]));
            }
        }
        assert(cell_laws::stroke_bytes(colouring) =~= encode_utf8(
            cells::colour_change(assumed, cell),
        )) by {
            assert(encode_utf8(Seq::<char>::empty()) =~= Seq::<u8>::empty());
        }
        assert(cell_laws::strokes_bytes(coloured) == cell_laws::strokes_bytes(before)
            + cell_laws::stroke_bytes(colouring));
        assert(cell_laws::strokes_bytes(strokes) == cell_laws::strokes_bytes(coloured)
            + cell_laws::stroke_bytes(Stroke::Glyph));
        assert(cells::cells_bytes(TerminalColors::unknown(), cells) == cells::cells_bytes(
            TerminalColors::unknown(),
            fewer,
        ) + cells::cell_bytes(assumed, cell));
        assert(cell_laws::strokes_bytes(strokes) =~= cells::cells_bytes(
            TerminalColors::unknown(),
            cells,
        ));
        strokes
    }
}

/// A picture takes the cells that were asked for. Where none were, it takes all columns of the
/// terminal and all rows but one, and at least one of each.
pub proof fn lemma_picture_cells(
    cols: Option<u16>,
    rows: Option<u16>,
    terminal: Option<(u16, u16)>,
)
    ensures
        ({
            let cells = report::picture_cells(cols, rows, terminal);
            &&& cols is Some && cols->0 > 0 ==> cells.0 == cols->0
            &&& rows is Some && rows->0 > 0 ==> cells.1 == rows->0
            &&& cols is None && terminal is Some && (terminal->0).0 > 0 ==> cells.0 == (
            terminal->0).0
            &&& rows is None && terminal is Some && (terminal->0).1 > 1 ==> cells.1 + 1 == (
            terminal->0).1
            &&& cols is None && terminal is None ==> cells.0 == 100
            &&& rows is None && terminal is None ==> cells.1 == 29
            &&& cells.0 >= 1 && cells.1 >= 1
        }),
{
}

/// The place of an output has its sign in front.
pub proof fn lemma_offsets_signed(value: i32)
    ensures
        report::offset(value)[0] == if value < 0 {
            '-'
        } else {
            '+'
        },
        report::offset(value).skip(1) == text::decimal(
            (if value < 0 {
                -value
            } else {
                value as int
            }) as nat,
        ),
{
    reveal_strlit("+");
    reveal_strlit("-");
    let size = text::decimal(
        (if value < 0 {
            -value
        } else {
            value as int
        }) as nat,
    );
    assert(report::offset(value).skip(1) =~= size);
}

} // verus!
