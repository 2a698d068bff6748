//! What a terminal shows after cells are written.

use crate::cells;
use crate::cells::{Cell, TerminalColors};
use crate::kitty;
use vstd::prelude::*;
use vstd::utf8::*;

verus! {

/// What a terminal is told to do.
pub enum Stroke {
    /// Move to a row and a column, both counted from one.
    Move(nat, nat),
    /// Take on a colour for the upper and one for the lower half of a cell, where they are given.
    Colours(Option<[u8; 3]>, Option<[u8; 3]>),
    /// Draw a cell in these colours, and step to the right.
    Glyph,
    /// Forget the colours.
    Reset,
}

/// A part of a terminal: its cells, row by row, where the cursor is, and the colours in use.
/// Behind the last column it is not known where the cursor is.
pub struct Canvas {
    pub cells: Seq<Cell>,
    pub cursor: Option<(int, int)>,
    pub colors: TerminalColors,
}

/// A terminal that shows cells, of which nothing else is known.
pub open spec fn showing(cells: Seq<Cell>) -> Canvas {
    Canvas { cells, cursor: None, colors: TerminalColors::unknown() }
}

/// A terminal of so many columns after a stroke.
pub open spec fn painted(canvas: Canvas, cols: int, stroke: Stroke) -> Canvas {
    match stroke {
        Stroke::Move(row, col) => Canvas { cursor: Some((row - 1, col - 1)), ..canvas },
        Stroke::Colours(foreground, background) => Canvas {
            colors: TerminalColors {
                foreground: if foreground is Some {
                    foreground
                } else {
                    canvas.colors.foreground
                },
                background: if background is Some {
                    background
                } else {
                    canvas.colors.background
                },
            },
            ..canvas
        },
        Stroke::Glyph => match (
            canvas.cursor,
            canvas.colors.foreground,
            canvas.colors.background,
        ) {
            (Some((row, col)), Some(foreground), Some(background)) => Canvas {
                cells: canvas.cells.update(row * cols + col, Cell { foreground, background }),
                cursor: if col + 1 < cols {
                    Some((row, col + 1))
                } else {
                    None
                },
                ..canvas
            },
            _ => canvas,
        },
        Stroke::Reset => Canvas { colors: TerminalColors::unknown(), ..canvas },
    }
}

/// A terminal of so many columns after strokes.
pub open spec fn all_painted(canvas: Canvas, cols: int, strokes: Seq<Stroke>) -> Canvas
    decreases strokes.len(),
{
    if strokes.len() == 0 {
        canvas
    } else {
        painted(all_painted(canvas, cols, strokes.drop_last()), cols, strokes.last())
    }
}

/// How a stroke is written.
pub open spec fn stroke_bytes(stroke: Stroke) -> Seq<u8> {
    match stroke {
        Stroke::Move(row, col) => encode_utf8(kitty::cursor_move(row, col)),
        Stroke::Colours(Some(foreground), Some(background)) => encode_utf8(
            "\x1b[38;2;"@ + cells::colour_numbers(foreground) + ";48;2;"@ + cells::colour_numbers(
                background,
            ) + "m"@,
        ),
        Stroke::Colours(Some(foreground), None) => encode_utf8(
            "\x1b[38;2;"@ + cells::colour_numbers(foreground) + "m"@,
        ),
        Stroke::Colours(None, Some(background)) => encode_utf8(
            "\x1b[48;2;"@ + cells::colour_numbers(background) + "m"@,
        ),
        Stroke::Colours(None, None) => seq![],
        Stroke::Glyph => encode_utf8("▀"@),
        Stroke::Reset => encode_utf8("\x1b[0m"@),
    }
}

/// How strokes are written.
pub open spec fn strokes_bytes(strokes: Seq<Stroke>) -> Seq<u8>
    decreases strokes.len(),
{
    if strokes.len() == 0 {
        seq![]
    } else {
        strokes_bytes(strokes.drop_last()) + stroke_bytes(strokes.last())
    }
}

/// Whether a terminal shows cells.
pub open spec fn shows_cells(shown: Seq<Cell>, cells: Seq<Cell>) -> bool {
    &&& shown.len() == cells.len()
    &&& forall|i: int| 0 <= i < cells.len() ==> cells::same_cell(#[trigger] shown[i], cells[i])
}

/// What is written for the difference of two frames turns a terminal that shows the one into a
/// terminal that shows the other.
pub proof fn lemma_diff_shows(previous: Seq<Cell>, current: Seq<Cell>, cols: int) -> (strokes: Seq<
    Stroke,
>)
    requires
        previous.len() == current.len(),
        cols > 0,
    ensures
        strokes_bytes(strokes) == cells::cell_diff(previous, current, cols),
        shows_cells(all_painted(showing(previous), cols, strokes).cells, current),
{
    let strokes = lemma_changes_shown(previous, current, cols, current.len() as int);
    if strokes_bytes(strokes).len() == 0 {
        strokes
    } else {
        lemma_push(showing(previous), cols, strokes, Stroke::Reset);
        strokes.push(Stroke::Reset)
    }
}

proof fn lemma_push(canvas: Canvas, cols: int, strokes: Seq<Stroke>, stroke: Stroke)
    ensures
        all_painted(canvas, cols, strokes.push(stroke)) == painted(
            all_painted(canvas, cols, strokes),
            cols,
            stroke,
        ),
        strokes_bytes(strokes.push(stroke)) == strokes_bytes(strokes) + stroke_bytes(stroke),
{
    assert(strokes.push(stroke).drop_last() =~= strokes);
}

/// Whether a terminal is known to use the colours that are taken to be in use.
spec fn agrees(colors: TerminalColors, assumed: TerminalColors) -> bool {
    &&& assumed.foreground matches Some(colour) ==> cells::in_use(colors.foreground, colour)
    &&& assumed.background matches Some(colour) ==> cells::in_use(colors.background, colour)
}

/// Whether a terminal shows the first `count` of the new cells, and is ready for the next.
spec fn halfway(
    canvas: Canvas,
    previous: Seq<Cell>,
    current: Seq<Cell>,
    cols: int,
    count: int,
) -> bool {
    &&& canvas.cells.len() == current.len()
    &&& forall|i: int|
        0 <= i < count ==> cells::same_cell(#[trigger] canvas.cells[i], current[i])
    &&& forall|i: int|
        count <= i < current.len() ==> cells::same_cell(#[trigger] canvas.cells[i], previous[i])
    &&& agrees(canvas.colors, cells::colours_before(previous, current, count))
    &&& count > 0 && count % cols != 0 && cells::is_changed(previous, current, count - 1)
        ==> canvas.cursor == Some((count / cols, count % cols))
}

proof fn lemma_changes_shown(
    previous: Seq<Cell>,
    current: Seq<Cell>,
    cols: int,
    count: int,
) -> (strokes: Seq<Stroke>)
    requires
        previous.len() == current.len(),
        cols > 0,
        0 <= count <= current.len(),
    ensures
        strokes_bytes(strokes) == cells::changes(previous, current, cols, count),
        halfway(all_painted(showing(previous), cols, strokes), previous, current, cols, count),
    decreases count,
{
    let i = count - 1;
    if count == 0 {
        let none: Seq<Stroke> = seq![];
        assert(strokes_bytes(none) =~= cells::changes(previous, current, cols, 0));
        none
    } else if !cells::is_changed(previous, current, i) {
        lemma_changes_shown(previous, current, cols, i)
    } else {
        let before = lemma_changes_shown(previous, current, cols, i);
        lemma_change_shown(previous, current, cols, i, before)
    }
}

proof fn lemma_change_shown(
    previous: Seq<Cell>,
    current: Seq<Cell>,
    cols: int,
    i: int,
    before: Seq<Stroke>,
) -> (strokes: Seq<Stroke>)
    requires
        previous.len() == current.len(),
        cols > 0,
        0 <= i < current.len(),
        cells::is_changed(previous, current, i),
        strokes_bytes(before) == cells::changes(previous, current, cols, i),
        halfway(all_painted(showing(previous), cols, before), previous, current, cols, i),
    ensures
        strokes_bytes(strokes) == cells::changes(previous, current, cols, i + 1),
        halfway(all_painted(showing(previous), cols, strokes), previous, current, cols, i + 1),
{
    let start = showing(previous);
    let cell = current[i];
    let moving = cells::starts_run(previous, current, cols, i);
    let moved = if moving {
        before.push(Stroke::Move((i / cols + 1) as nat, (i % cols + 1) as nat))
    } else {
        before
    };
    lemma_place(i, cols);
    if moving {
        lemma_push(start, cols, before, Stroke::Move((i / cols + 1) as nat, (i % cols + 1) as nat));
    }
    let assumed = cells::colours_before(previous, current, i);
    let colouring = Stroke::Colours(
        if cells::in_use(assumed.foreground, cell.foreground) {
            None
        } else {
            Some(cell.foreground)
        },
        if cells::in_use(assumed.background, cell.background) {
            None
        } else {
            Some(cell.background)
        },
    );
    let coloured = moved.push(colouring);
    lemma_push(start, cols, moved, colouring);
    lemma_push(start, cols, coloured, Stroke::Glyph);
    let strokes = coloured.push(Stroke::Glyph);
    let at = all_painted(start, cols, moved);
    let ready = all_painted(start, cols, coloured);
    let done = all_painted(start, cols, strokes);
    assert(at.cursor == Some((i / cols, i % cols)));
    assert(cells::in_use(ready.colors.foreground, cell.foreground));
    assert(cells::in_use(ready.colors.background, cell.background));
    assert(done.cells == at.cells.update(
        i,
        Cell {
            foreground: ready.colors.foreground->0,
            background: ready.colors.background->0,
        },
    ));
    assert(strokes_bytes(strokes) =~= cells::changes(previous, current, cols, i + 1)) by {
        assert(stroke_bytes(colouring) =~= encode_utf8(cells::colour_change(assumed, cell))) by {
            assert(encode_utf8(Seq::<char>::empty()) =~= Seq::<u8>::empty());
        }
    }
    strokes
}

/// The place of a cell in its row, and that of the next.
proof fn lemma_place(i: int, cols: int)
    requires
        0 <= i,
        cols > 0,
    ensures
        (i / cols) * cols + i % cols == i,
        0 <= i % cols < cols,
        i % cols + 1 < cols ==> (i + 1) / cols == i / cols && (i + 1) % cols == i % cols + 1,
        i % cols + 1 >= cols ==> (i + 1) % cols == 0,
{
    vstd::arithmetic::div_mod::lemma_fundamental_div_mod(i, cols);
    assert(cols * (i / cols) == (i / cols) * cols) by (nonlinear_arith);
    if i % cols + 1 < cols {
        vstd::arithmetic::div_mod::lemma_fundamental_div_mod_converse(
            i + 1,
            cols,
            i / cols,
            i % cols + 1,
        );
    } else {
        assert(i + 1 == (i / cols + 1) * cols + 0) by (nonlinear_arith)
            requires
                (i / cols) * cols + i % cols == i,
                i % cols == cols - 1,
        ;
        assert((i / cols + 1) * cols == cols * (i / cols + 1)) by (nonlinear_arith);
        vstd::arithmetic::div_mod::lemma_fundamental_div_mod_converse(
            i + 1,
            cols,
            i / cols + 1,
            0,
        );
    }
}

} // verus!
