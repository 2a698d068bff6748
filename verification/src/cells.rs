//! Frames of terminal cells, each of which shows two pixels by a half block.

use crate::arith;
use crate::kitty;
use crate::pixels;
use crate::pixels::{Pixels, RgbImage};
use crate::render;
use crate::render::{fitted_sample_size, validate_viewport, Viewport, ViewportError, ViewportRect};
use crate::text;
use crate::text::{push_decimal, push_text};
use vstd::prelude::*;
use vstd::utf8::*;

verus! {

/// The colours of the upper and of the lower pixel of a cell.
#[derive(Debug, Clone, Copy, PartialEq, Eq)]
pub struct Cell {
    pub foreground: [u8; 3],
    pub background: [u8; 3],
}

/// The colours that the terminal uses for the next character, as far as they are known.
#[derive(Clone, Copy)]
pub struct TerminalColors {
    pub foreground: Option<[u8; 3]>,
    pub background: Option<[u8; 3]>,
}

impl TerminalColors {
    /// Nothing is known.
    pub open spec fn unknown() -> TerminalColors {
        TerminalColors { foreground: None, background: None }
    }

    /// What is known after a cell is written.
    pub open spec fn after(cell: Cell) -> TerminalColors {
        TerminalColors { foreground: Some(cell.foreground), background: Some(cell.background) }
    }
}

impl Default for TerminalColors {
    fn default() -> (colors: Self)
        ensures
            colors == TerminalColors::unknown(),
    {
        TerminalColors { foreground: None, background: None }
    }
}

/// Whether a colour is already in use.
pub open spec fn in_use(known: Option<[u8; 3]>, wanted: [u8; 3]) -> bool {
    known matches Some(known) && known@ == wanted@
}

/// Whether two cells look the same.
pub open spec fn same_cell(a: Cell, b: Cell) -> bool {
    a.foreground@ == b.foreground@ && a.background@ == b.background@
}

fn same_colour(a: &[u8; 3], b: &[u8; 3]) -> (same: bool)
    ensures
        same == (a@ == b@),
{
    let same = a[0] == b[0] && a[1] == b[1] && a[2] == b[2];
    proof {
        if same {
            assert(a@ =~= b@);
        }
    }
    same
}

fn known_colour(known: &Option<[u8; 3]>, wanted: &[u8; 3]) -> (same: bool)
    ensures
        same == in_use(*known, *wanted),
{
    match known {
        Some(known) => same_colour(known, wanted),
        None => false,
    }
}

/// The numbers of a colour, with separators.
pub open spec fn colour_numbers(colour: [u8; 3]) -> Seq<char> {
    text::decimal(colour@[0] as nat) + ";"@ + text::decimal(colour@[1] as nat) + ";"@
        + text::decimal(colour@[2] as nat)
}

fn colour_text(colour: &[u8; 3]) -> (numbers: String)
    ensures
        numbers@ == colour_numbers(*colour),
{
    let mut numbers = String::new();
    push_decimal(&mut numbers, colour[0] as u64);
    numbers.append(";");
    push_decimal(&mut numbers, colour[1] as u64);
    numbers.append(";");
    push_decimal(&mut numbers, colour[2] as u64);
    assert(numbers@ =~= colour_numbers(*colour));
    numbers
}

/// What is written to change the colours to those of a cell.
pub open spec fn colour_change(colors: TerminalColors, cell: Cell) -> Seq<char> {
    let same_foreground = in_use(colors.foreground, cell.foreground);
    let same_background = in_use(colors.background, cell.background);
    if !same_foreground && !same_background {
        "\x1b[38;2;"@ + colour_numbers(cell.foreground) + ";48;2;"@ + colour_numbers(
            cell.background,
        ) + "m"@
    } else if !same_foreground {
        "\x1b[38;2;"@ + colour_numbers(cell.foreground) + "m"@
    } else if !same_background {
        "\x1b[48;2;"@ + colour_numbers(cell.background) + "m"@
    } else {
        seq![]
    }
}

/// What is written for a cell.
pub open spec fn cell_bytes(colors: TerminalColors, cell: Cell) -> Seq<u8> {
    encode_utf8(colour_change(colors, cell)) + encode_utf8("▀"@)
}

/// Writes a cell.
pub fn push_cell(bytes: &mut Vec<u8>, cell: Cell, colors: &mut TerminalColors)
    ensures
        final(bytes)@ == old(bytes)@ + cell_bytes(*old(colors), cell),
        *final(colors) == TerminalColors::after(cell),
{
    let same_foreground = known_colour(&colors.foreground, &cell.foreground);
    let same_background = known_colour(&colors.background, &cell.background);
    let mut change = String::new();
    if !same_foreground && !same_background {
        change = "\x1b[38;2;".to_owned();
        change.append(colour_text(&cell.foreground).as_str());
        change.append(";48;2;");
        change.append(colour_text(&cell.background).as_str());
        change.append("m");
    } else if !same_foreground {
        change = "\x1b[38;2;".to_owned();
        change.append(colour_text(&cell.foreground).as_str());
        change.append("m");
    } else if !same_background {
        change = "\x1b[48;2;".to_owned();
        change.append(colour_text(&cell.background).as_str());
        change.append("m");
    }
    assert(change@ =~= colour_change(*colors, cell));
    push_text(bytes, change.as_str());
    push_text(bytes, "▀");
    assert(bytes@ =~= old(bytes)@ + cell_bytes(*old(colors), cell));
    colors.foreground = Some(cell.foreground);
    colors.background = Some(cell.background);
}

/// What is known after cells are written.
pub open spec fn after_cells(colors: TerminalColors, cells: Seq<Cell>) -> TerminalColors {
    if cells.len() == 0 {
        colors
    } else {
        TerminalColors::after(cells.last())
    }
}

/// What is written for cells side by side.
pub open spec fn cells_bytes(colors: TerminalColors, cells: Seq<Cell>) -> Seq<u8>
    decreases cells.len(),
{
    if cells.len() == 0 {
        seq![]
    } else {
        cells_bytes(colors, cells.drop_last()) + cell_bytes(
            after_cells(colors, cells.drop_last()),
            cells.last(),
        )
    }
}

/// Whether the cell at `i` differs from before.
pub open spec fn is_changed(previous: Seq<Cell>, current: Seq<Cell>, i: int) -> bool {
    !same_cell(previous[i], current[i])
}

/// The colours in use before the cell at `i`: those of the last changed cell before it.
pub open spec fn colours_before(previous: Seq<Cell>, current: Seq<Cell>, i: int) -> TerminalColors
    decreases i,
{
    if i <= 0 {
        TerminalColors::unknown()
    } else if is_changed(previous, current, i - 1) {
        TerminalColors::after(current[i - 1])
    } else {
        colours_before(previous, current, i - 1)
    }
}

/// Whether the cell at `i` is the first of its row or follows a cell that did not change.
pub open spec fn starts_run(previous: Seq<Cell>, current: Seq<Cell>, cols: int, i: int) -> bool {
    i % cols == 0 || !is_changed(previous, current, i - 1)
}

/// What is written for the changes among the first `count` cells: each changed cell, after a
/// cursor movement where it starts a run.
pub open spec fn changes(
    previous: Seq<Cell>,
    current: Seq<Cell>,
    cols: int,
    count: int,
) -> Seq<u8>
    decreases count,
{
    if count <= 0 {
        seq![]
    } else {
        let i = count - 1;
        let before = changes(previous, current, cols, i);
        if is_changed(previous, current, i) {
            before + if starts_run(previous, current, cols, i) {
                encode_utf8(kitty::cursor_move((i / cols + 1) as nat, (i % cols + 1) as nat))
            } else {
                seq![]
            } + cell_bytes(colours_before(previous, current, i), current[i])
        } else {
            before
        }
    }
}

/// What is written to turn the cells `previous` into `current`.
pub open spec fn cell_diff(previous: Seq<Cell>, current: Seq<Cell>, cols: int) -> Seq<u8> {
    let written = changes(previous, current, cols, current.len() as int);
    if written.len() == 0 {
        seq![]
    } else {
        written + encode_utf8("\x1b[0m"@)
    }
}

fn cells_equal(a: &Cell, b: &Cell) -> (same: bool)
    ensures
        same == same_cell(*a, *b),
{
    same_colour(&a.foreground, &b.foreground) && same_colour(&a.background, &b.background)
}

/// Writes only the runs of cells that changed, at absolute positions.
pub fn encode_cell_diff(previous: &[Cell], current: &[Cell], cols: u16) -> (bytes: Vec<u8>)
    requires
        previous@.len() == current@.len(),
        cols > 0,
    ensures
        bytes@ == cell_diff(previous@, current@, cols as int),
{
    let width: usize = cols as usize;
    let mut bytes: Vec<u8> = Vec::new();
    let mut colors = TerminalColors::default();
    let mut index: usize = 0;
    let mut in_run = false;
    let len: usize = current.len();
    assert(bytes@ =~= changes(previous@, current@, cols as int, 0));
    while index < len
        invariant
            index <= len,
            len == current@.len(),
            len == previous@.len(),
            width == cols,
            cols > 0,
            colors == colours_before(previous@, current@, index as int),
            in_run == (index > 0 && is_changed(previous@, current@, index - 1)),
            bytes@ == changes(previous@, current@, cols as int, index as int),
        decreases len - index,
    {
        if cells_equal(&previous[index], &current[index]) {
            in_run = false;
        } else {
            if !in_run || index % width == 0 {
                let position = kitty::cursor_text(
                    (index / width) as u64 + 1,
                    (index % width) as u64 + 1,
                );
                push_text(&mut bytes, position.as_str());
            }
            proof {
                if index == 0 {
                    assert(0int % cols as int == 0);
                }
            }
            push_cell(&mut bytes, current[index], &mut colors);
            in_run = true;
            assert(bytes@ =~= changes(previous@, current@, cols as int, index + 1));
        }
        index = index + 1;
    }
    if bytes.len() > 0 {
        push_text(&mut bytes, "\x1b[0m");
    }
    bytes
}

/// A frame of cells, and the bytes that draw it from the top.
pub struct RenderedFrame {
    pub bytes: Vec<u8>,
    pub cells: Vec<Cell>,
    pub cols: u16,
    pub rows: u16,
    pub sample_height: u16,
    pub viewport: ViewportRect,
}

/// The colour of a pixel, and black below the image.
pub open spec fn pixel_colour(image: Pixels, x: int, y: int) -> Seq<u8> {
    if y < image.height {
        seq![image.channel(x, y, 0), image.channel(x, y, 1), image.channel(x, y, 2)]
    } else {
        seq![0, 0, 0]
    }
}

/// Whether a cell shows the pixels at column `x` of the rows `2 * row` and `2 * row + 1`.
pub open spec fn shows(cell: Cell, image: Pixels, x: int, row: int) -> bool {
    &&& cell.foreground@ == pixel_colour(image, x, 2 * row)
    &&& cell.background@ == pixel_colour(image, x, 2 * row + 1)
}

/// Whether cells show an image, row by row.
pub open spec fn show_all(cells: Seq<Cell>, image: Pixels) -> bool {
    &&& cells.len() == image.width * arith::ceiling(image.height as int, 2)
    &&& forall|x: int, row: int|
        0 <= x < image.width && 0 <= row < arith::ceiling(image.height as int, 2) ==> shows(
            #[trigger] cells[row * image.width + x],
            image,
            x,
            row,
        )
}

/// The cells of one row.
pub open spec fn cell_row(cells: Seq<Cell>, width: int, row: int) -> Seq<Cell> {
    cells.subrange(row * width, row * width + width)
}

/// What is written for the first `rows` rows of cells.
pub open spec fn frame_rows(cells: Seq<Cell>, width: int, rows: int) -> Seq<u8>
    decreases rows,
{
    if rows <= 0 {
        seq![]
    } else {
        frame_rows(cells, width, rows - 1) + cells_bytes(
            TerminalColors::unknown(),
            cell_row(cells, width, rows - 1),
        ) + encode_utf8("\x1b[0m\x1b[K\r\n"@)
    }
}

/// What is written for a whole frame.
pub open spec fn frame_bytes(cells: Seq<Cell>, width: int, rows: int) -> Seq<u8> {
    frame_rows(cells, width, rows) + encode_utf8("\x1b[0m"@)
}

fn colour_at(image: &RgbImage, x: u32, y: u32) -> (colour: [u8; 3])
    requires
        image.wf(),
        x < image.width,
    ensures
        colour@ == pixel_colour(image@, x as int, y as int),
{
    let colour = if y < image.height {
        let pixel = image.pixel(x, y);
        [pixel[0], pixel[1], pixel[2]]
    } else {
        [0, 0, 0]
    };
    assert(colour@ =~= pixel_colour(image@, x as int, y as int));
    colour
}

/// The cells that show an image, and the bytes that draw them.
pub fn encode_half_blocks(image: &RgbImage) -> (frame: (Vec<u8>, Vec<Cell>))
    requires
        image.wf(),
    ensures
        show_all(frame.1@, image@),
        frame.0@ == frame_bytes(
            frame.1@,
            image.width as int,
            arith::ceiling(image.height as int, 2),
        ),
{
    let width: u32 = image.width;
    let rows: u32 = image.height / 2 + image.height % 2;
    assert(rows == arith::ceiling(image.height as int, 2));
    let mut bytes: Vec<u8> = Vec::new();
    let mut cells: Vec<Cell> = Vec::new();
    let mut row: u32 = 0;
    assert(0 * width == 0) by (nonlinear_arith);
    assert(bytes@ =~= frame_rows(cells@, width as int, 0));
    while row < rows
        invariant
            image.wf(),
            width == image.width,
            rows == arith::ceiling(image.height as int, 2),
            rows == image.height / 2 + image.height % 2,
            row <= rows,
            cells@.len() == row * width,
            forall|x: int, r: int|
                0 <= x < width && 0 <= r < row ==> shows(
                    #[trigger] cells@[r * width + x],
                    image@,
                    x,
                    r,
                ),
            bytes@ == frame_rows(cells@, width as int, row as int),
        decreases rows - row,
    {
        let mut colors = TerminalColors::default();
        let ghost old_cells = cells@;
        let ghost old_bytes = bytes@;
        let ghost start = row * width;
        let mut x: u32 = 0;
        assert(0 <= start) by (nonlinear_arith)
            requires
                start == row * width,
                0 <= row,
                0 <= width,
        ;
        assert(cells@.subrange(start, start) =~= seq![]);
        assert(bytes@ =~= old_bytes + cells_bytes(TerminalColors::unknown(), seq![]));
        while x < width
            invariant
                image.wf(),
                width == image.width,
                rows == image.height / 2 + image.height % 2,
                row < rows,
                x <= width,
                start == row * width,
                0 <= start,
                cells@.len() == start + x,
                old_cells.len() == start,
                cells@.take(start) == old_cells,
                forall|k: int|
                    0 <= k < x ==> shows(#[trigger] cells@[start + k], image@, k, row as int),
                bytes@ == old_bytes + cells_bytes(
                    TerminalColors::unknown(),
                    cells@.subrange(start, start + x),
                ),
                colors == after_cells(
                    TerminalColors::unknown(),
                    cells@.subrange(start, start + x),
                ),
            decreases width - x,
        {
            let cell = Cell {
                foreground: colour_at(image, x, 2 * row),
                background: colour_at(image, x, 2 * row + 1),
            };
            let ghost before = cells@.subrange(start, start + x);
            push_cell(&mut bytes, cell, &mut colors);
            cells.push(cell);
            proof {
                let now = cells@.subrange(start, start + x + 1);
                assert(now.drop_last() =~= before);
                assert(now.last() == cell);
                assert(cells@.take(start) =~= old_cells);
                assert(bytes@ =~= old_bytes + cells_bytes(TerminalColors::unknown(), now));
                assert forall|k: int| 0 <= k < x + 1 implies shows(
                    #[trigger] cells@[start + k],
                    image@,
                    k,
                    row as int,
                ) by {
                    if k < x {
                        assert(before[k] == cells@[start + k]);
                    }
                }
            }
            x = x + 1;
        }
        push_text(&mut bytes, "\x1b[0m\x1b[K\r\n");
        proof {
            assert((row + 1) * width == start + width) by (nonlinear_arith)
                requires
                    start == row * width,
            ;
            lemma_rows_kept(old_cells, cells@, width as int, row as int);
            assert(cell_row(cells@, width as int, row as int) =~= cells@.subrange(
                start,
                start + width,
            ));
            assert(bytes@ =~= frame_rows(cells@, width as int, row + 1));
            assert forall|k: int, r: int| 0 <= k < width && 0 <= r < row + 1 implies shows(
                #[trigger] cells@[r * width + k],
                image@,
                k,
                r,
            ) by {
                if r < row {
                    assert(r * width + k < start) by (nonlinear_arith)
                        requires
                            0 <= k < width,
                            0 <= r < row,
                            start == row * width,
                    ;
                    assert(0 <= r * width) by (nonlinear_arith)
                        requires
                            0 <= r,
                            0 <= width,
                    ;
                    assert(cells@.take(start)[r * width + k] == cells@[r * width + k]);
                    assert(shows(old_cells[r * width + k], image@, k, r));
                } else {
                    assert(shows(cells@[start + k], image@, k, row as int));
                }
            }
        }
        row = row + 1;
    }
    push_text(&mut bytes, "\x1b[0m");
    assert(rows * width == width * rows) by (nonlinear_arith);
    (bytes, cells)
}

/// More cells after the first rows do not change what is written for these.
proof fn lemma_rows_kept(old_cells: Seq<Cell>, cells: Seq<Cell>, width: int, rows: int)
    requires
        0 <= width,
        0 <= rows,
        old_cells.len() == rows * width,
        rows * width <= cells.len(),
        cells.take(rows * width) == old_cells,
    ensures
        frame_rows(cells, width, rows) == frame_rows(old_cells, width, rows),
    decreases rows,
{
    lemma_rows_kept_upto(old_cells, cells, width, rows, rows);
}

proof fn lemma_rows_kept_upto(
    old_cells: Seq<Cell>,
    cells: Seq<Cell>,
    width: int,
    rows: int,
    count: int,
)
    requires
        0 <= width,
        0 <= count <= rows,
        old_cells.len() == rows * width,
        rows * width <= cells.len(),
        cells.take(rows * width) == old_cells,
    ensures
        frame_rows(cells, width, count) == frame_rows(old_cells, width, count),
    decreases count,
{
    if count > 0 {
        lemma_rows_kept_upto(old_cells, cells, width, rows, count - 1);
        assert(0 <= (count - 1) * width && (count - 1) * width + width <= rows * width)
            by (nonlinear_arith)
            requires
                0 <= width,
                0 < count <= rows,
        ;
        assert(cell_row(cells, width, count - 1) =~= cell_row(old_cells, width, count - 1));
    }
}

/// The size of the half-block sample of a rectangle: two rows of pixels for each row of cells.
pub open spec fn sample_size(rect: ViewportRect, max_cols: u16, max_rows: u16) -> (int, int) {
    render::fitted(rect.width, rect.height, max_cols as u32, (max_rows * 2) as u32)
}

/// The sample of a rectangle of the desktop.
pub open spec fn sample_of(
    source: Pixels,
    rect: ViewportRect,
    max_cols: u16,
    max_rows: u16,
) -> Pixels {
    let size = sample_size(rect, max_cols, max_rows);
    source.crop(
        rect.x as int,
        rect.y as int,
        rect.width as nat,
        rect.height as nat,
    ).resized(size.0 as nat, size.1 as nat)
}

/// Renders the pixels `rect` that a viewport shows as cells.
pub fn render_half_blocks_viewport(
    source: &RgbImage,
    max_cols: u16,
    max_rows: u16,
    viewport: Viewport,
    rect: ViewportRect,
) -> (frame: Result<RenderedFrame, ViewportError>)
    requires
        source.wf(),
        render::viewport_fault(viewport) is None ==> {
            &&& max_cols > 0
            &&& max_rows > 0
            &&& rect.inside(source.width, source.height)
            &&& pixels::resizable(
                rect.width as int,
                rect.height as int,
                sample_size(rect, max_cols, max_rows).0,
                sample_size(rect, max_cols, max_rows).1,
            )
        },
    ensures
        match render::viewport_fault(viewport) {
            Some(fault) => frame == Err::<RenderedFrame, ViewportError>(fault),
            None => frame matches Ok(frame) && {
                let sample = sample_of(source@, rect, max_cols, max_rows);
                let rows = arith::ceiling(sample.height as int, 2);
                &&& show_all(frame.cells@, sample)
                &&& frame.bytes@ == frame_bytes(frame.cells@, sample.width as int, rows)
                &&& frame.cols == sample.width as u16
                &&& frame.rows == rows as u16
                &&& frame.sample_height == sample.height as u16
                &&& frame.viewport == rect
                &&& frame.cells@.len() == frame.cols * frame.rows
            },
        },
{
    match validate_viewport(viewport) {
        Ok(()) => {},
        Err(fault) => return Err(fault),
    }
    let cropped = source.crop(rect.x, rect.y, rect.width, rect.height);
    let (sample_width, sample_height) = fitted_sample_size(
        rect.width,
        rect.height,
        max_cols as u32,
        max_rows as u32 * 2,
    );
    let resized = cropped.resize(sample_width, sample_height);
    let rows: u32 = sample_height / 2 + sample_height % 2;
    assert(rows == arith::ceiling(sample_height as int, 2));
    let (bytes, cells) = encode_half_blocks(&resized);
    proof {
        render::lemma_fitted_at_most(
            rect.width,
            rect.height,
            max_cols as u32,
            (max_rows * 2) as u32,
        );
    }
    Ok(
        RenderedFrame {
            bytes,
            cells,
            cols: sample_width as u16,
            rows: rows as u16,
            sample_height: sample_height as u16,
            viewport: rect,
        },
    )
}

} // verus!
