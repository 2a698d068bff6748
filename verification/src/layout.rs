//! Where the image lies in the terminal, what a click in it means, and which damage it shows.

use crate::arith;
use crate::input::PointerButton;
use crate::kitty;
use crate::kitty::cursor_text;
use crate::niri::OutputGeometry;
use crate::pixels::RgbImage;
use crate::render::ViewportRect;
use crate::screencopy::DamageRect;
use crate::scroll::{MouseButton, MouseEvent, MouseEventKind};
use crate::text;
use crate::text::{chars_of, push_decimal, push_text, same};
use vstd::prelude::*;
use vstd::utf8::*;

verus! {

/// The cells that an image takes, and the pixels that it shows.
#[derive(Debug, Clone, Copy, PartialEq, Eq, Structural)]
pub struct DrawLayout {
    pub cols: u16,
    pub rows: u16,
    pub sample_height: u16,
    pub viewport: ViewportRect,
    pub source_width: u32,
    pub source_height: u32,
}

/// A point of the desktop: in the captured frame, in its output and among all outputs.
#[derive(Debug, Clone, Copy, PartialEq, Eq, Structural)]
pub struct LogicalPoint {
    pub source_x: u32,
    pub source_y: u32,
    pub local_x: u32,
    pub local_y: u32,
    pub global_x: i64,
    pub global_y: i64,
}

/// The pixel of the frame that lies under a cell, and the point of the output that it shows.
#[derive(Debug, Clone, Copy, PartialEq, Eq, Structural)]
pub struct PointerSample {
    pub source_x: u32,
    pub source_y: u32,
    pub local_x: u32,
    pub local_y: u32,
}

/// Whether a cell shows the desktop upright.
pub open spec fn is_mapped(column: u16, row: u16, layout: DrawLayout, transform: Seq<char>) -> bool {
    column < layout.cols && row < layout.rows && transform == "Normal"@
}

/// The point of the desktop with a sample.
pub open spec fn point_of(sample: PointerSample, x: i32, y: i32) -> LogicalPoint {
    LogicalPoint {
        source_x: sample.source_x,
        source_y: sample.source_y,
        local_x: sample.local_x,
        local_y: sample.local_y,
        global_x: (x + sample.local_x) as i64,
        global_y: (y + sample.local_y) as i64,
    }
}

/// The point of the desktop under the mouse. `sample` is what lies under its cell.
pub fn map_pointer_position(
    mouse: MouseEvent,
    layout: DrawLayout,
    output: &OutputGeometry,
    sample: PointerSample,
) -> (point: Option<LogicalPoint>)
    ensures
        point == if is_mapped(mouse.column, mouse.row, layout, output.transform@) {
            Some(point_of(sample, output.x, output.y))
        } else {
            None
        },
{
    if mouse.column >= layout.cols || mouse.row >= layout.rows || !same(
        output.transform.as_str(),
        "Normal",
    ) {
        return None;
    }
    Some(
        LogicalPoint {
            source_x: sample.source_x,
            source_y: sample.source_y,
            local_x: sample.local_x,
            local_y: sample.local_y,
            global_x: output.x as i64 + sample.local_x as i64,
            global_y: output.y as i64 + sample.local_y as i64,
        },
    )
}

/// The button that an event presses, if it is one that can be sent.
pub open spec fn pressed(kind: MouseEventKind) -> Option<PointerButton> {
    match kind {
        MouseEventKind::Down(MouseButton::Left) => Some(PointerButton::Left),
        MouseEventKind::Down(MouseButton::Right) => Some(PointerButton::Right),
        _ => None,
    }
}

/// The point of the desktop that is clicked, and the button.
pub fn map_click(
    mouse: MouseEvent,
    layout: DrawLayout,
    output: &OutputGeometry,
    sample: PointerSample,
) -> (click: Option<(LogicalPoint, PointerButton)>)
    ensures
        click == match pressed(mouse.kind) {
            Some(button) => if is_mapped(mouse.column, mouse.row, layout, output.transform@) {
                Some((point_of(sample, output.x, output.y), button))
            } else {
                None
            },
            None => None,
        },
{
    let button = match mouse.kind {
        MouseEventKind::Down(MouseButton::Left) => PointerButton::Left,
        MouseEventKind::Down(MouseButton::Right) => PointerButton::Right,
        _ => return None,
    };
    match map_pointer_position(mouse, layout, output, sample) {
        Some(point) => Some((point, button)),
        None => None,
    }
}

/// Why captured frames and the geometry of an output do not agree.
#[derive(Debug, Clone, Copy, PartialEq, Eq, Structural)]
pub enum GeometryError {
    /// The output is turned.
    Transform,
    /// The frame is not as large as the scaled output.
    Size,
}

impl GeometryError {
    /// What is said of a frame and the geometry of its output. `scale` is the scale of the output
    /// in words.
    pub open spec fn words(
        self,
        width: u32,
        height: u32,
        output: &OutputGeometry,
        scale: Seq<char>,
    ) -> Seq<char> {
        match self {
            GeometryError::Transform =>
                "mouse mapping currently supports Normal output transforms, not "@
                + output.transform@,
            GeometryError::Size => "capture "@ + text::decimal(width as nat) + "x"@
                + text::decimal(height as nat) + " does not match niri geometry "@ + text::decimal(
                output.width as nat,
            ) + "x"@ + text::decimal(output.height as nat) + " at scale "@ + scale,
        }
    }

    /// What is said of a frame and the geometry of its output.
    pub fn message(&self, width: u32, height: u32, output: &OutputGeometry, scale: &str) -> (words:
        String)
        ensures
            words@ == self.words(width, height, output, scale@),
    {
        match self {
            GeometryError::Transform => {
                let mut words =
                    "mouse mapping currently supports Normal output transforms, not ".to_owned();
                words.append(output.transform.as_str());
                words
            },
            GeometryError::Size => {
                let mut words = "capture ".to_owned();
                push_decimal(&mut words, width as u64);
                words.append("x");
                push_decimal(&mut words, height as u64);
                words.append(" does not match niri geometry ");
                push_decimal(&mut words, output.width as u64);
                words.append("x");
                push_decimal(&mut words, output.height as u64);
                words.append(" at scale ");
                words.append(scale);
                words
            },
        }
    }
}

/// Checks the geometry of an output. `fits` says whether the frame is as large as the scaled
/// output, to the pixel.
pub fn validate_output_geometry(output: &OutputGeometry, fits: bool) -> (result: Result<
    (),
    GeometryError,
>)
    ensures
        result == if output.transform@ != "Normal"@ {
            Err::<(), GeometryError>(GeometryError::Transform)
        } else if !fits {
            Err::<(), GeometryError>(GeometryError::Size)
        } else {
            Ok::<(), GeometryError>(())
        },
{
    if !same(output.transform.as_str(), "Normal") {
        return Err(GeometryError::Transform);
    }
    if !fits {
        return Err(GeometryError::Size);
    }
    Ok(())
}

/// Whether a damaged rectangle and the visible pixels have a pixel in common.
pub open spec fn overlaps(rect: DamageRect, viewport: ViewportRect) -> bool {
    &&& rect.x < kitty::saturated(viewport.x, viewport.width)
    &&& viewport.x < kitty::saturated(rect.x, rect.width)
    &&& rect.y < kitty::saturated(viewport.y, viewport.height)
    &&& viewport.y < kitty::saturated(rect.y, rect.height)
}

/// Whether damage may show. Where nothing is reported, anything may have changed.
pub fn damage_affects_viewport(damage: &[DamageRect], viewport: ViewportRect) -> (affects: bool)
    ensures
        affects == (damage@.len() == 0 || exists|i: int|
            0 <= i < damage@.len() && overlaps(#[trigger] damage@[i], viewport)),
{
    if damage.len() == 0 {
        return true;
    }
    let mut i: usize = 0;
    while i < damage.len()
        invariant
            i <= damage@.len(),
            forall|j: int| 0 <= j < i ==> !overlaps(#[trigger] damage@[j], viewport),
        decreases damage@.len() - i,
    {
        let rect = damage[i];
        if rect.x < viewport.x.saturating_add(viewport.width) && viewport.x < rect.x.saturating_add(
            rect.width,
        ) && rect.y < viewport.y.saturating_add(viewport.height) && viewport.y
            < rect.y.saturating_add(rect.height) {
            assert(overlaps(damage@[i as int], viewport));
            return true;
        }
        i = i + 1;
    }
    false
}

/// Whether two frames differ in the visible pixels, or cannot be compared there.
pub fn visible_region_changed(old_frame: &RgbImage, new_frame: &RgbImage, viewport: ViewportRect) -> (
    changed: bool)
    requires
        old_frame.wf(),
        new_frame.wf(),
        // Pixels beyond these could not be addressed.
        old_frame.width < u32::MAX || viewport.x + viewport.width <= u32::MAX,
        old_frame.height < u32::MAX || viewport.y + viewport.height <= u32::MAX,
    ensures
        changed == if old_frame.width != new_frame.width || old_frame.height != new_frame.height
            || viewport.x + viewport.width > old_frame.width || viewport.y + viewport.height
            > old_frame.height {
            true
        } else {
            old_frame@.crop(
                viewport.x as int,
                viewport.y as int,
                viewport.width as nat,
                viewport.height as nat,
            ) != new_frame@.crop(
                viewport.x as int,
                viewport.y as int,
                viewport.width as nat,
                viewport.height as nat,
            )
        },
{
    if old_frame.width != new_frame.width || old_frame.height != new_frame.height
        || viewport.x.saturating_add(viewport.width) > old_frame.width
        || viewport.y.saturating_add(viewport.height) > old_frame.height {
        return true;
    }
    old_frame.differs_in(new_frame, viewport.x, viewport.y, viewport.width, viewport.height)
}

/// So many spaces.
pub open spec fn spaces(count: nat) -> Seq<char> {
    Seq::new(count, |i: int| ' ')
}

/// A text of an exact width: cut off, or filled with spaces.
pub open spec fn fitted(status: Seq<char>, width: nat) -> Seq<char> {
    if status.len() >= width {
        status.take(width as int)
    } else {
        status + spaces((width - status.len()) as nat)
    }
}

/// Brings a text to an exact width.
pub fn fit_status(status: &str, width: usize) -> (line: String)
    ensures
        line@ == fitted(status@, width as nat),
        line@.len() == width,
{
    let chars = chars_of(status);
    let mut line = String::new();
    let mut i: usize = 0;
    assert(line@ =~= fitted(status@, width as nat).take(0));
    while i < width
        invariant
            i <= width,
            chars@ == status@,
            line@ == fitted(status@, width as nat).take(i as int),
        decreases width - i,
    {
        if i < chars.len() {
            line.push(chars[i]);
        } else {
            line.push(' ');
        }
        assert(line@ =~= fitted(status@, width as nat).take(i + 1));
        i = i + 1;
    }
    assert(fitted(status@, width as nat).take(width as int) =~= fitted(status@, width as nat));
    line
}

/// The number reduced by two, and not below zero.
pub open spec fn less_two(rows: u16) -> u16 {
    if rows >= 2 {
        (rows - 2) as u16
    } else {
        0
    }
}

/// What clears the cells from a column to the end of each of the first `count` rows.
pub open spec fn cleared_ends(col: nat, count: int) -> Seq<u8>
    decreases count,
{
    if count <= 0 {
        seq![]
    } else {
        cleared_ends(col, count - 1) + encode_utf8(kitty::cursor_move(count as nat, col + 1))
            + encode_utf8("\x1b[K"@)
    }
}

/// What clears the rows from `first` to before `end`.
pub open spec fn cleared_rows(first: int, end: int) -> Seq<u8>
    decreases end - first,
{
    if end <= first {
        seq![]
    } else {
        cleared_rows(first, end - 1) + encode_utf8(kitty::cursor_move(end as nat, 1)) + encode_utf8(
            "\x1b[2K"@,
        )
    }
}

/// What clears the cells that an earlier image took and the present one does not, above the lines
/// at the bottom.
pub open spec fn stale_cells(
    previous: DrawLayout,
    current: DrawLayout,
    terminal_rows: u16,
) -> Seq<u8> {
    let mode_y = less_two(terminal_rows) as int;
    let both = arith::min_of(
        arith::min_of(previous.rows as int, current.rows as int),
        mode_y,
    );
    (if previous.cols > current.cols {
        cleared_ends(current.cols as nat, both)
    } else {
        seq![]
    }) + cleared_rows(current.rows as int, arith::min_of(previous.rows as int, mode_y))
}

/// Clears the rows from `first` to before `end`.
pub fn clear_rows(bytes: &mut Vec<u8>, first: u16, end: u16)
    ensures
        final(bytes)@ == old(bytes)@ + cleared_rows(first as int, end as int),
{
    let mut row: u16 = first;
    assert(bytes@ =~= old(bytes)@ + cleared_rows(first as int, row as int));
    while row < end
        invariant
            first <= row,
            row <= end || row == first,
            bytes@ == old(bytes)@ + cleared_rows(first as int, row as int),
        decreases end - row,
    {
        let position = cursor_text(row as u64 + 1, 1);
        push_text(bytes, position.as_str());
        push_text(bytes, "\x1b[2K");
        row = row + 1;
        assert(bytes@ =~= old(bytes)@ + cleared_rows(first as int, row as int));
    }
    assert(cleared_rows(first as int, row as int) == cleared_rows(
        first as int,
        end as int,
    ));
}

/// Clears the cells that an earlier image took and the present one does not.
pub fn clear_stale_kitty_cells(
    previous: DrawLayout,
    current: DrawLayout,
    terminal_rows: u16,
) -> (bytes: Vec<u8>)
    ensures
        bytes@ == stale_cells(previous, current, terminal_rows),
{
    let mode_y: u16 = terminal_rows.saturating_sub(2);
    let mut bytes: Vec<u8> = Vec::new();
    let top: u16 = if previous.rows < mode_y {
        previous.rows
    } else {
        mode_y
    };
    let both: u16 = if top < current.rows {
        top
    } else {
        current.rows
    };
    if previous.cols > current.cols {
        let mut row: u16 = 0;
        assert(bytes@ =~= cleared_ends(current.cols as nat, 0));
        while row < both
            invariant
                row <= both,
                bytes@ == cleared_ends(current.cols as nat, row as int),
            decreases both - row,
        {
            let position = cursor_text(row as u64 + 1, current.cols as u64 + 1);
            push_text(&mut bytes, position.as_str());
            push_text(&mut bytes, "\x1b[K");
            row = row + 1;
            assert(bytes@ =~= cleared_ends(current.cols as nat, row as int));
        }
    }
    clear_rows(&mut bytes, current.rows, top);
    assert(bytes@ =~= stale_cells(previous, current, terminal_rows));
    bytes
}

/// Nothing is cleared where the image did not shrink.
pub proof fn lemma_growth_clears_nothing(
    previous: DrawLayout,
    current: DrawLayout,
    terminal_rows: u16,
)
    requires
        previous.cols <= current.cols,
        previous.rows <= current.rows,
    ensures
        stale_cells(previous, current, terminal_rows) == Seq::<u8>::empty(),
{
    assert(stale_cells(previous, current, terminal_rows) =~= Seq::<u8>::empty());
}

/// Damage to a visible pixel always counts.
pub proof fn lemma_visible_damage_counts(rect: DamageRect, viewport: ViewportRect, x: u32, y: u32)
    requires
        rect.x <= x < rect.x + rect.width,
        rect.y <= y < rect.y + rect.height,
        viewport.x <= x < viewport.x + viewport.width,
        viewport.y <= y < viewport.y + viewport.height,
        x < u32::MAX,
        y < u32::MAX,
    ensures
        overlaps(rect, viewport),
{
}

} // verus!
