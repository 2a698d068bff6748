//! Unicode placeholders: cells whose marks say which cell of which image they show.

use crate::text;
use crate::text::{push_decimal, push_segment, push_text};
use vstd::prelude::*;
use vstd::utf8::*;

verus! {

/// The character that stands for one cell of an image.
pub const PLACEHOLDER: char = '\u{10eeee}';

/// The number of marks, and so of rows and columns that can be numbered.
pub const DIACRITIC_COUNT: usize = 297;

/// The combining marks that number rows and columns, as inclusive ranges of code points. The
/// complete table lets wide panes be addressed without reference to the cell to the left.
pub const DIACRITIC_RANGES: [(u32, u32); 86] = [
    (0x0305, 0x0305),
    (0x030D, 0x030E),
    (0x0310, 0x0310),
    (0x0312, 0x0312),
    (0x033D, 0x033F),
    (0x0346, 0x0346),
    (0x034A, 0x034C),
    (0x0350, 0x0352),
    (0x0357, 0x0357),
    (0x035B, 0x035B),
    (0x0363, 0x036F),
    (0x0483, 0x0487),
    (0x0592, 0x0595),
    (0x0597, 0x0599),
    (0x059C, 0x05A1),
    (0x05A8, 0x05A9),
    (0x05AB, 0x05AC),
    (0x05AF, 0x05AF),
    (0x05C4, 0x05C4),
    (0x0610, 0x0617),
    (0x0657, 0x065B),
    (0x065D, 0x065E),
    (0x06D6, 0x06DC),
    (0x06DF, 0x06E2),
    (0x06E4, 0x06E4),
    (0x06E7, 0x06E8),
    (0x06EB, 0x06EC),
    (0x0730, 0x0730),
    (0x0732, 0x0733),
    (0x0735, 0x0736),
    (0x073A, 0x073A),
    (0x073D, 0x073D),
    (0x073F, 0x0741),
    (0x0743, 0x0743),
    (0x0745, 0x0745),
    (0x0747, 0x0747),
    (0x0749, 0x074A),
    (0x07EB, 0x07F1),
    (0x07F3, 0x07F3),
    (0x0816, 0x0819),
    (0x081B, 0x0823),
    (0x0825, 0x0827),
    (0x0829, 0x082D),
    (0x0951, 0x0951),
    (0x0953, 0x0954),
    (0x0F82, 0x0F83),
    (0x0F86, 0x0F87),
    (0x135D, 0x135F),
    (0x17DD, 0x17DD),
    (0x193A, 0x193A),
    (0x1A17, 0x1A17),
    (0x1A75, 0x1A7C),
    (0x1B6B, 0x1B6B),
    (0x1B6D, 0x1B73),
    (0x1CD0, 0x1CD2),
    (0x1CDA, 0x1CDB),
    (0x1CE0, 0x1CE0),
    (0x1DC0, 0x1DC1),
    (0x1DC3, 0x1DC9),
    (0x1DCB, 0x1DCC),
    (0x1DD1, 0x1DE6),
    (0x1DFE, 0x1DFE),
    (0x20D0, 0x20D1),
    (0x20D4, 0x20D7),
    (0x20DB, 0x20DC),
    (0x20E1, 0x20E1),
    (0x20E7, 0x20E7),
    (0x20E9, 0x20E9),
    (0x20F0, 0x20F0),
    (0x2CEF, 0x2CF1),
    (0x2DE0, 0x2DFF),
    (0xA66F, 0xA66F),
    (0xA67C, 0xA67D),
    (0xA6F0, 0xA6F1),
    (0xA8E0, 0xA8F1),
    (0xAAB0, 0xAAB0),
    (0xAAB2, 0xAAB3),
    (0xAAB7, 0xAAB8),
    (0xAABE, 0xAABF),
    (0xAAC1, 0xAAC1),
    (0xFE20, 0xFE26),
    (0x10A0F, 0x10A0F),
    (0x10A38, 0x10A38),
    (0x1D185, 0x1D189),
    (0x1D1AA, 0x1D1AD),
    (0x1D242, 0x1D244),
];

/// `char::from_u32` converts a code point unless it is a surrogate or lies past the last one.
pub assume_specification[ char::from_u32 ](i: u32) -> (c: Option<char>)
    ensures
        (i <= 0xd7ff || 0xe000 <= i <= 0x10ffff) ==> c == Some(i as char),
        !(i <= 0xd7ff || 0xe000 <= i <= 0x10ffff) ==> c is None,
;

/// The code point at `index` in the concatenation of the ranges from `range` on.
pub open spec fn nth_mark(range: int, index: int) -> Option<u32>
    decreases DIACRITIC_RANGES@.len() - range,
{
    if range < 0 || range >= DIACRITIC_RANGES@.len() {
        None
    } else {
        let (start, end) = DIACRITIC_RANGES@[range];
        if index < end - start + 1 {
            Some((start + index) as u32)
        } else {
            nth_mark(range + 1, index - (end - start + 1))
        }
    }
}

/// The number of code points in the ranges from `range` on.
pub open spec fn mark_count(range: int) -> int
    decreases DIACRITIC_RANGES@.len() - range,
{
    if range < 0 || range >= DIACRITIC_RANGES@.len() {
        0
    } else {
        let (start, end) = DIACRITIC_RANGES@[range];
        (end - start + 1) + mark_count(range + 1)
    }
}

/// The table numbers exactly `DIACRITIC_COUNT` rows or columns.
pub proof fn lemma_table_complete()
    ensures
        mark_count(0) == DIACRITIC_COUNT,
{
    reveal_with_fuel(mark_count, 90);
}

/// A range of code points that are all characters.
pub open spec fn is_mark_range(range: (u32, u32)) -> bool {
    range.0 <= range.1 && (range.1 <= 0xd7ff || (0xe000 <= range.0 && range.1 <= 0x10ffff))
}

proof fn lemma_mark_ranges()
    ensures
        forall|i: int|
            0 <= i < DIACRITIC_RANGES@.len() ==> is_mark_range(#[trigger] DIACRITIC_RANGES@[i]),
{
}

/// The mark that numbers a row or column.
pub open spec fn mark(index: int) -> Option<char> {
    if index >= DIACRITIC_COUNT {
        None
    } else {
        match nth_mark(0, index) {
            Some(point) => Some(point as char),
            None => None,
        }
    }
}

/// Every number below `DIACRITIC_COUNT` has a mark.
pub proof fn lemma_marked(index: int)
    requires
        0 <= index < DIACRITIC_COUNT,
    ensures
        mark(index) is Some,
{
    lemma_table_complete();
    lemma_nth_mark(0, index);
}

proof fn lemma_nth_mark(range: int, index: int)
    requires
        0 <= range,
        0 <= index < mark_count(range),
    ensures
        nth_mark(range, index) is Some,
    decreases DIACRITIC_RANGES@.len() - range,
{
    if range < DIACRITIC_RANGES@.len() {
        let (start, end) = DIACRITIC_RANGES@[range];
        if index >= end - start + 1 {
            lemma_nth_mark(range + 1, index - (end - start + 1));
        }
    }
}

/// The mark that numbers a row or column, where there is one.
pub fn diacritic(index: usize) -> (found: Option<char>)
    ensures
        found == mark(index as int),
{
    if index >= DIACRITIC_COUNT {
        return None;
    }
    let mut rest: usize = index;
    let mut range: usize = 0;
    proof {
        lemma_mark_ranges();
    }
    let table = DIACRITIC_RANGES;
    while range < 86
        invariant
            range <= 86,
            rest < DIACRITIC_COUNT,
            table == DIACRITIC_RANGES,
            nth_mark(range as int, rest as int) == nth_mark(0, index as int),
            forall|i: int|
                0 <= i < DIACRITIC_RANGES@.len() ==> is_mark_range(#[trigger] DIACRITIC_RANGES@[i]),
            index < DIACRITIC_COUNT,
        decreases 86 - range,
    {
        let (start, end) = table[range];
        assert(is_mark_range(DIACRITIC_RANGES@[range as int]));
        let length: u32 = end - start + 1;
        if (rest as u32) < length {
            return char::from_u32(start + rest as u32);
        }
        rest = rest - length as usize;
        range = range + 1;
    }
    None
}

/// One row of placeholder cells, numbered from the left.
pub open spec fn cells(row: int, cols: nat) -> Seq<char>
    decreases cols,
{
    if cols == 0 {
        seq![]
    } else {
        cells(row, (cols - 1) as nat) + seq![PLACEHOLDER, mark(row)->0, mark(cols - 1)->0]
    }
}

/// The numbers of the three bytes of a 24-bit colour, with separators.
pub open spec fn colour(value: u32) -> Seq<char> {
    text::decimal(((value / 65536) % 256) as nat) + ";"@ + text::decimal(
        ((value / 256) % 256) as nat,
    ) + ";"@ + text::decimal((value % 256) as nat)
}

/// Row `index` of the placeholder cells of a placement whose top left cell is at `col` and `row`.
/// The foreground colour carries the image and the underline colour the placement.
pub open spec fn placeholder_row(
    image_id: u32,
    placement_id: u32,
    col: u16,
    row: u16,
    cols: u16,
    index: int,
) -> Seq<char> {
    "\x1b["@ + text::decimal((row + index + 1) as nat) + ";"@ + text::decimal((col + 1) as nat)
        + "H\x1b[38;2;"@ + colour(image_id) + ";58;2;"@ + colour(placement_id) + "m"@ + cells(
        index,
        cols as nat,
    ) + "\x1b[0m"@
}

fn colour_text(value: u32) -> (numbers: String)
    ensures
        numbers@ == colour(value),
{
    let mut numbers = String::new();
    push_decimal(&mut numbers, ((value >> 16) & 0xff) as u64);
    numbers.append(";");
    push_decimal(&mut numbers, ((value >> 8) & 0xff) as u64);
    numbers.append(";");
    push_decimal(&mut numbers, (value & 0xff) as u64);
    proof {
        assert((value >> 16) & 0xff == (value / 65536) % 256) by (bit_vector);
        assert((value >> 8) & 0xff == (value / 256) % 256) by (bit_vector);
        assert(value & 0xff == value % 256) by (bit_vector);
        assert(numbers@ =~= colour(value));
    }
    numbers
}

fn row_text(
    image_id: u32,
    placement_id: u32,
    col: u16,
    row: u16,
    cols: u16,
    index: u16,
) -> (line: String)
    requires
        index < DIACRITIC_COUNT,
        cols <= DIACRITIC_COUNT,
    ensures
        line@ == placeholder_row(image_id, placement_id, col, row, cols, index as int),
{
    let mut line = "\x1b[".to_owned();
    push_decimal(&mut line, row as u64 + index as u64 + 1);
    line.append(";");
    push_decimal(&mut line, col as u64 + 1);
    line.append("H\x1b[38;2;");
    let image = colour_text(image_id);
    line.append(image.as_str());
    line.append(";58;2;");
    let placement = colour_text(placement_id);
    line.append(placement.as_str());
    line.append("m");
    let ghost head = line@;
    let mut i: u16 = 0;
    assert(head + cells(index as int, 0) =~= head);
    while i < cols
        invariant
            i <= cols <= DIACRITIC_COUNT,
            index < DIACRITIC_COUNT,
            line@ == head + cells(index as int, i as nat),
        decreases cols - i,
    {
        proof {
            lemma_marked(index as int);
            lemma_marked(i as int);
        }
        line.push(PLACEHOLDER);
        if let Some(c) = diacritic(index as usize) {
            line.push(c);
        }
        if let Some(c) = diacritic(i as usize) {
            line.push(c);
        }
        assert(line@ =~= head + cells(index as int, (i + 1) as nat));
        i = i + 1;
    }
    line.append("\x1b[0m");
    line
}

/// The placeholder cells of a placement, one segment for each row.
pub open spec fn placeholder_rows(
    image_id: u32,
    placement_id: u32,
    col: u16,
    row: u16,
    cols: u16,
    rows: u16,
) -> Seq<Seq<u8>> {
    Seq::new(
        rows as nat,
        |index: int|
            encode_utf8(placeholder_row(image_id, placement_id, col, row, cols, index)),
    )
}

/// Appends the placeholder cells of a placement.
pub fn push_placeholders(
    output: &mut Vec<Vec<u8>>,
    image_id: u32,
    placement_id: u32,
    col: u16,
    row: u16,
    cols: u16,
    rows: u16,
)
    requires
        cols <= DIACRITIC_COUNT,
        rows <= DIACRITIC_COUNT,
    ensures
        text::contents(final(output)@) == text::contents(old(output)@) + placeholder_rows(
            image_id,
            placement_id,
            col,
            row,
            cols,
            rows,
        ),
{
    let ghost all = placeholder_rows(image_id, placement_id, col, row, cols, rows);
    let mut i: u16 = 0;
    assert(text::contents(output@) =~= text::contents(old(output)@) + all.take(0));
    while i < rows
        invariant
            i <= rows <= DIACRITIC_COUNT,
            cols <= DIACRITIC_COUNT,
            all == placeholder_rows(image_id, placement_id, col, row, cols, rows),
            text::contents(output@) == text::contents(old(output)@) + all.take(i as int),
        decreases rows - i,
    {
        let line = row_text(image_id, placement_id, col, row, cols, i);
        let mut bytes: Vec<u8> = Vec::new();
        push_text(&mut bytes, line.as_str());
        assert(bytes@ =~= all[i as int]);
        push_segment(output, bytes);
        assert(text::contents(output@) =~= text::contents(old(output)@) + all.take(i + 1));
        i = i + 1;
    }
    assert(all.take(all.len() as int) =~= all);
}

} // verus!
