//! What the program tells about the session, and the size of a picture that is printed once.

use crate::discovery::Source;
use crate::niri::{OutputGeometry, Snapshot};
use crate::text;
use crate::text::{push_decimal, push_signed, same};
use vstd::prelude::*;

verus! {

/// The cells that a picture may take: what was asked for, or what the terminal has. One row is
/// kept for the prompt. Where the terminal does not say, it is taken to have 100 columns and 30
/// rows.
pub open spec fn picture_cells(
    cols: Option<u16>,
    rows: Option<u16>,
    terminal: Option<(u16, u16)>,
) -> (u16, u16) {
    let (columns, lines) = match terminal {
        Some(size) => size,
        None => (100, 30),
    };
    let width = match cols {
        Some(cols) => cols,
        None => columns,
    };
    let height = match rows {
        Some(rows) => rows,
        None => if lines > 0 {
            (lines - 1) as u16
        } else {
            0
        },
    };
    (
        if width > 0 {
            width
        } else {
            1
        },
        if height > 0 {
            height
        } else {
            1
        },
    )
}

/// The cells that a picture may take.
pub fn capture_size(cols: Option<u16>, rows: Option<u16>, terminal: Option<(u16, u16)>) -> (cells: (
    u16,
    u16,
))
    ensures
        cells == picture_cells(cols, rows, terminal),
{
    let (columns, lines) = match terminal {
        Some(size) => size,
        None => (100, 30),
    };
    let width: u16 = match cols {
        Some(cols) => cols,
        None => columns,
    };
    let height: u16 = match rows {
        Some(rows) => rows,
        None => lines.saturating_sub(1),
    };
    (
        if width > 0 {
            width
        } else {
            1
        },
        if height > 0 {
            height
        } else {
            1
        },
    )
}

/// A number with its sign.
pub open spec fn offset(value: i32) -> Seq<char> {
    if value < 0 {
        text::signed(value as int)
    } else {
        "+"@ + text::decimal(value as nat)
    }
}

fn push_offset(out: &mut String, value: i32)
    ensures
        final(out)@ == old(out)@ + offset(value),
{
    if value < 0 {
        push_signed(out, value as i64);
    } else {
        out.append("+");
        push_decimal(out, value as u64);
        assert(out@ =~= old(out)@ + offset(value));
    }
}

/// The line for one output. `scale` is its scale in words.
pub open spec fn output_words(output: &OutputGeometry, scale: Seq<char>, focused: bool) -> Seq<
    char,
> {
    "    "@ + output.name@ + (if focused {
        " focused"@
    } else {
        ""@
    }) + ": "@ + text::decimal(output.width as nat) + "x"@ + text::decimal(output.height as nat)
        + " at "@ + offset(output.x) + ","@ + offset(output.y) + ", scale "@ + scale
        + ", transform "@ + output.transform@
}

/// The line for one output.
pub fn output_line(output: &OutputGeometry, scale: &str, focused_output: &Option<String>) -> (line:
    String)
    ensures
        line@ == output_words(
            output,
            scale@,
            *focused_output matches Some(name) && name@ == output.name@,
        ),
{
    let focused = match focused_output {
        Some(name) => same(name.as_str(), output.name.as_str()),
        None => false,
    };
    let mut line = "    ".to_owned();
    line.append(output.name.as_str());
    line.append(
        if focused {
            " focused"
        } else {
            ""
        },
    );
    line.append(": ");
    push_decimal(&mut line, output.width as u64);
    line.append("x");
    push_decimal(&mut line, output.height as u64);
    line.append(" at ");
    push_offset(&mut line, output.x);
    line.append(",");
    push_offset(&mut line, output.y);
    line.append(", scale ");
    line.append(scale);
    line.append(", transform ");
    line.append(output.transform.as_str());
    line
}

/// A value, or a word where there is none.
pub open spec fn or_words(value: Option<String>, word: Seq<char>) -> Seq<char> {
    match value {
        Some(value) => value@,
        None => word,
    }
}

/// The lines before those for the outputs.
pub open spec fn session_words(
    runtime_dir: Seq<char>,
    socket: Seq<char>,
    source: Source,
    display: Option<String>,
    snapshot: &Snapshot,
    enabled: nat,
) -> Seq<char> {
    "termway doctor\n  runtime directory : "@ + runtime_dir + "\n  niri socket       : "@ + socket
        + "\n  socket source     : "@ + source.says() + "\n  Wayland display   : "@ + or_words(
        display,
        "not discovered"@,
    ) + "\n  niri version      : "@ + snapshot.version@ + "\n  outputs           : "@
        + text::decimal(snapshot.output_count as nat) + " ("@ + text::decimal(enabled)
        + " enabled)"@
}

/// The lines before those for the outputs.
pub fn session_report(
    runtime_dir: &str,
    socket: &str,
    source: Source,
    display: &Option<String>,
    snapshot: &Snapshot,
    enabled: usize,
) -> (lines: String)
    ensures
        lines@ == session_words(
            runtime_dir@,
            socket@,
            source,
            *display,
            snapshot,
            enabled as nat,
        ),
{
    let mut lines = "termway doctor\n  runtime directory : ".to_owned();
    lines.append(runtime_dir);
    lines.append("\n  niri socket       : ");
    lines.append(socket);
    lines.append("\n  socket source     : ");
    lines.append(source.words());
    lines.append("\n  Wayland display   : ");
    lines.append(
        match display {
            Some(display) => display.as_str(),
            None => "not discovered",
        },
    );
    lines.append("\n  niri version      : ");
    lines.append(snapshot.version.as_str());
    lines.append("\n  outputs           : ");
    push_decimal(&mut lines, snapshot.output_count as u64);
    lines.append(" (");
    push_decimal(&mut lines, enabled as u64);
    lines.append(" enabled)");
    lines
}

/// The lines after those for the outputs.
pub open spec fn window_words(snapshot: &Snapshot) -> Seq<char> {
    "  windows           : "@ + text::decimal(snapshot.window_count as nat)
        + "\n  focused window    : "@ + or_words(snapshot.focused_window, "none"@)
}

/// The lines after those for the outputs.
pub fn window_report(snapshot: &Snapshot) -> (lines: String)
    ensures
        lines@ == window_words(snapshot),
{
    let mut lines = "  windows           : ".to_owned();
    push_decimal(&mut lines, snapshot.window_count as u64);
    lines.append("\n  focused window    : ");
    lines.append(
        match &snapshot.focused_window {
            Some(window) => window.as_str(),
            None => "none",
        },
    );
    lines
}

} // verus!
