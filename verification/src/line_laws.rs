//! What the two lines below the image say, and where.

use crate::cells;
use crate::cells::Cell;
use crate::config;
use crate::config::ResolutionError;
use crate::config_laws;
use crate::draw;
use crate::draw::DrawRequest;
use crate::kitty;
use crate::layout;
use crate::layout::DrawLayout;
use crate::palette_laws;
use crate::quality;
use crate::render_laws;
use crate::screen;
use crate::screen::Chrome;
use crate::terminal::TerminalModel;
use crate::text;
use crate::viewer::{DisplaySetting, InteractionMode, ScrollTarget, ViewerModel};
use vstd::prelude::*;
use vstd::utf8::*;

verus! {

proof fn lemma_occurs(before: Seq<char>, part: Seq<char>, after: Seq<char>)
    ensures
        palette_laws::occurs(part, before + part + after),
{
    let all = before + part + after;
    assert(all.skip(before.len() as int).take(part.len() as int) =~= part);
}

/// What the line of the mode says of the mouse.
pub open spec fn mouse_told(state: ViewerModel) -> Seq<char> {
    if state.control && state.mouse_armed {
        "Mouse on"@
    } else if state.control {
        "Mouse off"@
    } else {
        "View only"@
    }
}

/// The line of the mode names the output, the mode and the magnification, and says what the mouse
/// does, where the wheel scrolls the desktop and where the desktop is kept awake.
pub proof fn lemma_mode_told(model: TerminalModel, state: ViewerModel, chrome: &Chrome)
    ensures
        ({
            let words = screen::status_words(model, state, chrome);
            &&& palette_laws::occurs(chrome.output_name@, words)
            &&& palette_laws::occurs(
                if state.mode == InteractionMode::Nav {
                    "Navigation"@
                } else {
                    "Keyboard"@
                },
                words,
            )
            &&& palette_laws::occurs(chrome.zoom@, words)
            &&& palette_laws::occurs(mouse_told(state), words)
            &&& state.scroll_target == ScrollTarget::Desktop ==> palette_laws::occurs(
                " · Desktop scroll"@,
                words,
            )
            &&& state.idle_inhibited ==> palette_laws::occurs(" · Keep awake"@, words)
            &&& palette_laws::occurs("? Help"@, words)
        }),
{
    reveal(screen::status_words);
    let scroll = if state.scroll_target == ScrollTarget::Desktop {
        " · Desktop scroll"@
    } else {
        seq![]
    };
    let awake = if state.idle_inhibited {
        " · Keep awake"@
    } else {
        seq![]
    };
    let help = screen::help_words(state.mode);
    let c1 = " Termway · "@;
    let c2 = c1 + chrome.output_name@;
    let c3 = c2 + " · "@;
    let c4 = c3 + screen::mode_words(state.mode);
    let c5 = c4 + " · "@;
    let c6 = c5 + chrome.zoom@;
    let c7 = c6 + "× · "@;
    let c8 = c7 + screen::graphics_words(model, state);
    let c9 = c8 + " · "@;
    let c10 = c9 + screen::mouse_words(state);
    let c11 = c10 + scroll;
    let c12 = c11 + awake;
    let c13 = c12 + " · "@;
    let c14 = c13 + help;
    lemma_appended(c1, chrome.output_name@);
    lemma_appended(c2, " · "@);
    lemma_appended(c3, screen::mode_words(state.mode));
    lemma_appended(c4, " · "@);
    lemma_appended(c5, chrome.zoom@);
    lemma_appended(c6, "× · "@);
    lemma_appended(c7, screen::graphics_words(model, state));
    lemma_appended(c8, " · "@);
    lemma_appended(c9, screen::mouse_words(state));
    lemma_appended(c10, scroll);
    lemma_appended(c11, awake);
    lemma_appended(c12, " · "@);
    lemma_help_told(c13, state.mode);
    lemma_appended(c13, help);
    lemma_appended(c14, " "@);
    assert(screen::status_words(model, state, chrome) == c14 + " "@);
}

proof fn lemma_help_told(before: Seq<char>, mode: InteractionMode)
    ensures
        palette_laws::occurs("? Help"@, before + screen::help_words(mode)),
{
    reveal_strlit("C-\\ ? Help");
    reveal_strlit("? Help");
    let help = screen::help_words(mode);
    let lead = if mode == InteractionMode::Input {
        seq!['C', '-', '\\', ' ']
    } else {
        seq![]
    };
    assert(help =~= lead + "? Help"@);
    assert(before + help =~= (before + lead) + "? Help"@ + Seq::<char>::empty());
    lemma_occurs(before + lead, "? Help"@, Seq::empty());
}

/// What occurs in a text still does where more is put behind it, and so does what is put there.
proof fn lemma_appended(first: Seq<char>, more: Seq<char>)
    ensures
        palette_laws::occurs(more, first + more),
        forall|part: Seq<char>|
            palette_laws::occurs(part, first) ==> #[trigger] palette_laws::occurs(
                part,
                first + more,
            ),
{
    assert(first + more =~= first + more + Seq::<char>::empty());
    lemma_occurs(first, more, Seq::empty());
    assert forall|part: Seq<char>| palette_laws::occurs(part, first) implies #[trigger]
        palette_laws::occurs(part, first + more) by {
        let at = choose|at: int|
            0 <= at && at + part.len() <= first.len() && #[trigger] first.skip(at).take(
                part.len() as int,
            ) == part;
        assert((first + more).skip(at).take(part.len() as int) =~= first.skip(at).take(
            part.len() as int,
        ));
    }
}

/// The line of the mode stands in the last row but one and the last line in the last row. The line
/// of the mode is shown in reverse, and bold while the pointer or the wheel goes to the desktop.
pub proof fn lemma_lines_placed(rows: u16, line: Seq<char>, active: bool)
    requires
        rows >= 2,
    ensures
        ({
            let mode_y = layout::less_two(rows);
            let bytes = screen::mode_line_bytes(mode_y, line, active);
            let lead = encode_utf8(kitty::cursor_move((rows - 1) as nat, 1)) + encode_utf8(
                "\x1b[0m"@,
            ) + encode_utf8("\x1b[7m"@) + if active {
                encode_utf8("\x1b[1m"@)
            } else {
                seq![]
            };
            bytes.take((lead + encode_utf8(line)).len() as int) == lead + encode_utf8(line)
        }),
        ({
            let bytes = screen::echo_bytes((rows - 1) as u16, line);
            let lead = encode_utf8(kitty::cursor_move(rows as nat, 1));
            &&& bytes.take(lead.len() as int) == lead
            &&& bytes.skip(bytes.len() - encode_utf8(line).len()) == encode_utf8(line)
        }),
{
    reveal(screen::mode_line_bytes);
    reveal(screen::echo_bytes);
    let mode_y = layout::less_two(rows);
    let bytes = screen::mode_line_bytes(mode_y, line, active);
    let lead = encode_utf8(kitty::cursor_move((rows - 1) as nat, 1)) + encode_utf8("\x1b[0m"@)
        + encode_utf8("\x1b[7m"@) + if active {
        encode_utf8("\x1b[1m"@)
    } else {
        seq![]
    };
    assert(bytes.take((lead + encode_utf8(line)).len() as int) =~= lead + encode_utf8(line));
    let echo = screen::echo_bytes((rows - 1) as u16, line);
    let start = encode_utf8(kitty::cursor_move(rows as nat, 1));
    assert(echo.take(start.len() as int) =~= start);
    assert(echo.skip(echo.len() - encode_utf8(line).len()) =~= encode_utf8(line));
}

/// The pointer or the wheel goes to the desktop where the mouse is armed or the wheel is aimed so.
pub proof fn lemma_bold_when_active(state: ViewerModel)
    ensures
        screen::pointer_active(state) <==> state.mouse_armed || state.scroll_target
            == ScrollTarget::Desktop,
{
}

/// The last line shows the display settings while they are open, or else the palette while that is
/// open, or else the message, or else nothing.
pub proof fn lemma_last_line(model: TerminalModel, state: ViewerModel)
    ensures
        ({
            let words = screen::echo_words(model, state);
            &&& state.display_settings is Some && model.kitty is Some ==> {
                &&& state.display_settings->0 == DisplaySetting::Quality ==> palette_laws::occurs(
                    model.graphics_config.quality.name(),
                    words,
                )
                &&& state.display_settings->0 == DisplaySetting::Resolution
                    ==> palette_laws::occurs(
                    quality::size_name(model.limits[model.ceiling as int]),
                    words,
                )
            }
            &&& state.display_settings is None && state.palette is Some ==> palette_laws::occurs(
                (state.palette->0).0,
                words,
            )
            &&& state.display_settings is None && state.palette is None ==> words
                == match state.message {
                Some((said, _)) => said,
                None => seq![],
            }
        }),
{
    reveal(screen::echo_words);
    let words = screen::echo_words(model, state);
    if state.display_settings is Some && model.kitty is Some {
        let open = "Display settings · "@;
        let end = " · ↑↓ choose · ←→ change · Enter done"@;
        if state.display_settings->0 == DisplaySetting::Quality {
            let policy = model.graphics_config.quality;
            let before = open + "Quality  ‹ "@;
            let after = " › — "@ + policy.words() + end;
            assert(words =~= before + policy.name() + after);
            lemma_occurs(before, policy.name(), after);
        } else {
            let size = quality::size_name(model.limits[model.ceiling as int]);
            let before = open + "Resolution  ‹ "@;
            let after = " › — maximum detail"@ + end;
            assert(words =~= before + size + after);
            lemma_occurs(before, size, after);
        }
    } else if state.display_settings is None && state.palette is Some {
        let (query, selected) = state.palette->0;
        let lead = "M-x "@;
        assert(words.take((lead + query).len() as int) =~= lead + query);
        let rest = words.skip((lead + query).len() as int);
        assert(words =~= lead + query + rest);
        lemma_occurs(lead, query, rest);
    }
}

/// What the graphics are doing is told with the resolution: that which will come while the image is
/// still loading, and else the one in use and the policy.
pub proof fn lemma_graphics_told(model: TerminalModel, state: ViewerModel)
    requires
        model.kitty is Some,
    ensures
        ({
            let words = screen::graphics_words(model, state);
            let size = if model.kitty_previewing {
                quality::size_name(model.limits[model.ceiling as int])
            } else {
                quality::size_name(model.limits[model.tier as int])
            };
            &&& words.take(size.len() as int) == size
            &&& !model.kitty_previewing ==> palette_laws::occurs(
                model.graphics_config.quality.name(),
                words,
            )
        }),
{
    let words = screen::graphics_words(model, state);
    let size = if model.kitty_previewing {
        quality::size_name(model.limits[model.ceiling as int])
    } else {
        quality::size_name(model.limits[model.tier as int])
    };
    assert(words.take(size.len() as int) =~= size);
    if !model.kitty_previewing {
        let policy = model.graphics_config.quality.name();
        assert(words =~= (size + " "@) + policy + Seq::<char>::empty());
        lemma_occurs(size + " "@, policy, Seq::empty());
    }
}

/// The name of a resolution that has not the usual shape is read back as that resolution. One of
/// the usual shape is named after its height.
pub proof fn lemma_size_named(size: (u32, u32))
    ensures
        size.0 * 9 != size.1 * 16 ==> config::resolution_of(quality::size_name(size)) == Ok::<
            (u32, u32),
            ResolutionError,
        >(size),
        size.0 * 9 == size.1 * 16 ==> quality::size_name(size) == text::decimal(
            size.1 as nat,
        ).push('p'),
{
    reveal_strlit("x");
    reveal_strlit("p");
    let none = Seq::<char>::empty();
    config_laws::lemma_resolution_read(size.0, size.1, none, none);
    if size.0 * 9 != size.1 * 16 {
        assert(quality::size_name(size) =~= none + text::decimal(size.0 as nat) + seq!['x']
            + text::decimal(size.1 as nat) + none);
    } else {
        assert(quality::size_name(size) =~= text::decimal(size.1 as nat).push('p'));
    }
}

/// What is written for a line goes out once: with Kitty graphics it waits behind what waits, and
/// else it must be written at once.
pub proof fn lemma_written_once(model: TerminalModel, bytes: Seq<u8>)
    ensures
        text::joined(screen::queued(model, bytes).control) + screen::unqueued(model, bytes)
            == text::joined(model.output.control) + bytes,
        screen::queued(model, bytes).graphics == model.output.graphics,
        screen::queued(model, bytes).active == model.output.active,
        model.kitty is Some ==> screen::unqueued(model, bytes).len() == 0,
{
    let control = model.output.control;
    if model.kitty is Some {
        if bytes.len() > 0 {
            assert(control.push(bytes).drop_last() =~= control);
            assert(text::joined(control.push(bytes)) =~= text::joined(control) + bytes);
            assert(text::joined(control.push(bytes)) + Seq::<u8>::empty() =~= text::joined(control)
                + bytes);
        } else {
            assert(text::joined(control) + Seq::<u8>::empty() =~= text::joined(control) + bytes);
        }
    }
}

/// Where the cells that are shown are known, only the changes are written where they are shorter.
/// Cells that are all shown already write nothing. Where the image lies elsewhere, all cells are
/// written from the top left on, and the rows below them are cleared.
pub proof fn lemma_cells_written(
    last: Option<(DrawLayout, u16, Seq<Cell>)>,
    layout: DrawLayout,
    mode_y: u16,
    cells: Seq<Cell>,
)
    requires
        layout.cols > 0,
    ensures
        ({
            let bytes = screen::cells_output(last, layout, mode_y, cells);
            let all = encode_utf8(kitty::cursor_move(1, 1)) + cells::frame_bytes(
                cells,
                layout.cols as int,
                layout.rows as int,
            ) + layout::cleared_rows(layout.rows as int, mode_y as int);
            let same_place = last is Some && (last->0).0 == layout && (last->0).1 == mode_y;
            &&& !same_place ==> bytes == all
            &&& bytes == all || same_place && bytes == cells::cell_diff(
                (last->0).2,
                cells,
                layout.cols as int,
            )
            &&& bytes.len() <= all.len()
            &&& same_place && (last->0).2 == cells ==> bytes.len() == 0
        }),
{
    if last is Some && (last->0).2 == cells {
        render_laws::lemma_diff_empty((last->0).2, cells, layout.cols as int);
    }
}

/// An image in cells shows the visible part of the frame, two pixels of its sample in each cell,
/// and lies inside the cells for the image.
pub proof fn lemma_cells_sample(frame: crate::pixels::Pixels, request: &DrawRequest)
    requires
        request.shows(frame),
        request.rect.height * request.max_cols() < 0x1_0000_0000 * request.rect.width,
    ensures
        ({
            let layout = screen::cells_layout(frame, request);
            let size = cells::sample_size(request.rect, request.max_cols(), request.max_rows());
            &&& 1 <= layout.cols <= draw::cols_for(request.cols)
            &&& 1 <= layout.rows <= draw::rows_for(request.rows)
            &&& layout.cols == size.0
            &&& size.1 <= 2 * layout.rows <= size.1 + 1
            &&& size.0 == draw::cols_for(request.cols) || size.1 == 2 * draw::rows_for(request.rows)
            &&& layout.viewport == request.rect
            &&& layout.source_width == frame.width && layout.source_height == frame.height
        }),
{
    render_laws::lemma_fit_within(
        request.rect.width,
        request.rect.height,
        request.max_cols() as u32,
        (request.max_rows() * 2) as u32,
    );
}

/// Both lines are drawn where the terminal has two rows, and what they show is remembered. A terminal
/// of one row has no last line.
pub proof fn lemma_lines_drawn(model: TerminalModel, state: ViewerModel, chrome: &Chrome)
    ensures
        ({
            let after = screen::chrome_outcome(model, state, chrome).0;
            &&& chrome.rows >= 2 ==> after.last_echo == Some(
                (
                    (chrome.rows - 1) as u16,
                    screen::echo_line(after, state, chrome.cols),
                ),
            )
            &&& chrome.rows >= 2 ==> after.last_mode_line == Some(
                (
                    (chrome.rows - 2) as u16,
                    screen::mode_line(model, state, chrome),
                    screen::pointer_active(state),
                ),
            )
            &&& chrome.rows <= 1 ==> after.last_echo == model.last_echo
        }),
        screen::mode_line(model, state, chrome).len() == chrome.cols,
        screen::echo_line(model, state, chrome.cols).len() == chrome.cols,
{
    reveal(screen::mode_line);
    reveal(screen::echo_line);
    reveal(screen::echo_words);
}

} // verus!
