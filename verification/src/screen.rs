//! What stands in the terminal beside Kitty graphics: the image in cells, and the two lines at the
//! bottom.

use crate::arith;
use crate::cells;
use crate::cells::{encode_cell_diff, render_half_blocks_viewport, Cell};
use crate::draw;
use crate::draw::{image_cols, image_rows, DrawError, DrawRequest};
use crate::kitty;
use crate::kitty::cursor_text;
use crate::layout;
use crate::layout::{clear_rows, fit_status, DrawLayout};
use crate::pixels::{Pixels, RgbImage};
use crate::pump::PumpState;
use crate::quality;
use crate::render;
use crate::render::Viewport;
use crate::terminal;
use crate::terminal::{ImageCache, Terminal, TerminalModel};
use crate::text::{push_text, same};
use crate::viewer;
use crate::viewer::{DisplaySetting, InteractionMode, ScrollTarget, ViewerModel, ViewerState};
use vstd::prelude::*;
use vstd::utf8::*;

verus! {

/// What the line of the mode says beside the state: the output, the magnification in words, and
/// the size of the terminal.
pub struct Chrome {
    pub output_name: String,
    pub zoom: String,
    pub cols: u16,
    pub rows: u16,
}

/// The cells that an image in cells takes.
pub open spec fn cells_layout(frame: Pixels, request: &DrawRequest) -> DrawLayout {
    let sample = cells::sample_of(frame, request.rect, request.max_cols(), request.max_rows());
    DrawLayout {
        cols: sample.width as u16,
        rows: arith::ceiling(sample.height as int, 2) as u16,
        sample_height: sample.height as u16,
        viewport: request.rect,
        source_width: frame.width as u32,
        source_height: frame.height as u32,
    }
}

/// What is written to draw all cells, and to clear the rows below them.
pub open spec fn redrawn(layout: DrawLayout, mode_y: u16, cells: Seq<Cell>) -> Seq<u8> {
    encode_utf8(kitty::cursor_move(1, 1)) + cells::frame_bytes(
        cells,
        layout.cols as int,
        layout.rows as int,
    ) + layout::cleared_rows(layout.rows as int, mode_y as int)
}

/// What is written to show cells: the changes where they are shorter, or all cells.
pub open spec fn cells_output(
    last: Option<(DrawLayout, u16, Seq<Cell>)>,
    layout: DrawLayout,
    mode_y: u16,
    cells: Seq<Cell>,
) -> Seq<u8> {
    let full = cells::frame_bytes(cells, layout.cols as int, layout.rows as int);
    match last {
        Some((before, y, shown)) => if before == layout && y == mode_y {
            let diff = cells::cell_diff(shown, cells, layout.cols as int);
            if diff.len() < full.len() || diff.len() == 0 {
                diff
            } else {
                redrawn(layout, mode_y, cells)
            }
        } else {
            redrawn(layout, mode_y, cells)
        },
        None => redrawn(layout, mode_y, cells),
    }
}

impl Terminal {
    /// Draws a frame in cells, and says what must be written.
    pub fn draw_cells(&mut self, frame: &RgbImage, viewport: Viewport, request: &DrawRequest) -> (
        drawn: Result<(DrawLayout, Vec<u8>), DrawError>)
        requires
            old(self).wf(),
            frame.wf(),
            render::viewport_fault(viewport) is None ==> request.shows(frame@),
        ensures
            final(self).wf(),
            match render::viewport_fault(viewport) {
                Some(fault) => drawn == Err::<(DrawLayout, Vec<u8>), DrawError>(
                    DrawError::Viewport(fault),
                ) && final(self)@ == old(self)@,
                None => {
                    let layout = cells_layout(frame@, request);
                    let mode_y = layout::less_two(request.rows);
                    &&& final(self)@ == (TerminalModel {
                        last_image: final(self)@.last_image,
                        ..old(self)@
                    })
                    &&& final(self)@.last_image matches Some((shown, y, cells))
                    &&& shown == layout
                    &&& y == mode_y
                    &&& cells::show_all(
                        cells,
                        cells::sample_of(
                            frame@,
                            request.rect,
                            request.max_cols(),
                            request.max_rows(),
                        ),
                    )
                    &&& drawn matches Ok((drawn_layout, bytes))
                    &&& drawn_layout == layout
                    &&& bytes@ == cells_output(old(self)@.last_image, layout, mode_y, cells)
                },
            },
    {
        let max_cols: u16 = image_cols(request.cols);
        let max_rows: u16 = image_rows(request.rows);
        proof {
            if render::viewport_fault(viewport) is None {
                render::lemma_fitted_at_most(
                    request.rect.width,
                    request.rect.height,
                    max_cols as u32,
                    (max_rows * 2) as u32,
                );
                let size = cells::sample_size(request.rect, max_cols, max_rows);
                draw::lemma_resizable(
                    request.rect.width as int,
                    request.rect.height as int,
                    size.0,
                    size.1,
                );
            }
            reveal(terminal::remembered);
        }
        let rendered = match render_half_blocks_viewport(
            frame,
            max_cols,
            max_rows,
            viewport,
            request.rect,
        ) {
            Ok(rendered) => rendered,
            Err(fault) => return Err(DrawError::Viewport(fault)),
        };
        let layout = DrawLayout {
            cols: rendered.cols,
            rows: rendered.rows,
            sample_height: rendered.sample_height,
            viewport: rendered.viewport,
            source_width: frame.width,
            source_height: frame.height,
        };
        let mode_y: u16 = request.rows.saturating_sub(2);
        let incremental = match &self.last_image {
            Some(previous) => if previous.layout == layout && previous.mode_y == mode_y {
                Some(
                    encode_cell_diff(
                        previous.cells.as_slice(),
                        rendered.cells.as_slice(),
                        rendered.cols,
                    ),
                )
            } else {
                None
            },
            None => None,
        };
        let mut bytes: Vec<u8> = Vec::new();
        let mut whole = true;
        if let Some(diff) = incremental {
            if diff.len() == 0 || diff.len() < rendered.bytes.len() {
                bytes = diff;
                whole = false;
            }
        }
        if whole {
            let position = cursor_text(1, 1);
            push_text(&mut bytes, position.as_str());
            bytes.extend_from_slice(rendered.bytes.as_slice());
            clear_rows(&mut bytes, rendered.rows, mode_y);
            assert(bytes@ =~= redrawn(layout, mode_y, rendered.cells@));
        }
        self.last_image = Some(ImageCache { layout, mode_y, cells: rendered.cells });
        Ok((layout, bytes))
    }
}

/// The name of a mode.
pub open spec fn mode_words(mode: InteractionMode) -> Seq<char> {
    match mode {
        InteractionMode::Nav => "Navigation"@,
        InteractionMode::Input => "Keyboard"@,
    }
}

/// What the mouse is for.
pub open spec fn mouse_words(state: ViewerModel) -> Seq<char> {
    if !state.control {
        "View only"@
    } else if state.mouse_armed {
        "Mouse on"@
    } else {
        "Mouse off"@
    }
}

/// The graphics in use.
pub open spec fn graphics_words(model: TerminalModel, state: ViewerModel) -> Seq<char> {
    if model.kitty is Some {
        if model.kitty_previewing {
            quality::size_name(model.limits[model.ceiling as int]) + " loading"@
        } else {
            quality::size_name(model.limits[model.tier as int]) + " "@
                + model.graphics_config.quality.name()
        }
    } else {
        state.graphics_backend.words()
    }
}

/// Where help can be had.
pub open spec fn help_words(mode: InteractionMode) -> Seq<char> {
    match mode {
        InteractionMode::Input => "C-\\ ? Help"@,
        InteractionMode::Nav => "? Help"@,
    }
}

/// The line of the mode, before it is brought to the width of the terminal.
#[verifier::opaque]
pub open spec fn status_words(model: TerminalModel, state: ViewerModel, chrome: &Chrome) -> Seq<
    char,
> {
    " Termway · "@ + chrome.output_name@ + " · "@ + mode_words(state.mode) + " · "@
        + chrome.zoom@ + "× · "@ + graphics_words(model, state) + " · "@ + mouse_words(state)
        + (if state.scroll_target == ScrollTarget::Desktop {
        " · Desktop scroll"@
    } else {
        seq![]
    }) + (if state.idle_inhibited {
        " · Keep awake"@
    } else {
        seq![]
    }) + " · "@ + help_words(state.mode) + " "@
}

/// Whether the pointer of the desktop follows that of the terminal.
pub open spec fn pointer_active(state: ViewerModel) -> bool {
    state.mouse_armed || state.scroll_target == ScrollTarget::Desktop
}

/// What is written to show the line of the mode.
#[verifier::opaque]
pub open spec fn mode_line_bytes(mode_y: u16, line: Seq<char>, active: bool) -> Seq<u8> {
    encode_utf8(kitty::cursor_move((mode_y + 1) as nat, 1)) + encode_utf8("\x1b[0m"@)
        + encode_utf8("\x1b[7m"@) + (if active {
        encode_utf8("\x1b[1m"@)
    } else {
        seq![]
    }) + encode_utf8(line) + encode_utf8("\x1b[0m"@) + encode_utf8("\x1b[0m"@)
}

/// The output of a terminal after control output: with Kitty graphics it waits for its turn.
pub open spec fn queued(model: TerminalModel, bytes: Seq<u8>) -> PumpState {
    if model.kitty is Some && bytes.len() > 0 {
        PumpState { control: model.output.control.push(bytes), ..model.output }
    } else {
        model.output
    }
}

/// The part of control output that must be written at once.
pub open spec fn unqueued(model: TerminalModel, bytes: Seq<u8>) -> Seq<u8> {
    if model.kitty is Some {
        seq![]
    } else {
        bytes
    }
}

/// The line of the mode.
#[verifier::opaque]
pub open spec fn mode_line(model: TerminalModel, state: ViewerModel, chrome: &Chrome) -> Seq<char> {
    layout::fitted(status_words(model, state, chrome), chrome.cols as nat)
}

/// What is written for the line of the mode: nothing where it is shown already.
pub open spec fn mode_line_change(model: TerminalModel, state: ViewerModel, chrome: &Chrome) -> Seq<
    u8,
> {
    let mode_y = layout::less_two(chrome.rows);
    let line = mode_line(model, state, chrome);
    if model.last_mode_line == Some((mode_y, line, pointer_active(state))) {
        seq![]
    } else {
        mode_line_bytes(mode_y, line, pointer_active(state))
    }
}

/// A terminal after the line of the mode is drawn, and what must be written at once.
pub open spec fn mode_line_outcome(model: TerminalModel, state: ViewerModel, chrome: &Chrome) -> (
    TerminalModel,
    Seq<u8>,
) {
    let bytes = mode_line_change(model, state, chrome);
    (
        TerminalModel {
            last_mode_line: Some(
                (
                    layout::less_two(chrome.rows),
                    mode_line(model, state, chrome),
                    pointer_active(state),
                ),
            ),
            output: queued(model, bytes),
            ..model
        },
        unqueued(model, bytes),
    )
}

/// What the display settings show.
pub open spec fn settings_words(model: TerminalModel, selected: DisplaySetting) -> Seq<char> {
    if model.kitty is None {
        "Display settings · unavailable with ANSI graphics · Enter close"@
    } else {
        "Display settings · "@ + (match selected {
            DisplaySetting::Quality => "Quality  ‹ "@ + model.graphics_config.quality.name()
                + " › — "@ + model.graphics_config.quality.words(),
            DisplaySetting::Resolution => "Resolution  ‹ "@ + quality::size_name(
                model.limits[model.ceiling as int],
            ) + " › — maximum detail"@,
        }) + " · ↑↓ choose · ←→ change · Enter done"@
    }
}

/// What the last line says: the display settings, the palette or the message.
#[verifier::opaque]
pub open spec fn echo_words(model: TerminalModel, state: ViewerModel) -> Seq<char> {
    if state.display_settings is Some {
        settings_words(model, state.display_settings->0)
    } else if state.palette is Some {
        viewer::palette_line(state)
    } else {
        match state.message {
            Some((words, _)) => words,
            None => seq![],
        }
    }
}

/// What is written to show the last line.
#[verifier::opaque]
pub open spec fn echo_bytes(echo_y: u16, line: Seq<char>) -> Seq<u8> {
    encode_utf8(kitty::cursor_move((echo_y + 1) as nat, 1)) + encode_utf8("\x1b[0m"@)
        + encode_utf8("\x1b[0m"@) + encode_utf8(line)
}

/// The last line.
#[verifier::opaque]
pub open spec fn echo_line(model: TerminalModel, state: ViewerModel, cols: u16) -> Seq<char> {
    layout::fitted(echo_words(model, state), cols as nat)
}

/// What is written for the last line: nothing where it is shown already.
pub open spec fn echo_change(model: TerminalModel, state: ViewerModel, cols: u16, rows: u16) -> Seq<
    u8,
> {
    let echo_y = (rows - 1) as u16;
    let line = echo_line(model, state, cols);
    if model.last_echo == Some((echo_y, line)) {
        seq![]
    } else {
        echo_bytes(echo_y, line)
    }
}

/// A terminal after the last line is drawn, and what must be written at once. A terminal of one
/// row has no such line.
pub open spec fn echo_outcome(
    model: TerminalModel,
    state: ViewerModel,
    cols: u16,
    rows: u16,
) -> (TerminalModel, Seq<u8>) {
    if rows <= 1 {
        (model, seq![])
    } else {
        let bytes = echo_change(model, state, cols, rows);
        (
            TerminalModel {
                last_echo: Some(((rows - 1) as u16, echo_line(model, state, cols))),
                output: queued(model, bytes),
                ..model
            },
            unqueued(model, bytes),
        )
    }
}

/// A terminal after both lines are drawn, and what must be written at once.
pub open spec fn chrome_outcome(model: TerminalModel, state: ViewerModel, chrome: &Chrome) -> (
    TerminalModel,
    (Seq<u8>, Seq<u8>),
) {
    let (next, mode_line) = mode_line_outcome(model, state, chrome);
    let (last, echo) = echo_outcome(next, state, chrome.cols, chrome.rows);
    (last, (mode_line, echo))
}

fn encode_mode_line(mode_y: u16, line: &str, active: bool) -> (bytes: Vec<u8>)
    ensures
        bytes@ == mode_line_bytes(mode_y, line@, active),
{
    let mut bytes: Vec<u8> = Vec::new();
    let position = cursor_text(mode_y as u64 + 1, 1);
    push_text(&mut bytes, position.as_str());
    push_text(&mut bytes, "\x1b[0m");
    push_text(&mut bytes, "\x1b[7m");
    if active {
        push_text(&mut bytes, "\x1b[1m");
    }
    push_text(&mut bytes, line);
    push_text(&mut bytes, "\x1b[0m");
    push_text(&mut bytes, "\x1b[0m");
    proof {
        reveal(mode_line_bytes);
    }
    assert(bytes@ =~= mode_line_bytes(mode_y, line@, active));
    bytes
}

fn encode_echo(echo_y: u16, line: &str) -> (bytes: Vec<u8>)
    ensures
        bytes@ == echo_bytes(echo_y, line@),
{
    let mut bytes: Vec<u8> = Vec::new();
    let position = cursor_text(echo_y as u64 + 1, 1);
    push_text(&mut bytes, position.as_str());
    push_text(&mut bytes, "\x1b[0m");
    push_text(&mut bytes, "\x1b[0m");
    push_text(&mut bytes, line);
    proof {
        reveal(echo_bytes);
    }
    assert(bytes@ =~= echo_bytes(echo_y, line@));
    bytes
}

impl Terminal {
    /// Hands out control output that must be written at once, or lets it wait.
    fn write_control(&mut self, bytes: Vec<u8>) -> (direct: Vec<u8>)
        requires
            old(self).wf(),
        ensures
            final(self).wf(),
            final(self)@ == (TerminalModel { output: queued(old(self)@, bytes@), ..old(self)@ }),
            direct@ == unqueued(old(self)@, bytes@),
    {
        if self.kitty.is_some() {
            self.output.enqueue_control(bytes);
            Vec::new()
        } else {
            bytes
        }
    }

    fn graphics_text(&self, state: &ViewerState) -> (words: String)
        requires
            self.wf(),
        ensures
            words@ == graphics_words(self@, state@),
    {
        proof {
            terminal::lemma_tiers_usable(self);
        }
        if self.kitty.is_some() {
            if self.kitty_previewing {
                let mut words = self.kitty_quality.ceiling_label();
                words.append(" loading");
                words
            } else {
                let mut words = self.kitty_quality.label();
                words.append(" ");
                words.append(self.graphics_config.quality.label());
                words
            }
        } else {
            state.graphics_backend.name().to_owned()
        }
    }

    fn status_text(&self, state: &ViewerState, chrome: &Chrome) -> (words: String)
        requires
            self.wf(),
        ensures
            words@ == status_words(self@, state@, chrome),
    {
        let mut words = " Termway · ".to_owned();
        words.append(chrome.output_name.as_str());
        words.append(" · ");
        words.append(
            match state.mode {
                InteractionMode::Nav => "Navigation",
                InteractionMode::Input => "Keyboard",
            },
        );
        words.append(" · ");
        words.append(chrome.zoom.as_str());
        words.append("× · ");
        words.append(self.graphics_text(state).as_str());
        words.append(" · ");
        words.append(
            if !state.control {
                "View only"
            } else if state.mouse_armed {
                "Mouse on"
            } else {
                "Mouse off"
            },
        );
        if let ScrollTarget::Desktop = state.scroll_target {
            words.append(" · Desktop scroll");
        }
        if state.idle_inhibited {
            words.append(" · Keep awake");
        }
        words.append(" · ");
        words.append(
            match state.mode {
                InteractionMode::Input => "C-\\ ? Help",
                InteractionMode::Nav => "? Help",
            },
        );
        words.append(" ");
        proof {
            reveal(status_words);
        }
        assert(words@ =~= status_words(self@, state@, chrome));
        words
    }

    fn shows_mode_line(&self, mode_y: u16, line: &str, active: bool) -> (shown: bool)
        ensures
            shown == (self@.last_mode_line == Some((mode_y, line@, active))),
    {
        match &self.last_mode_line {
            Some((y, last, was_active)) => *y == mode_y && same(last.as_str(), line)
                && *was_active == active,
            None => false,
        }
    }

    fn shows_echo(&self, echo_y: u16, line: &str) -> (shown: bool)
        ensures
            shown == (self@.last_echo == Some((echo_y, line@))),
    {
        match &self.last_echo {
            Some((y, last)) => *y == echo_y && same(last.as_str(), line),
            None => false,
        }
    }

    fn keep_mode_line(&mut self, mode_y: u16, line: String, active: bool)
        requires
            old(self).wf(),
        ensures
            final(self).wf(),
            final(self)@ == (TerminalModel {
                last_mode_line: Some((mode_y, line@, active)),
                ..old(self)@
            }),
    {
        self.last_mode_line = Some((mode_y, line, active));
    }

    fn keep_echo(&mut self, echo_y: u16, line: String)
        requires
            old(self).wf(),
        ensures
            final(self).wf(),
            final(self)@ == (TerminalModel { last_echo: Some((echo_y, line@)), ..old(self)@ }),
    {
        self.last_echo = Some((echo_y, line));
    }

    /// Draws the line of the mode, unless it is shown already.
    pub fn draw_mode_line(&mut self, state: &ViewerState, chrome: &Chrome) -> (direct: Vec<u8>)
        requires
            old(self).wf(),
        ensures
            final(self).wf(),
            final(self)@ == mode_line_outcome(old(self)@, state@, chrome).0,
            direct@ == mode_line_outcome(old(self)@, state@, chrome).1,
    {
        let mode_y: u16 = chrome.rows.saturating_sub(2);
        let words = self.status_text(state, chrome);
        let line = fit_status(words.as_str(), chrome.cols as usize);
        assert(line@ == mode_line(self@, state@, chrome)) by {
            reveal(mode_line);
        }
        let desktop_scroll = match state.scroll_target {
            ScrollTarget::Desktop => true,
            ScrollTarget::View => false,
        };
        let active = state.mouse_armed || desktop_scroll;
        let shown = self.shows_mode_line(mode_y, line.as_str(), active);
        if shown {
            return Vec::new();
        }
        let bytes = encode_mode_line(mode_y, line.as_str(), active);
        self.keep_mode_line(mode_y, line, active);
        self.write_control(bytes)
    }

    /// What the display settings show, where they are open.
    pub fn display_settings_echo(&self, state: &ViewerState) -> (echo: Option<String>)
        requires
            self.wf(),
        ensures
            match state@.display_settings {
                Some(selected) => echo matches Some(words) && words@ == settings_words(
                    self@,
                    selected,
                ),
                None => echo is None,
            },
    {
        let selected = match state.display_settings {
            Some(selected) => selected,
            None => return None,
        };
        if self.kitty.is_none() {
            return Some(
                "Display settings · unavailable with ANSI graphics · Enter close".to_owned(),
            );
        }
        proof {
            terminal::lemma_tiers_usable(self);
        }
        let mut value = "".to_owned();
        match selected {
            DisplaySetting::Quality => {
                value = "Quality  ‹ ".to_owned();
                value.append(self.graphics_config.quality.label());
                value.append(" › — ");
                value.append(self.graphics_config.quality.description());
            },
            DisplaySetting::Resolution => {
                value = "Resolution  ‹ ".to_owned();
                value.append(self.kitty_quality.ceiling_label().as_str());
                value.append(" › — maximum detail");
            },
        }
        let mut words = "Display settings · ".to_owned();
        words.append(value.as_str());
        words.append(" · ↑↓ choose · ←→ change · Enter done");
        Some(words)
    }

    /// What the last line says.
    fn echo_text(&self, state: &ViewerState) -> (words: String)
        requires
            self.wf(),
            state.wf(),
        ensures
            words@ == echo_words(self@, state@),
    {
        proof {
            reveal(echo_words);
        }
        match self.display_settings_echo(state) {
            Some(words) => words,
            None => match state.palette_echo() {
                Some(words) => words,
                None => match &state.message {
                    Some(message) => message.text.clone(),
                    None => String::new(),
                },
            },
        }
    }

    /// Draws the last line, unless it is shown already.
    pub fn draw_echo(&mut self, state: &ViewerState, cols: u16, rows: u16) -> (direct: Vec<u8>)
        requires
            old(self).wf(),
            state.wf(),
        ensures
            final(self).wf(),
            final(self)@ == echo_outcome(old(self)@, state@, cols, rows).0,
            direct@ == echo_outcome(old(self)@, state@, cols, rows).1,
    {
        if rows <= 1 {
            return Vec::new();
        }
        let echo_y: u16 = rows - 1;
        let words = self.echo_text(state);
        let line = fit_status(words.as_str(), cols as usize);
        assert(line@ == echo_line(self@, state@, cols)) by {
            reveal(echo_line);
        }
        let shown = self.shows_echo(echo_y, line.as_str());
        if shown {
            return Vec::new();
        }
        let bytes = encode_echo(echo_y, line.as_str());
        self.keep_echo(echo_y, line);
        self.write_control(bytes)
    }

    /// Draws both lines.
    pub fn draw_chrome(&mut self, state: &ViewerState, chrome: &Chrome) -> (direct: (
        Vec<u8>,
        Vec<u8>,
    ))
        requires
            old(self).wf(),
            state.wf(),
        ensures
            final(self).wf(),
            final(self)@ == chrome_outcome(old(self)@, state@, chrome).0,
            (direct.0@, direct.1@) == chrome_outcome(old(self)@, state@, chrome).1,
    {
        let mode_line = self.draw_mode_line(state, chrome);
        let echo = self.draw_echo(state, chrome.cols, chrome.rows);
        (mode_line, echo)
    }
}

/// What came of drawing a frame: where it lies, and what must be written at once, each part in one
/// synchronized update.
pub struct Drawn {
    pub layout: DrawLayout,
    pub image: Vec<u8>,
    pub mode_line: Vec<u8>,
    pub echo: Vec<u8>,
}

/// Whether a frame was drawn with Kitty graphics as it must be.
pub open spec fn drawn_kitty(
    before: TerminalModel,
    after: TerminalModel,
    frame: Pixels,
    request: &DrawRequest,
    state: ViewerModel,
    chrome: &Chrome,
    result: Result<Drawn, DrawError>,
) -> bool {
    let (next, expected) = draw::kitty_outcome(before, frame, state.viewport, request);
    match expected {
        Err(error) => result == Err::<Drawn, DrawError>(error) && after == next,
        Ok(layout) => {
            let (last, lines) = chrome_outcome(next, state, chrome);
            &&& result matches Ok(drawn)
            &&& drawn.layout == layout
            &&& drawn.image@.len() == 0
            &&& drawn.mode_line@ == lines.0
            &&& drawn.echo@ == lines.1
            &&& after == last
        },
    }
}

/// Whether a frame was drawn in cells as it must be.
pub open spec fn drawn_cells(
    before: TerminalModel,
    after: TerminalModel,
    frame: Pixels,
    request: &DrawRequest,
    state: ViewerModel,
    chrome: &Chrome,
    result: Result<Drawn, DrawError>,
) -> bool {
    match render::viewport_fault(state.viewport) {
        Some(fault) => result == Err::<Drawn, DrawError>(DrawError::Viewport(fault)) && after
            == before,
        None => {
            let layout = cells_layout(frame, request);
            let mode_y = layout::less_two(request.rows);
            let next = TerminalModel { last_image: after.last_image, ..before };
            let (last, lines) = chrome_outcome(next, state, chrome);
            &&& after.last_image matches Some((shown, y, cells))
            &&& shown == layout
            &&& y == mode_y
            &&& cells::show_all(
                cells,
                cells::sample_of(frame, request.rect, request.max_cols(), request.max_rows()),
            )
            &&& result matches Ok(drawn)
            &&& drawn.layout == layout
            &&& drawn.image@ == cells_output(before.last_image, layout, mode_y, cells)
            &&& drawn.mode_line@ == lines.0
            &&& drawn.echo@ == lines.1
            &&& after == last
        },
    }
}

impl Terminal {
    /// Draws a frame and both lines.
    pub fn draw(
        &mut self,
        frame: &RgbImage,
        request: &DrawRequest,
        state: &ViewerState,
        chrome: &Chrome,
    ) -> (drawn: Result<Drawn, DrawError>)
        requires
            old(self).wf(),
            state.wf(),
            frame.wf(),
            render::viewport_fault(state@.viewport) is None ==> request.shows(frame@),
            render::viewport_fault(state@.viewport) is None && old(self)@.kitty is Some
                ==> request.fits(frame@, old(self)@.limits, old(self)@.ceiling as int),
        ensures
            final(self).wf(),
            old(self)@.kitty is Some ==> drawn_kitty(
                old(self)@,
                final(self)@,
                frame@,
                request,
                state@,
                chrome,
                drawn,
            ),
            old(self)@.kitty is None ==> drawn_cells(
                old(self)@,
                final(self)@,
                frame@,
                request,
                state@,
                chrome,
                drawn,
            ),
    {
        let (layout, image) = if self.kitty.is_some() {
            match self.draw_kitty(frame, state.viewport, request) {
                Ok(layout) => (layout, Vec::new()),
                Err(error) => return Err(error),
            }
        } else {
            match self.draw_cells(frame, state.viewport, request) {
                Ok(drawn) => drawn,
                Err(error) => return Err(error),
            }
        };
        let (mode_line, echo) = self.draw_chrome(state, chrome);
        Ok(Drawn { layout, image, mode_line, echo })
    }
}

} // verus!
