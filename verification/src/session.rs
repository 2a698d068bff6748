//! The course of a session: what each event asks for, and what is said when it is done. Times are
//! nanoseconds since a fixed moment.

use crate::input::PointerButton;
use crate::keys::EncodedKey;
use crate::layout;
use crate::layout::{
    damage_affects_viewport, map_click, map_pointer_position, visible_region_changed, DrawLayout,
    LogicalPoint, PointerSample,
};
use crate::niri::OutputGeometry;
use crate::pixels::{Pixels, RgbImage};
use crate::render::{Viewport, ViewportRect};
use crate::screencopy::DamageRect;
use crate::scroll;
use crate::scroll::{clamp_steps, last_within, MouseEvent, ScrollAxis};
use crate::terminal;
use crate::terminal::{Terminal, TerminalModel};
use crate::text;
use crate::text::{push_decimal, push_signed};
use crate::viewer;
use crate::viewer::{
    earliest_timeout, Effect, ScrollTarget, ViewCommand, ViewerModel, ViewerState, LATEST,
};
use vstd::prelude::*;

verus! {

/// How often damage is asked for.
pub const DAMAGE_POLL_INTERVAL: u128 = 40_000_000;

/// How long to wait before output is tried again.
pub const OUTPUT_RETRY_INTERVAL: u128 = 1_000_000;

/// What a frame is captured for.
#[derive(Debug, Clone, Copy, PartialEq, Eq, Structural)]
pub enum CaptureReason {
    /// Input was sent a while ago, and no damage is reported.
    Auto,
    /// The user asked for it.
    Refresh,
    /// A click was sent, and no damage is reported.
    Click,
}

/// What must be done next.
#[derive(Debug, Clone, Copy, PartialEq, Eq, Structural)]
pub enum Task {
    Nothing,
    Quit,
    /// Draw the frame and both lines.
    Draw,
    /// Draw both lines.
    Chrome,
    /// Draw the last line.
    Echo,
    Capture(CaptureReason),
    /// Start an action.
    Spawn(usize),
    /// Let the desktop become idle again, and draw both lines.
    ReleaseInhibitor,
    /// Keep the desktop awake.
    AcquireInhibitor,
    SendKey(EncodedKey),
    SendUnicode(char),
    Click(LogicalPoint, PointerButton),
    /// Scroll at a point, across or down, by so many steps.
    Scroll(LogicalPoint, bool, i32),
    /// Compute a view.
    View(ViewCommand),
    /// Compute a view that lies nearer to a point.
    Focus(LogicalPoint),
}

fn told(opening: &str, reason: &str) -> (words: String)
    ensures
        words@ == opening@ + reason@,
{
    let mut words = opening.to_owned();
    words.append(reason);
    words
}

/// What comes of an effect of a key. `inhibiting` says whether the desktop is kept awake,
/// `keyboard` whether keys can be sent.
pub open spec fn effect_outcome(
    state: ViewerModel,
    terminal: TerminalModel,
    effect: Effect,
    inhibiting: bool,
    keyboard: bool,
    now: u128,
) -> (ViewerModel, TerminalModel, Task) {
    match effect {
        Effect::Nothing => (state, terminal, Task::Nothing),
        Effect::Quit => (state, terminal, Task::Quit),
        Effect::Redraw => (state, terminal, Task::Draw),
        Effect::Chrome => (state, terminal, Task::Chrome),
        Effect::Refresh => (
            ViewerModel { auto_refresh_at: None, ..state },
            terminal,
            Task::Capture(CaptureReason::Refresh),
        ),
        Effect::RunAction(index) => (state, terminal, Task::Spawn(index)),
        Effect::ToggleIdleInhibit => if inhibiting {
            (
                ViewerModel { idle_inhibited: false, ..state }.told(
                    "Idle inhibition disabled"@,
                    now,
                ),
                terminal,
                Task::ReleaseInhibitor,
            )
        } else {
            (state, terminal, Task::AcquireInhibitor)
        },
        Effect::Graphics(command) => {
            let (next, words, redraw) = terminal::command_outcome(terminal, command);
            (
                state.told(words, now),
                next,
                if redraw {
                    Task::Draw
                } else {
                    Task::Chrome
                },
            )
        },
        Effect::SendKey(encoded) => (
            state,
            terminal,
            if keyboard {
                Task::SendKey(encoded)
            } else {
                Task::Nothing
            },
        ),
        Effect::SendUnicode(character) => (
            state,
            terminal,
            if keyboard {
                Task::SendUnicode(character)
            } else {
                Task::Nothing
            },
        ),
        Effect::View(command) => (state, terminal, Task::View(command)),
    }
}

/// Begins what an effect of a key asks for.
pub fn perform(
    state: &mut ViewerState,
    terminal: &mut Terminal,
    effect: Effect,
    inhibiting: bool,
    keyboard: bool,
    now: u128,
) -> (task: Task)
    requires
        old(state).wf(),
        old(terminal).wf(),
        now <= LATEST,
    ensures
        final(state).wf(),
        final(terminal).wf(),
        (final(state)@, final(terminal)@, task) == effect_outcome(
            old(state)@,
            old(terminal)@,
            effect,
            inhibiting,
            keyboard,
            now,
        ),
{
    match effect {
        Effect::Nothing => Task::Nothing,
        Effect::Quit => Task::Quit,
        Effect::Redraw => Task::Draw,
        Effect::Chrome => Task::Chrome,
        Effect::Refresh => {
            state.cancel_auto_refresh();
            Task::Capture(CaptureReason::Refresh)
        },
        Effect::RunAction(index) => Task::Spawn(index),
        Effect::ToggleIdleInhibit => if inhibiting {
            state.idle_inhibited = false;
            state.message("Idle inhibition disabled".to_owned(), now);
            Task::ReleaseInhibitor
        } else {
            Task::AcquireInhibitor
        },
        Effect::Graphics(command) => {
            let (words, redraw) = terminal.apply_graphics_command(command);
            state.message(words, now);
            if redraw {
                Task::Draw
            } else {
                Task::Chrome
            }
        },
        Effect::SendKey(encoded) => if keyboard {
            Task::SendKey(encoded)
        } else {
            Task::Nothing
        },
        Effect::SendUnicode(character) => if keyboard {
            Task::SendUnicode(character)
        } else {
            Task::Nothing
        },
        Effect::View(command) => Task::View(command),
    }
}

/// What must be done when nothing happened for as long as `poll_timeout` said.
pub open spec fn timeout_outcome(state: ViewerModel, terminal: TerminalModel, now: u128) -> (
    ViewerModel,
    TerminalModel,
    Task,
) {
    let (next, refine) = terminal::due_outcome(terminal, now);
    let refresh = terminal::is_due(state.auto_refresh_at, now);
    let expired = state.message matches Some((_, expires_at)) && expires_at <= now;
    (
        ViewerModel {
            auto_refresh_at: if refresh {
                None
            } else {
                state.auto_refresh_at
            },
            message: if expired {
                None
            } else {
                state.message
            },
            ..state
        },
        next,
        if refine {
            Task::Draw
        } else if refresh {
            Task::Capture(CaptureReason::Auto)
        } else if expired {
            Task::Echo
        } else {
            Task::Nothing
        },
    )
}

/// Goes on when nothing happened for a while.
pub fn on_timeout(state: &mut ViewerState, terminal: &mut Terminal, now: u128) -> (task: Task)
    requires
        old(state).wf(),
        old(terminal).wf(),
    ensures
        final(state).wf(),
        final(terminal).wf(),
        (final(state)@, final(terminal)@, task) == timeout_outcome(
            old(state)@,
            old(terminal)@,
            now,
        ),
{
    let refine = terminal.take_due_refine(now);
    let auto_refresh = state.take_due_auto_refresh(now);
    let message_expired = state.expire_message(now);
    if refine {
        Task::Draw
    } else if auto_refresh {
        Task::Capture(CaptureReason::Auto)
    } else if message_expired {
        Task::Echo
    } else {
        Task::Nothing
    }
}

/// What is said when a frame cannot be captured.
pub open spec fn capture_failure(reason: CaptureReason) -> Option<Seq<char>> {
    match reason {
        CaptureReason::Auto => Some("Auto-refresh failed: "@),
        CaptureReason::Refresh => Some("Refresh failed: "@),
        CaptureReason::Click => None,
    }
}

/// What comes of capturing a frame.
pub open spec fn capture_outcome(
    state: ViewerModel,
    terminal: TerminalModel,
    reason: CaptureReason,
    error: Option<Seq<char>>,
    now: u128,
) -> (ViewerModel, TerminalModel, Task) {
    match error {
        None => (
            if reason == CaptureReason::Refresh {
                state.told("Refreshed frame"@, now)
            } else {
                state
            },
            terminal::visibly_damaged(terminal, now),
            Task::Draw,
        ),
        Some(error) => (
            match capture_failure(reason) {
                Some(words) => state.warned(words + error, now),
                None => state,
            },
            terminal,
            Task::Echo,
        ),
    }
}

/// A string, where there is one.
pub open spec fn words_of(value: Option<String>) -> Option<Seq<char>> {
    match value {
        Some(value) => Some(value@),
        None => None,
    }
}

/// Goes on after a frame was captured, or could not be.
pub fn on_captured(
    state: &mut ViewerState,
    terminal: &mut Terminal,
    reason: CaptureReason,
    error: Option<String>,
    now: u128,
) -> (task: Task)
    requires
        old(state).wf(),
        old(terminal).wf(),
        now <= LATEST,
    ensures
        final(state).wf(),
        final(terminal).wf(),
        (final(state)@, final(terminal)@, task) == capture_outcome(
            old(state)@,
            old(terminal)@,
            reason,
            words_of(error),
            now,
        ),
{
    match error {
        None => {
            terminal.note_visible_damage(now);
            match reason {
                CaptureReason::Refresh => state.message("Refreshed frame".to_owned(), now),
                _ => {},
            }
            Task::Draw
        },
        Some(error) => {
            match reason {
                CaptureReason::Auto => state.error(
                    told("Auto-refresh failed: ", error.as_str()),
                    now,
                ),
                CaptureReason::Refresh => state.error(
                    told("Refresh failed: ", error.as_str()),
                    now,
                ),
                CaptureReason::Click => {},
            }
            Task::Echo
        },
    }
}

/// What comes of starting an action.
pub open spec fn spawn_outcome(
    state: ViewerModel,
    name: Seq<char>,
    error: Option<Seq<char>>,
    now: u128,
) -> (ViewerModel, Task) {
    (
        match error {
            None => state.told("Started action: "@ + name, now),
            Some(error) => state.warned("Action failed: "@ + error, now),
        },
        Task::Echo,
    )
}

/// Goes on after an action was started, or could not be.
pub fn on_spawned(state: &mut ViewerState, name: &str, error: Option<String>, now: u128) -> (task:
    Task)
    requires
        old(state).wf(),
        now <= LATEST,
    ensures
        final(state).wf(),
        (final(state)@, task) == spawn_outcome(old(state)@, name@, words_of(error), now),
{
    match error {
        None => state.message(told("Started action: ", name), now),
        Some(error) => state.error(told("Action failed: ", error.as_str()), now),
    }
    Task::Echo
}

/// What comes of trying to keep the desktop awake.
pub open spec fn inhibit_outcome(state: ViewerModel, error: Option<Seq<char>>, now: u128) -> (
    ViewerModel,
    Task,
) {
    (
        match error {
            None => ViewerModel { idle_inhibited: true, ..state }.told(
                "Idle inhibition enabled"@,
                now,
            ),
            Some(error) => state.warned("Idle inhibit failed: "@ + error, now),
        },
        Task::Chrome,
    )
}

/// Goes on after it was tried to keep the desktop awake.
pub fn on_inhibited(state: &mut ViewerState, error: Option<String>, now: u128) -> (task: Task)
    requires
        old(state).wf(),
        now <= LATEST,
    ensures
        final(state).wf(),
        (final(state)@, task) == inhibit_outcome(old(state)@, words_of(error), now),
{
    match error {
        None => {
            state.idle_inhibited = true;
            state.message("Idle inhibition enabled".to_owned(), now);
        },
        Some(error) => state.error(told("Idle inhibit failed: ", error.as_str()), now),
    }
    Task::Chrome
}

/// What is said when the session begins.
#[derive(Debug, Clone, Copy, PartialEq, Eq, Structural)]
pub enum Notice {
    /// The desktop cannot be kept awake.
    Inhibitor,
    /// Frames come from another program.
    Capture,
    /// Damage is not reported.
    Damage,
    /// The image is drawn in cells.
    Graphics,
}

impl Notice {
    /// What the reason is said after.
    pub open spec fn words(self) -> Seq<char> {
        match self {
            Notice::Inhibitor => "Idle inhibit unavailable: "@,
            Notice::Capture => "Using grim fallback: "@,
            Notice::Damage => "Live updates disabled: "@,
            Notice::Graphics => "Using ANSI graphics: "@,
        }
    }
}

/// A state in which something works otherwise than was asked for, and says why.
pub open spec fn announced(
    state: ViewerModel,
    notice: Notice,
    reason: Seq<char>,
    now: u128,
) -> ViewerModel {
    if notice == Notice::Inhibitor {
        state.warned(notice.words() + reason, now)
    } else {
        state.told(notice.words() + reason, now)
    }
}

/// Says why something works otherwise than was asked for.
pub fn announce(state: &mut ViewerState, notice: Notice, reason: &str, now: u128)
    requires
        old(state).wf(),
        now <= LATEST,
    ensures
        final(state).wf(),
        final(state)@ == announced(old(state)@, notice, reason@, now),
{
    match notice {
        Notice::Inhibitor => state.error(told("Idle inhibit unavailable: ", reason), now),
        Notice::Capture => state.message(told("Using grim fallback: ", reason), now),
        Notice::Damage => state.message(told("Live updates disabled: ", reason), now),
        Notice::Graphics => state.message(told("Using ANSI graphics: ", reason), now),
    }
}

/// What of the desktop a session takes hold of when it begins.
#[derive(Debug, Clone, Copy, PartialEq, Eq, Structural)]
pub struct Hold {
    /// Keep the desktop awake.
    pub inhibitor: bool,
    /// Connect a pointer.
    pub pointer: bool,
    /// Connect a keyboard.
    pub keyboard: bool,
}

/// What a session takes hold of: everything with control, and nothing without.
pub open spec fn hold_of(control: bool) -> Hold {
    Hold { inhibitor: control, pointer: control, keyboard: control }
}

/// What a session takes hold of when it begins.
pub fn hold(state: &ViewerState) -> (hold: Hold)
    ensures
        hold == hold_of(state@.control),
{
    Hold { inhibitor: state.control, pointer: state.control, keyboard: state.control }
}

/// The state after it was tried to keep the desktop awake when the session begins.
pub open spec fn held(state: ViewerModel, error: Option<Seq<char>>, now: u128) -> ViewerModel {
    match error {
        None => ViewerModel { idle_inhibited: true, ..state },
        Some(error) => announced(state, Notice::Inhibitor, error, now),
    }
}

/// Goes on after it was tried to keep the desktop awake when the session begins.
pub fn on_held(state: &mut ViewerState, error: Option<String>, now: u128)
    requires
        old(state).wf(),
        now <= LATEST,
    ensures
        final(state).wf(),
        final(state)@ == held(old(state)@, words_of(error), now),
{
    match error {
        None => state.idle_inhibited = true,
        Some(error) => announce(state, Notice::Inhibitor, error.as_str(), now),
    }
}

/// What is sent to the desktop.
#[derive(Debug, Clone, Copy, PartialEq, Eq, Structural)]
pub enum Injection {
    Key,
    Unicode,
    Scroll,
}

impl Injection {
    /// What the reason of a failure is said after.
    pub open spec fn words(self) -> Seq<char> {
        match self {
            Injection::Key => "Key injection failed: "@,
            Injection::Unicode => "Unicode injection failed: "@,
            Injection::Scroll => "Scroll injection failed: "@,
        }
    }
}

/// A state in which the frame is captured again after a while.
pub open spec fn refreshing(state: ViewerModel, now: u128) -> ViewerModel {
    ViewerModel { auto_refresh_at: Some((now + viewer::AUTO_REFRESH_DELAY) as u128), ..state }
}

/// What comes of sending input to the desktop. Where no damage is reported, keys have the frame
/// captured again.
pub open spec fn injection_outcome(
    state: ViewerModel,
    injection: Injection,
    error: Option<Seq<char>>,
    watching: bool,
    now: u128,
) -> (ViewerModel, Task) {
    match error {
        None => (
            if watching || injection == Injection::Scroll {
                state
            } else {
                refreshing(state, now)
            },
            Task::Nothing,
        ),
        Some(error) => (state.warned(injection.words() + error, now), Task::Echo),
    }
}

/// Goes on after input was sent to the desktop, or could not be.
pub fn on_injected(
    state: &mut ViewerState,
    injection: Injection,
    error: Option<String>,
    watching: bool,
    now: u128,
) -> (task: Task)
    requires
        old(state).wf(),
        now <= LATEST,
    ensures
        final(state).wf(),
        (final(state)@, task) == injection_outcome(
            old(state)@,
            injection,
            words_of(error),
            watching,
            now,
        ),
{
    match error {
        None => {
            let keys = match injection {
                Injection::Scroll => false,
                _ => true,
            };
            if !watching && keys {
                state.schedule_auto_refresh(now);
            }
            Task::Nothing
        },
        Some(error) => {
            let words = match injection {
                Injection::Key => told("Key injection failed: ", error.as_str()),
                Injection::Unicode => told("Unicode injection failed: ", error.as_str()),
                Injection::Scroll => told("Scroll injection failed: ", error.as_str()),
            };
            state.error(words, now);
            Task::Echo
        },
    }
}

/// What a mouse button in the image asks for: a click on the desktop while the mouse is armed, or
/// a view that lies nearer.
pub open spec fn click_task(
    state: ViewerModel,
    click: Option<(LogicalPoint, PointerButton)>,
    pointer: bool,
) -> Task {
    match click {
        None => Task::Nothing,
        Some((point, button)) => if state.control && state.mouse_armed {
            if pointer {
                Task::Click(point, button)
            } else {
                Task::Echo
            }
        } else if button == PointerButton::Left {
            Task::Focus(point)
        } else {
            Task::Echo
        },
    }
}

/// The point that a mouse event presses, and the button.
pub open spec fn clicked(
    mouse: MouseEvent,
    layout: DrawLayout,
    output: &OutputGeometry,
    sample: PointerSample,
) -> Option<(LogicalPoint, PointerButton)> {
    match layout::pressed(mouse.kind) {
        Some(button) => if layout::is_mapped(
            mouse.column,
            mouse.row,
            layout,
            output.transform@,
        ) {
            Some((layout::point_of(sample, output.x, output.y), button))
        } else {
            None
        },
        None => None,
    }
}

/// Begins what a mouse button asks for. `sample` is what lies under the cell of the event, and
/// `pointer` says whether the pointer of the desktop can be moved.
pub fn on_mouse(
    state: &ViewerState,
    mouse: MouseEvent,
    layout: DrawLayout,
    output: &OutputGeometry,
    sample: PointerSample,
    pointer: bool,
) -> (task: Task)
    ensures
        task == click_task(state@, clicked(mouse, layout, output, sample), pointer),
{
    match map_click(mouse, layout, output, sample) {
        None => Task::Nothing,
        Some((point, button)) => if state.control && state.mouse_armed {
            if pointer {
                Task::Click(point, button)
            } else {
                Task::Echo
            }
        } else {
            match button {
                PointerButton::Left => Task::Focus(point),
                PointerButton::Right => Task::Echo,
            }
        },
    }
}

/// What is said of a click.
pub open spec fn click_words(point: LogicalPoint, button: PointerButton) -> Seq<char> {
    (match button {
        PointerButton::Left => "Left"@,
        PointerButton::Right => "Right"@,
    }) + " clicked "@ + text::decimal(point.local_x as nat) + ":"@ + text::decimal(
        point.local_y as nat,
    ) + " (global "@ + text::signed(point.global_x as int) + ","@ + text::signed(
        point.global_y as int,
    ) + ")"@
}

/// What comes of sending a click. Where no damage is reported, the frame is captured again.
pub open spec fn click_outcome(
    state: ViewerModel,
    point: LogicalPoint,
    button: PointerButton,
    error: Option<Seq<char>>,
    watching: bool,
    now: u128,
) -> (ViewerModel, Task) {
    match error {
        None => (
            state.told(click_words(point, button), now),
            if watching {
                Task::Echo
            } else {
                Task::Capture(CaptureReason::Click)
            },
        ),
        Some(error) => (state.warned("Click failed: "@ + error, now), Task::Echo),
    }
}

/// Goes on after a click was sent, or could not be.
pub fn on_clicked(
    state: &mut ViewerState,
    point: LogicalPoint,
    button: PointerButton,
    error: Option<String>,
    watching: bool,
    now: u128,
) -> (task: Task)
    requires
        old(state).wf(),
        now <= LATEST,
    ensures
        final(state).wf(),
        (final(state)@, task) == click_outcome(
            old(state)@,
            point,
            button,
            words_of(error),
            watching,
            now,
        ),
{
    match error {
        None => {
            let mut words = match button {
                PointerButton::Left => "Left".to_owned(),
                PointerButton::Right => "Right".to_owned(),
            };
            words.append(" clicked ");
            push_decimal(&mut words, point.local_x as u64);
            words.append(":");
            push_decimal(&mut words, point.local_y as u64);
            words.append(" (global ");
            push_signed(&mut words, point.global_x);
            words.append(",");
            push_signed(&mut words, point.global_y);
            words.append(")");
            state.message(words, now);
            if watching {
                Task::Echo
            } else {
                Task::Capture(CaptureReason::Click)
            }
        },
        Some(error) => {
            state.error(told("Click failed: ", error.as_str()), now);
            Task::Echo
        },
    }
}

/// What comes of computing a view.
pub open spec fn view_outcome(state: ViewerModel, viewport: Option<Viewport>) -> (
    ViewerModel,
    Task,
) {
    match viewport {
        Some(viewport) => (ViewerModel { viewport, message: None, ..state }, Task::Draw),
        None => (state, Task::Nothing),
    }
}

/// Goes on with a view, where it changes.
pub fn on_viewed(state: &mut ViewerState, viewport: Option<Viewport>) -> (task: Task)
    requires
        old(state).wf(),
    ensures
        final(state).wf(),
        (final(state)@, task) == view_outcome(old(state)@, viewport),
{
    match state.complete_view(viewport) {
        Effect::Redraw => Task::Draw,
        _ => Task::Nothing,
    }
}

/// What comes of computing a view that lies nearer to a point. `zoom` is its magnification in
/// words.
pub open spec fn focus_outcome(
    state: ViewerModel,
    point: LogicalPoint,
    viewport: Option<Viewport>,
    zoom: Seq<char>,
    now: u128,
) -> (ViewerModel, Task) {
    match viewport {
        Some(viewport) => (
            ViewerModel { viewport, ..state }.told(
                "Focused toward "@ + text::decimal(point.local_x as nat) + ":"@ + text::decimal(
                    point.local_y as nat,
                ) + "; "@ + zoom + "x"@,
                now,
            ),
            Task::Draw,
        ),
        None => (state, Task::Echo),
    }
}

/// Goes on with a view that lies nearer to a point, where there is one.
pub fn on_focused(
    state: &mut ViewerState,
    point: LogicalPoint,
    viewport: Option<Viewport>,
    zoom: &str,
    now: u128,
) -> (task: Task)
    requires
        old(state).wf(),
        now <= LATEST,
    ensures
        final(state).wf(),
        (final(state)@, task) == focus_outcome(old(state)@, point, viewport, zoom@, now),
{
    match state.complete_view(viewport) {
        Effect::Redraw => {
            let mut words = "Focused toward ".to_owned();
            push_decimal(&mut words, point.local_x as u64);
            words.append(":");
            push_decimal(&mut words, point.local_y as u64);
            words.append("; ");
            words.append(zoom);
            words.append("x");
            state.message(words, now);
            Task::Draw
        },
        _ => Task::Echo,
    }
}

/// What a movement asks of the desktop. It scrolls under the last event that lies in the image.
pub open spec fn scroll_task(
    movement: Option<(ScrollAxis, i32)>,
    events: Seq<MouseEvent>,
    layout: DrawLayout,
    output: &OutputGeometry,
    sample: PointerSample,
    pointer: bool,
) -> Task {
    let anchored = output.transform@ == "Normal"@ && exists|i: int|
        0 <= i < events.len() && scroll::within(layout.cols, layout.rows)(#[trigger] events[i]);
    match movement {
        Some((axis, steps)) => if anchored && pointer {
            Task::Scroll(
                layout::point_of(sample, output.x, output.y),
                axis == ScrollAxis::Horizontal,
                scroll::frame_steps(steps as int) as i32,
            )
        } else {
            Task::Nothing
        },
        None => Task::Nothing,
    }
}

/// What scrolling asks for.
pub open spec fn scroll_outcome(
    state: ViewerModel,
    events: Seq<MouseEvent>,
    layout: DrawLayout,
    output: &OutputGeometry,
    sample: PointerSample,
    pointer: bool,
    now: u128,
) -> (ViewerModel, Task) {
    let (gesture, movement) = scroll::consumed(
        state.scroll_gesture,
        events.filter(scroll::within(layout.cols, layout.rows)),
        now,
    );
    (
        ViewerModel { scroll_gesture: gesture, ..state },
        match state.scroll_target {
            ScrollTarget::Desktop => scroll_task(
                movement,
                events,
                layout,
                output,
                sample,
                pointer,
            ),
            ScrollTarget::View => match viewer::scroll_effect(movement) {
                Effect::View(command) => Task::View(command),
                _ => Task::Nothing,
            },
        },
    )
}

/// Begins what scrolling asks for. `sample` is what lies under the last event in the image.
pub fn on_scroll(
    state: &mut ViewerState,
    events: &[MouseEvent],
    layout: DrawLayout,
    output: &OutputGeometry,
    sample: PointerSample,
    pointer: bool,
    now: u128,
) -> (task: Task)
    requires
        old(state).wf(),
        old(state)@.scroll_gesture.room_for(events@.len()),
    ensures
        final(state).wf(),
        (final(state)@, task) == scroll_outcome(
            old(state)@,
            events@,
            layout,
            output,
            sample,
            pointer,
            now,
        ),
{
    match state.scroll_target {
        ScrollTarget::Desktop => {
            let movement = state.scroll_movement(events, layout.cols, layout.rows, now);
            let anchor = match last_within(events, layout.cols, layout.rows) {
                Some(event) => map_pointer_position(event, layout, output, sample),
                None => None,
            };
            match (movement, anchor) {
                (Some((axis, steps)), Some(point)) => if pointer {
                    let horizontal = match axis {
                        ScrollAxis::Horizontal => true,
                        ScrollAxis::Vertical => false,
                    };
                    Task::Scroll(point, horizontal, clamp_steps(steps))
                } else {
                    Task::Nothing
                },
                _ => Task::Nothing,
            }
        },
        ScrollTarget::View => match state.handle_scroll_batch(
            events,
            layout.cols,
            layout.rows,
            now,
        ) {
            Effect::View(command) => Task::View(command),
            _ => Task::Nothing,
        },
    }
}

/// Whether a new frame must be drawn: where damage may show, and something changed there.
pub open spec fn shows_change(
    before: Pixels,
    after: Pixels,
    damage: Seq<DamageRect>,
    viewport: ViewportRect,
) -> bool {
    let (x, y) = (viewport.x as int, viewport.y as int);
    let (width, height) = (viewport.width as nat, viewport.height as nat);
    &&& damage.len() == 0 || exists|i: int|
        0 <= i < damage.len() && layout::overlaps(#[trigger] damage[i], viewport)
    &&& before.width != after.width || before.height != after.height || x + width > before.width
        || y + height > before.height || before.crop(x, y, width, height) != after.crop(
        x,
        y,
        width,
        height,
    )
}

/// What comes of a new frame.
pub open spec fn damage_outcome(
    state: ViewerModel,
    terminal: TerminalModel,
    shows: bool,
    now: u128,
) -> (ViewerModel, TerminalModel, Task) {
    if shows {
        (
            ViewerModel { auto_refresh_at: None, ..state },
            terminal::visibly_damaged(terminal, now),
            Task::Draw,
        )
    } else {
        (state, terminal::damaged(terminal, now), Task::Nothing)
    }
}

/// Goes on with a new frame, and says whether it must be drawn.
pub fn on_damage(
    state: &mut ViewerState,
    terminal: &mut Terminal,
    before: &RgbImage,
    after: &RgbImage,
    damage: &[DamageRect],
    viewport: ViewportRect,
    now: u128,
) -> (task: Task)
    requires
        old(state).wf(),
        old(terminal).wf(),
        before.wf(),
        after.wf(),
        before.width < u32::MAX || viewport.x + viewport.width <= u32::MAX,
        before.height < u32::MAX || viewport.y + viewport.height <= u32::MAX,
        now <= LATEST,
    ensures
        final(state).wf(),
        final(terminal).wf(),
        (final(state)@, final(terminal)@, task) == damage_outcome(
            old(state)@,
            old(terminal)@,
            shows_change(before@, after@, damage@, viewport),
            now,
        ),
{
    if damage_affects_viewport(damage, viewport) && visible_region_changed(before, after, viewport) {
        state.cancel_auto_refresh();
        terminal.note_visible_damage(now);
        Task::Draw
    } else {
        // The atlas covers the whole output, so that damage outside the view makes it stale too.
        terminal.note_frame_damage(now);
        Task::Nothing
    }
}

/// What comes of losing live updates.
pub open spec fn loss_outcome(state: ViewerModel, reason: Seq<char>, now: u128) -> (
    ViewerModel,
    Task,
) {
    (state.warned("Live updates disabled: "@ + reason, now), Task::Echo)
}

/// Goes on without live updates.
pub fn on_damage_lost(state: &mut ViewerState, reason: &str, now: u128) -> (task: Task)
    requires
        old(state).wf(),
        now <= LATEST,
    ensures
        final(state).wf(),
        (final(state)@, task) == loss_outcome(old(state)@, reason@, now),
{
    state.error(told("Live updates disabled: ", reason), now);
    Task::Echo
}

/// How long to wait for an event: not at all while output makes progress, and never long while
/// output waits or damage may be reported.
pub open spec fn poll_wait(
    state: ViewerModel,
    terminal: TerminalModel,
    watching: bool,
    progress: bool,
    now: u128,
) -> Option<u128> {
    let wakeup = viewer::earliest(
        viewer::time_until(
            viewer::earliest(
                match state.message {
                    Some((_, expires_at)) => Some(expires_at),
                    None => None,
                },
                state.auto_refresh_at,
            ),
            now,
        ),
        terminal::wakeup(terminal, now),
    );
    let watched = if watching {
        viewer::earliest(wakeup, Some(DAMAGE_POLL_INTERVAL))
    } else {
        wakeup
    };
    if terminal::pending(terminal) {
        viewer::earliest(
            watched,
            Some(
                if progress {
                    0
                } else {
                    OUTPUT_RETRY_INTERVAL
                },
            ),
        )
    } else {
        watched
    }
}

/// How long to wait for an event.
pub fn poll_timeout(
    state: &ViewerState,
    terminal: &Terminal,
    watching: bool,
    progress: bool,
    now: u128,
) -> (timeout: Option<u128>)
    ensures
        timeout == poll_wait(state@, terminal@, watching, progress, now),
{
    let mut timeout = earliest_timeout(
        state.next_wakeup_timeout(now),
        terminal.next_wakeup_timeout(now),
    );
    if watching {
        timeout = earliest_timeout(timeout, Some(DAMAGE_POLL_INTERVAL));
    }
    if terminal.has_pending_output() {
        let retry: u128 = if progress {
            0
        } else {
            OUTPUT_RETRY_INTERVAL
        };
        timeout = earliest_timeout(timeout, Some(retry));
    }
    timeout
}

/// A terminal that gained the focus: its image is drawn anew.
pub open spec fn focus_gained(terminal: TerminalModel) -> TerminalModel {
    TerminalModel { last_image: None, force_kitty_redraw: true, kitty_refine_at: None, ..terminal }
}

/// Draws anew after the terminal gained the focus.
pub fn on_focus_gained(terminal: &mut Terminal) -> (task: Task)
    requires
        old(terminal).wf(),
    ensures
        final(terminal).wf(),
        final(terminal)@ == focus_gained(old(terminal)@),
        task == Task::Draw,
{
    terminal.invalidate_image();
    Task::Draw
}

} // verus!
