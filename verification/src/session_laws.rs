//! What holds of a whole session, whatever happens in it.

use crate::config::Action;
use crate::keys::KeyEvent;
use crate::layout::{DrawLayout, PointerSample};
use crate::niri::OutputGeometry;
use crate::pixels::Pixels;
use crate::render::{Viewport, ViewportRect};
use crate::screencopy::DamageRect;
use crate::scroll::MouseEvent;
use crate::session;
use crate::session::{Injection, Notice, Task};
use crate::terminal::TerminalModel;
use crate::viewer;
use crate::viewer::{Backend, ViewerModel};
use crate::viewer_laws;
use vstd::prelude::*;

verus! {

/// What a session goes through: what the user does, what the desktop shows, and what comes of the
/// tasks. A `None` among the latter says that a task succeeded, a text why it failed.
pub ghost enum Happening {
    /// It was tried to keep the desktop awake when the session begins.
    Held(Option<Seq<char>>),
    /// Something works otherwise than was asked for.
    Noticed(Notice, Seq<char>),
    /// A key, and whether the desktop is kept awake and keys can be sent.
    Key(KeyEvent, bool, bool),
    /// A mouse button, and whether the pointer of the desktop can be moved.
    Button(MouseEvent, DrawLayout, OutputGeometry, PointerSample, bool),
    /// Scrolling, and whether the pointer of the desktop can be moved.
    Scrolling(Seq<MouseEvent>, DrawLayout, OutputGeometry, PointerSample, bool),
    /// Nothing, for as long as was waited.
    Quiet,
    /// The terminal has another size.
    Resized,
    /// The terminal gained the focus.
    FocusGained,
    /// A new frame after the last one.
    Damage(Pixels, Pixels, Seq<DamageRect>, ViewportRect),
    /// There are no more new frames.
    DamageLost(Seq<char>),
    /// Output was written or drawn, which leaves the terminal in some state.
    Output(TerminalModel),
    Captured(Option<Seq<char>>),
    Spawned(Seq<char>, Option<Seq<char>>),
    Released,
    Inhibited(Option<Seq<char>>),
    /// Input was sent, and whether damage is reported.
    Injected(Option<Seq<char>>, bool),
    /// A click was sent, and whether damage is reported.
    Clicked(Option<Seq<char>>, bool),
    Viewed(Option<Viewport>),
    /// A view was computed, and its magnification in words.
    Focused(Option<Viewport>, Seq<char>),
}

/// Where a session stands: what it knows, what the terminal shows, and what must be done next.
pub ghost struct Standing {
    pub state: ViewerModel,
    pub terminal: TerminalModel,
    pub task: Task,
}

/// A session that begins.
pub open spec fn begun(
    viewport: Viewport,
    control: bool,
    actions: Seq<Action>,
    backend: Backend,
    terminal: TerminalModel,
) -> Standing {
    Standing {
        state: ViewerModel { actions, graphics_backend: backend, ..viewer::fresh(viewport, control) },
        terminal,
        task: Task::Nothing,
    }
}

/// What is sent where a task sends input.
pub open spec fn injection_of(task: Task) -> Option<Injection> {
    match task {
        Task::SendKey(_) => Some(Injection::Key),
        Task::SendUnicode(_) => Some(Injection::Unicode),
        Task::Scroll(_, _, _) => Some(Injection::Scroll),
        _ => None,
    }
}

/// Where a session stands after something happened. What comes of a task counts only where that
/// task was to be done.
pub open spec fn stepped(at: Standing, happening: Happening, now: u128) -> Standing {
    let (state, terminal, task) = match happening {
        Happening::Held(error) => if session::hold_of(at.state.control).inhibitor {
            (session::held(at.state, error, now), at.terminal, at.task)
        } else {
            (at.state, at.terminal, at.task)
        },
        Happening::Noticed(notice, reason) => (
            session::announced(at.state, notice, reason, now),
            at.terminal,
            at.task,
        ),
        Happening::Key(key, inhibiting, keyboard) => {
            let (next, effect) = viewer::key_outcome(at.state, key, now);
            session::effect_outcome(next, at.terminal, effect, inhibiting, keyboard, now)
        },
        Happening::Button(mouse, layout, output, sample, pointer) => (
            at.state,
            at.terminal,
            session::click_task(
                at.state,
                session::clicked(mouse, layout, &output, sample),
                pointer,
            ),
        ),
        Happening::Scrolling(events, layout, output, sample, pointer) => {
            let (next, task) = session::scroll_outcome(
                at.state,
                events,
                layout,
                &output,
                sample,
                pointer,
                now,
            );
            (next, at.terminal, task)
        },
        Happening::Quiet => session::timeout_outcome(at.state, at.terminal, now),
        Happening::Resized => (at.state, at.terminal, Task::Draw),
        Happening::FocusGained => (at.state, session::focus_gained(at.terminal), Task::Draw),
        Happening::Damage(before, after, damage, viewport) => session::damage_outcome(
            at.state,
            at.terminal,
            session::shows_change(before, after, damage, viewport),
            now,
        ),
        Happening::DamageLost(reason) => {
            let (next, task) = session::loss_outcome(at.state, reason, now);
            (next, at.terminal, task)
        },
        Happening::Output(terminal) => (at.state, terminal, Task::Nothing),
        Happening::Captured(error) => match at.task {
            Task::Capture(reason) => session::capture_outcome(
                at.state,
                at.terminal,
                reason,
                error,
                now,
            ),
            _ => (at.state, at.terminal, at.task),
        },
        Happening::Spawned(name, error) => match at.task {
            Task::Spawn(_) => {
                let (next, task) = session::spawn_outcome(at.state, name, error, now);
                (next, at.terminal, task)
            },
            _ => (at.state, at.terminal, at.task),
        },
        Happening::Released => match at.task {
            Task::ReleaseInhibitor => (at.state, at.terminal, Task::Chrome),
            _ => (at.state, at.terminal, at.task),
        },
        Happening::Inhibited(error) => match at.task {
            Task::AcquireInhibitor => {
                let (next, task) = session::inhibit_outcome(at.state, error, now);
                (next, at.terminal, task)
            },
            _ => (at.state, at.terminal, at.task),
        },
        Happening::Injected(error, watching) => match injection_of(at.task) {
            Some(injection) => {
                let (next, task) = session::injection_outcome(
                    at.state,
                    injection,
                    error,
                    watching,
                    now,
                );
                (next, at.terminal, task)
            },
            None => (at.state, at.terminal, at.task),
        },
        Happening::Clicked(error, watching) => match at.task {
            Task::Click(point, button) => {
                let (next, task) = session::click_outcome(
                    at.state,
                    point,
                    button,
                    error,
                    watching,
                    now,
                );
                (next, at.terminal, task)
            },
            _ => (at.state, at.terminal, at.task),
        },
        Happening::Viewed(viewport) => match at.task {
            Task::View(_) => {
                let (next, task) = session::view_outcome(at.state, viewport);
                (next, at.terminal, task)
            },
            _ => (at.state, at.terminal, at.task),
        },
        Happening::Focused(viewport, zoom) => match at.task {
            Task::Focus(point) => {
                let (next, task) = session::focus_outcome(at.state, point, viewport, zoom, now);
                (next, at.terminal, task)
            },
            _ => (at.state, at.terminal, at.task),
        },
    };
    Standing { state, terminal, task }
}

/// Where a session stands after everything that happened, each at its time.
pub open spec fn after(start: Standing, happenings: Seq<(Happening, u128)>) -> Standing
    decreases happenings.len(),
{
    if happenings.len() == 0 {
        start
    } else {
        let (happening, now) = happenings.last();
        stepped(after(start, happenings.drop_last()), happening, now)
    }
}

/// Whether a task acts on the desktop: it sends input, or decides whether the desktop stays awake.
pub open spec fn touches(task: Task) -> bool {
    ||| task is SendKey
    ||| task is SendUnicode
    ||| task is Click
    ||| task is Scroll
    ||| task is AcquireInhibitor
    ||| task is ReleaseInhibitor
}

/// Whether a session has no control, and leaves the desktop alone.
pub open spec fn only_views(at: Standing) -> bool {
    !at.state.control && viewer_laws::hands_off(at.state) && !touches(at.task)
}

/// A session that only views goes on to do so, whatever happens next.
pub proof fn lemma_views_on(at: Standing, happening: Happening, now: u128)
    requires
        only_views(at),
    ensures
        only_views(stepped(at, happening, now)),
{
    match happening {
        Happening::Key(key, _, _) => {
            viewer_laws::lemma_view_only(at.state, key, now);
        },
        Happening::Button(mouse, layout, output, sample, pointer) => {
            viewer_laws::lemma_view_only_mouse(
                at.state,
                session::clicked(mouse, layout, &output, sample),
                pointer,
            );
        },
        Happening::Scrolling(events, layout, output, sample, pointer) => {
            viewer_laws::lemma_view_only_scroll(
                at.state,
                events,
                layout,
                &output,
                sample,
                pointer,
                now,
            );
        },
        _ => {},
    }
}

/// A session without control never acts on the desktop. It takes hold of neither pointer nor
/// keyboard, and whatever happens in it, in whatever order, it sends no key, no character, no
/// click and no scrolling, and never keeps the desktop awake.
pub proof fn lemma_view_only_session(
    viewport: Viewport,
    actions: Seq<Action>,
    backend: Backend,
    terminal: TerminalModel,
    happenings: Seq<(Happening, u128)>,
)
    ensures
        ({
            let end = after(begun(viewport, false, actions, backend, terminal), happenings);
            let hold = session::hold_of(end.state.control);
            &&& !end.state.control
            &&& !hold.pointer && !hold.keyboard && !hold.inhibitor
            &&& !touches(end.task)
            &&& !end.state.idle_inhibited
            &&& viewer_laws::hands_off(end.state)
        }),
    decreases happenings.len(),
{
    if happenings.len() > 0 {
        lemma_view_only_session(viewport, actions, backend, terminal, happenings.drop_last());
        let (happening, now) = happenings.last();
        lemma_views_on(
            after(
                begun(viewport, false, actions, backend, terminal),
                happenings.drop_last(),
            ),
            happening,
            now,
        );
    }
}

} // verus!
