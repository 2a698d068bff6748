//! What holds of the viewer whatever the keys are.

use crate::input::PointerButton;
use crate::keys;
use crate::keys::{EncodedKey, KeyCode, KeyEvent};
use crate::layout::{DrawLayout, LogicalPoint, PointerSample};
use crate::niri::OutputGeometry;
use crate::scroll::MouseEvent;
use crate::session;
use crate::session::Task;
use crate::terminal::TerminalModel;
use crate::viewer;
use crate::viewer::{Effect, InteractionMode, ScrollTarget, ViewerModel};
use vstd::prelude::*;

verus! {

/// Whether a viewer without control leaves the desktop alone.
pub open spec fn hands_off(model: ViewerModel) -> bool {
    !model.control ==> model.mode == InteractionMode::Nav && !model.mouse_armed
        && model.scroll_target == ScrollTarget::View && !model.prefix_pending
        && !model.idle_inhibited
}

/// No key makes a viewer without control touch the desktop.
pub proof fn lemma_view_only(model: ViewerModel, key: KeyEvent, now: u128)
    requires
        hands_off(model),
    ensures
        ({
            let (next, effect) = viewer::key_outcome(model, key, now);
            &&& next.control == model.control
            &&& hands_off(next)
            &&& !model.control ==> !(effect is SendKey) && !(effect is SendUnicode) && !(
            effect is ToggleIdleInhibit)
        }),
{
}

/// No mouse button makes a viewer without control touch the desktop.
pub proof fn lemma_view_only_mouse(
    model: ViewerModel,
    click: Option<(LogicalPoint, PointerButton)>,
    pointer: bool,
)
    requires
        !model.control,
    ensures
        !(session::click_task(model, click, pointer) is Click),
{
}

/// No scrolling makes a viewer without control touch the desktop.
pub proof fn lemma_view_only_scroll(
    model: ViewerModel,
    events: Seq<MouseEvent>,
    layout: DrawLayout,
    output: &OutputGeometry,
    sample: PointerSample,
    pointer: bool,
    now: u128,
)
    requires
        hands_off(model),
    ensures
        ({
            let (next, task) = session::scroll_outcome(
                model,
                events,
                layout,
                output,
                sample,
                pointer,
                now,
            );
            &&& next.control == model.control
            &&& hands_off(next)
            &&& !model.control ==> task is View || task is Nothing
        }),
{
}

/// A click reaches the desktop only while the mouse is armed.
pub proof fn lemma_click_needs_arming(
    model: ViewerModel,
    click: Option<(LogicalPoint, PointerButton)>,
    pointer: bool,
)
    ensures
        session::click_task(model, click, pointer) is Click ==> model.control && model.mouse_armed
            && pointer,
{
}

/// In input mode the prefix and `t` lead back to navigation, and send nothing.
pub proof fn lemma_prefix_returns(
    model: ViewerModel,
    prefix: KeyEvent,
    key: KeyEvent,
    now: u128,
    later: u128,
)
    requires
        model.mode == InteractionMode::Input,
        !model.prefix_pending,
        model.display_settings is None,
        model.palette is None,
        keys::is_prefix(prefix),
        key.code == KeyCode::Char('t'),
    ensures
        ({
            let (waiting, first) = viewer::key_outcome(model, prefix, now);
            let (next, second) = viewer::key_outcome(waiting, key, later);
            &&& first == Effect::Chrome
            &&& second == Effect::Chrome
            &&& next.mode == InteractionMode::Nav
            &&& !next.prefix_pending
        }),
{
}

/// In input mode the doubled prefix sends the prefix once.
pub proof fn lemma_doubled_prefix(
    model: ViewerModel,
    first: KeyEvent,
    second: KeyEvent,
    now: u128,
    later: u128,
)
    requires
        model.mode == InteractionMode::Input,
        !model.prefix_pending,
        model.display_settings is None,
        model.palette is None,
        keys::is_prefix(first),
        keys::is_prefix(second),
    ensures
        ({
            let (waiting, _) = viewer::key_outcome(model, first, now);
            let (next, effect) = viewer::key_outcome(waiting, second, later);
            &&& effect == Effect::SendKey(
                EncodedKey { keycode: 43, modifiers: keys::MOD_CONTROL },
            )
            &&& next.mode == InteractionMode::Input
            &&& !next.prefix_pending
        }),
{
}

/// In input mode a key that is no prefix neither moves the view nor ends the session, and leaves
/// the mode as it is.
pub proof fn lemma_input_goes_through(model: ViewerModel, key: KeyEvent, now: u128)
    requires
        model.mode == InteractionMode::Input,
        !model.prefix_pending,
        model.display_settings is None,
        model.palette is None,
        !keys::is_prefix(key),
    ensures
        ({
            let (next, effect) = viewer::key_outcome(model, key, now);
            &&& effect is SendKey || effect is SendUnicode || effect is Chrome
            &&& effect is Chrome <==> keys::encoded(key) is None && !(key.code is Char
                && key.code->Char_0 as u32 >= 128)
            &&& next.mode == model.mode
            &&& next.viewport == model.viewport
        }),
{
}

/// Keys with control, alt or the logo key never move the view.
pub proof fn lemma_modified_keys(key: KeyEvent)
    requires
        key.modifiers.commanding(),
    ensures
        viewer::view_command(key) is None,
{
}

/// An action that is to be run is one that is configured.
pub proof fn lemma_actions_exist(model: ViewerModel, key: KeyEvent, now: u128)
    requires
        model.wf(),
    ensures
        viewer::key_outcome(model, key, now).1 matches Effect::RunAction(index) ==> index
            < model.actions.len(),
{
    let query = match model.palette {
        Some((query, _)) => query,
        None => seq![],
    };
    viewer::lemma_matching_bounded(model.actions, query, model.actions.len() as int);
}

/// A character that is typed and taken back leaves the query as it was.
pub proof fn lemma_typed_and_taken_back(
    model: ViewerModel,
    typed: KeyEvent,
    back: KeyEvent,
    now: u128,
    later: u128,
)
    requires
        model.display_settings is None,
        model.palette is Some,
        typed.code is Char,
        !typed.modifiers.commanding(),
        back.code == KeyCode::Backspace,
    ensures
        ({
            let (first, _) = viewer::key_outcome(model, typed, now);
            let (next, _) = viewer::key_outcome(first, back, later);
            next.palette == Some(((model.palette->0).0, 0usize))
        }),
{
    let query = (model.palette->0).0;
    assert(query.push(typed.code->Char_0).drop_last() =~= query);
}

/// What is due is done once: a second look at the same time finds nothing.
pub proof fn lemma_due_once(state: ViewerModel, terminal: TerminalModel, now: u128)
    ensures
        ({
            let (next_state, next_terminal, _) = session::timeout_outcome(state, terminal, now);
            session::timeout_outcome(next_state, next_terminal, now) == (
                next_state,
                next_terminal,
                Task::Nothing,
            )
        }),
{
}

/// Whoever waits as long as is said finds something to do, where only times are waited for.
pub proof fn lemma_wait_ends(state: ViewerModel, terminal: TerminalModel, now: u128)
    requires
        !crate::terminal::pending(terminal),
    ensures
        session::poll_wait(state, terminal, false, false, now) matches Some(wait) ==> (now + wait
            <= u128::MAX ==> session::timeout_outcome(
            state,
            terminal,
            (now + wait) as u128,
        ).2 != Task::Nothing),
{
}

} // verus!
