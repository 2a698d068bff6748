//! What holds of the keys that command the viewer.

use crate::keys::{KeyCode, KeyEvent};
use crate::scroll;
use crate::text;
use crate::viewer;
use crate::viewer::{
    DisplaySetting, Effect, GraphicsCommand, InteractionMode, ScrollTarget, ViewCommand,
    ViewerModel,
};
use vstd::prelude::*;

verus! {

/// Whether a key is pressed without control, alt and the logo key.
pub open spec fn unmodified(key: KeyEvent) -> bool {
    !key.modifiers.control && !key.modifiers.alt && !key.modifiers.logo
}

/// The same key press with another key.
pub open spec fn instead(key: KeyEvent, code: KeyCode) -> KeyEvent {
    KeyEvent { code, ..key }
}

/// How far a key pans to the right and down.
pub open spec fn panned(key: KeyEvent) -> (int, int) {
    match viewer::view_command(key) {
        Some(ViewCommand::Pan(x, y)) => (x as int, y as int),
        _ => (0, 0),
    }
}

/// The arrows pan by one step of four quarters, each in its direction, and so do the four letters
/// that stand for them. Opposite keys undo each other.
pub proof fn lemma_pan_keys(key: KeyEvent)
    requires
        unmodified(key),
    ensures
        ({
            let right = panned(instead(key, KeyCode::Right));
            let left = panned(instead(key, KeyCode::Left));
            let down = panned(instead(key, KeyCode::Down));
            let up = panned(instead(key, KeyCode::Up));
            &&& right.0 > 0 && right.1 == 0
            &&& down.1 > 0 && down.0 == 0
            &&& right.0 == 4 && down.1 == 4
            &&& left.0 + right.0 == 0 && left.1 + right.1 == 0
            &&& up.0 + down.0 == 0 && up.1 + down.1 == 0
            &&& panned(instead(key, KeyCode::Char('l'))) == right
            &&& panned(instead(key, KeyCode::Char('h'))) == left
            &&& panned(instead(key, KeyCode::Char('j'))) == down
            &&& panned(instead(key, KeyCode::Char('k'))) == up
        }),
{
}

/// A digit zooms so many times, nought shows everything, plus and minus zoom in and out.
pub proof fn lemma_zoom_keys(key: KeyEvent, times: nat)
    requires
        unmodified(key),
        1 <= times <= 9,
    ensures
        text::decimal(times).len() == 1,
        viewer::view_command(instead(key, KeyCode::Char(text::decimal(times)[0]))) == Some(
            ViewCommand::ZoomTo(times as u32),
        ),
        text::decimal(0).len() == 1,
        viewer::view_command(instead(key, KeyCode::Char(text::decimal(0)[0]))) == Some(
            ViewCommand::Overview,
        ),
        viewer::view_command(instead(key, KeyCode::Char('+'))) == Some(ViewCommand::ZoomIn),
        viewer::view_command(instead(key, KeyCode::Char('='))) == Some(ViewCommand::ZoomIn),
        viewer::view_command(instead(key, KeyCode::Char('-'))) == Some(ViewCommand::ZoomOut),
        viewer::view_command(instead(key, KeyCode::Char('c'))) == Some(ViewCommand::Center),
{
    reveal_with_fuel(text::decimal, 2);
}

/// A modified key never changes the view, and no letter does but the few that stand for a command.
pub proof fn lemma_other_keys(key: KeyEvent)
    ensures
        !unmodified(key) ==> viewer::view_command(key) is None,
        key.code is Char && (key.code->Char_0 >= 'm' || key.code->Char_0 == 'a'
            || key.code->Char_0 == 'b' || 'd' <= key.code->Char_0 <= 'g' || key.code->Char_0 == 'i')
            ==> viewer::view_command(key) is None,
        key.code is Esc || key.code is Enter || key.code is Tab || key.code is BackTab
            || key.code is Backspace ==> viewer::view_command(key) is None,
{
}

/// A viewer that shows nothing over the frame, in navigation mode.
pub open spec fn navigating(model: ViewerModel) -> bool {
    &&& model.display_settings is None
    &&& model.palette is None
    &&& model.mode == InteractionMode::Nav
}

/// A viewer in input mode after the command prefix.
pub open spec fn commanded(model: ViewerModel) -> bool {
    &&& model.display_settings is None
    &&& model.palette is None
    &&& model.mode == InteractionMode::Input
    &&& model.prefix_pending
}

/// In navigation mode `q`, escape, and control with `c` or `d` leave the viewer, and no other key
/// does. `r` has the frame captured again, and no other key does.
pub proof fn lemma_leaving_keys(model: ViewerModel, key: KeyEvent, now: u128)
    requires
        navigating(model),
    ensures
        ({
            let (next, effect) = viewer::key_outcome(model, key, now);
            let leaves = key.code is Esc || key.code == KeyCode::Char('q') || key.modifiers.control
                && (key.code == KeyCode::Char('c') || key.code == KeyCode::Char('d'));
            &&& effect == Effect::Quit <==> leaves
            &&& effect == Effect::Refresh <==> key.code == KeyCode::Char('r')
            &&& effect == Effect::Quit || effect == Effect::Refresh || effect is View ==> next
                == model
            &&& effect is View ==> viewer::view_command(key) == Some(effect->View_0)
            &&& viewer::view_command(key) is Some ==> effect is View
        }),
{
}

/// Behind the command prefix a command key does in input mode what it does alone in navigation
/// mode.
pub proof fn lemma_prefixed_as_plain(
    model: ViewerModel,
    other: ViewerModel,
    key: KeyEvent,
    now: u128,
)
    requires
        commanded(model),
        model.control,
        other == (ViewerModel { mode: InteractionMode::Nav, prefix_pending: false, ..model }),
        unmodified(key),
        viewer::view_command(key) is Some || key.code == KeyCode::Char('q') || key.code
            == KeyCode::Char('r') || key.code == KeyCode::Char('i') || key.code == KeyCode::Char(
            's',
        ) || key.code == KeyCode::Char('a') || key.code == KeyCode::Char('x') || key.code
            == KeyCode::Char('g') || key.code == KeyCode::Char('?'),
    ensures
        ({
            let (next, effect) = viewer::key_outcome(model, key, now);
            let (plain, same) = viewer::key_outcome(other, key, now);
            &&& effect == same
            &&& next.mode == InteractionMode::Input
            &&& !next.prefix_pending
            &&& plain == ViewerModel {
                mode: InteractionMode::Nav,
                message: plain.message,
                ..next
            }
        }),
{
}

/// In input mode the prefix is told for two seconds and waits for a command. Nothing is sent.
pub proof fn lemma_prefix_waits(model: ViewerModel, key: KeyEvent, now: u128)
    requires
        model.display_settings is None,
        model.palette is None,
        model.mode == InteractionMode::Input,
        !model.prefix_pending,
        key.modifiers.control,
        key.code == KeyCode::Char('\\') || key.code == KeyCode::Char('4'),
    ensures
        viewer::key_outcome(model, key, now) == (
            ViewerModel {
                prefix_pending: true,
                message: Some(("C-\\-"@, (now + 2_000_000_000) as u128)),
                ..model
            },
            Effect::Chrome,
        ),
{
}

/// With control `t` hands the keys to the desktop, and behind the command prefix it takes them
/// back. All else stays as it is. Without control it does nothing.
pub proof fn lemma_modes_switch(model: ViewerModel, key: KeyEvent, now: u128, later: u128)
    requires
        navigating(model),
        key.code == KeyCode::Char('t'),
        unmodified(key),
    ensures
        ({
            let (next, effect) = viewer::key_outcome(model, key, now);
            let waiting = ViewerModel { prefix_pending: true, ..next };
            let (back, done) = viewer::key_outcome(waiting, key, later);
            if model.control {
                &&& next == (ViewerModel {
                    mode: InteractionMode::Input,
                    prefix_pending: false,
                    message: next.message,
                    ..model
                })
                &&& effect == Effect::Chrome
                &&& back == (ViewerModel {
                    prefix_pending: false,
                    message: back.message,
                    ..model
                })
                &&& done == Effect::Chrome
            } else {
                next == model && effect == Effect::Nothing
            }
        }),
{
}

/// With control `i` arms the mouse or disarms it, and `s` has the wheel scroll the desktop or the
/// view. A second press undoes the first. The gesture that went on ends.
pub proof fn lemma_toggles(model: ViewerModel, key: KeyEvent, now: u128, later: u128)
    requires
        navigating(model),
        model.control,
    ensures
        ({
            let arm = instead(key, KeyCode::Char('i'));
            let aim = instead(key, KeyCode::Char('s'));
            let armed = viewer::key_outcome(model, arm, now).0;
            let aimed = viewer::key_outcome(model, aim, now).0;
            let disarmed = viewer::key_outcome(armed, arm, later).0;
            let back = viewer::key_outcome(aimed, aim, later).0;
            &&& armed == (ViewerModel {
                mouse_armed: !model.mouse_armed,
                message: armed.message,
                ..model
            })
            &&& disarmed == (ViewerModel { message: disarmed.message, ..model })
            &&& aimed.scroll_target != model.scroll_target
            &&& aimed == (ViewerModel {
                scroll_target: aimed.scroll_target,
                scroll_gesture: scroll::no_gesture(),
                message: aimed.message,
                ..model
            })
            &&& back == (ViewerModel {
                scroll_gesture: scroll::no_gesture(),
                message: back.message,
                ..model
            })
        }),
{
}

/// What the mouse and the wheel now do is said in a message of two seconds.
pub proof fn lemma_toggles_told(model: ViewerModel, key: KeyEvent, now: u128)
    requires
        navigating(model),
        model.control,
        now + 2_000_000_000 <= u128::MAX,
    ensures
        ({
            let armed = viewer::key_outcome(model, instead(key, KeyCode::Char('i')), now).0;
            let aimed = viewer::key_outcome(model, instead(key, KeyCode::Char('s')), now).0;
            &&& armed.message == Some(
                (
                    if armed.mouse_armed {
                        "Mouse control armed"@
                    } else {
                        "Control disarmed"@
                    },
                    (now + 2_000_000_000) as u128,
                ),
            )
            &&& aimed.message == Some(
                (
                    if aimed.scroll_target == ScrollTarget::Desktop {
                        "Scroll controls remote desktop"@
                    } else {
                        "Scroll controls viewport"@
                    },
                    (now + 2_000_000_000) as u128,
                ),
            )
        }),
{
}

/// A message stays for two seconds, and one that warns for five. Each takes the place of the one
/// before and changes nothing else.
pub proof fn lemma_messages_last(model: ViewerModel, words: Seq<char>, now: u128)
    ensures
        model.told(words, now) == (ViewerModel {
            message: Some((words, (now + 2_000_000_000) as u128)),
            ..model
        }),
        model.warned(words, now) == (ViewerModel {
            message: Some((words, (now + 5_000_000_000) as u128)),
            ..model
        }),
{
}

/// Whether an effect is a change of the quality, or of the resolution, towards less.
pub open spec fn lowers(effect: Effect, selected: DisplaySetting) -> bool {
    effect == Effect::Graphics(
        if selected == DisplaySetting::Quality {
            GraphicsCommand::PreviousQualityMode
        } else {
            GraphicsCommand::LowerResolution
        },
    )
}

/// Whether an effect is a change of the quality, or of the resolution, towards more.
pub open spec fn raises(effect: Effect, selected: DisplaySetting) -> bool {
    effect == Effect::Graphics(
        if selected == DisplaySetting::Quality {
            GraphicsCommand::NextQualityMode
        } else {
            GraphicsCommand::RaiseResolution
        },
    )
}

/// While the display settings are open, the keys to the left change the selected setting towards
/// less and those to the right towards more. The keys up and down go to the other setting, and back
/// when pressed again. Escape, enter, `g` and `q` close the settings. Nothing else happens.
pub proof fn lemma_settings_keys(model: ViewerModel, key: KeyEvent, now: u128, later: u128)
    requires
        model.display_settings is Some,
    ensures
        ({
            let selected = model.display_settings->0;
            let (next, effect) = viewer::key_outcome(model, key, now);
            let code = key.code;
            let less = code is Left || code == KeyCode::Char('h') || code == KeyCode::Char('-');
            let more = code is Right || code == KeyCode::Char('l') || code == KeyCode::Char('+')
                || code == KeyCode::Char('=');
            let other = code is Up || code is Down || code is Tab || code is BackTab;
            let closes = code is Esc || code is Enter || code == KeyCode::Char('g') || code
                == KeyCode::Char('q');
            &&& less ==> lowers(effect, selected) && next == model
            &&& more ==> raises(effect, selected) && next == model
            &&& other ==> {
                &&& effect == Effect::Chrome
                &&& next.display_settings is Some
                &&& next.display_settings != model.display_settings
                &&& viewer::key_outcome(next, key, later).0 == model
            }
            &&& closes ==> effect == Effect::Chrome && next == (ViewerModel {
                display_settings: None,
                message: None,
                ..model
            })
            &&& !less && !more && !other && !closes ==> effect == Effect::Nothing && next == model
        }),
{
}

/// `g` opens the display settings at the quality, `x` the palette. Neither does anything else to
/// the viewer but to take away its message.
pub proof fn lemma_openings(model: ViewerModel, key: KeyEvent, now: u128)
    requires
        navigating(model),
        model.actions.len() > 0,
    ensures
        ({
            let settings = viewer::key_outcome(model, instead(key, KeyCode::Char('g')), now);
            let palette = viewer::key_outcome(model, instead(key, KeyCode::Char('x')), now);
            &&& settings.0 == (ViewerModel {
                display_settings: Some(DisplaySetting::Quality),
                message: None,
                ..model
            })
            &&& palette.0 == (ViewerModel {
                palette: Some((seq![], 0)),
                message: None,
                ..model
            })
            &&& settings.1 == Effect::Chrome && palette.1 == Effect::Chrome
        }),
{
}

/// With control `a` keeps the desktop awake or lets it sleep.
pub proof fn lemma_awake_key(model: ViewerModel, key: KeyEvent, now: u128)
    requires
        navigating(model),
        unmodified(key),
    ensures
        ({
            let (next, effect) = viewer::key_outcome(model, key, now);
            &&& effect == Effect::ToggleIdleInhibit <==> key.code == KeyCode::Char('a')
                && model.control
            &&& effect == Effect::ToggleIdleInhibit ==> next == model
        }),
{
}

/// A viewer begins in navigation mode with nothing open, the mouse not armed, the wheel on the view
/// and the desktop free to sleep.
pub proof fn lemma_begins_plain(viewport: crate::render::Viewport, control: bool)
    ensures
        ({
            let model = viewer::fresh(viewport, control);
            &&& navigating(model)
            &&& model.viewport == viewport && model.control == control
            &&& !model.mouse_armed && !model.idle_inhibited && !model.prefix_pending
            &&& model.scroll_target == ScrollTarget::View
            &&& model.message is None && model.auto_refresh_at is None
            &&& model.actions.len() == 0
        }),
{
}

/// The first of two times is one of them, and neither is before it.
pub proof fn lemma_earliest(left: Option<u128>, right: Option<u128>)
    ensures
        ({
            let first = viewer::earliest(left, right);
            &&& first == left || first == right
            &&& first is None <==> left is None && right is None
            &&& left is Some ==> first->0 <= left->0
            &&& right is Some ==> first->0 <= right->0
        }),
{
}

/// A wait until a time ends then and not before, and does not last where the time is past.
pub proof fn lemma_waits_until(deadline: Option<u128>, now: u128)
    ensures
        ({
            let wait = viewer::time_until(deadline, now);
            &&& wait is None <==> deadline is None
            &&& deadline is Some && now <= deadline->0 ==> now + wait->0 == deadline->0
            &&& deadline is Some && now > deadline->0 ==> wait->0 == 0
        }),
{
}

} // verus!
