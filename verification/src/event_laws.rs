//! What holds of clicks, new frames, messages and waiting.

use crate::input::PointerButton;
use crate::layout::{DrawLayout, PointerSample};
use crate::niri::OutputGeometry;
use crate::pixels::Pixels;
use crate::render::{Viewport, ViewportRect};
use crate::render_laws;
use crate::screencopy::DamageRect;
use crate::scroll::{MouseButton, MouseEvent, MouseEventKind};
use crate::session;
use crate::session::{CaptureReason, Injection, Task};
use crate::terminal;
use crate::terminal::TerminalModel;
use crate::text;
use crate::viewer::{Effect, ViewerModel};
use vstd::arithmetic::div_mod::*;
use vstd::prelude::*;

verus! {

/// A left or right button that is pressed in the image of an upright output goes to the desktop
/// while the mouse is armed: the same button, where the sample under the pointer lies on the
/// output, and the output on the desktop. With the mouse not armed the left button brings the view
/// nearer to that point. Nothing else that the mouse does goes anywhere.
pub proof fn lemma_click_goes_where_pressed(
    state: ViewerModel,
    mouse: MouseEvent,
    layout: DrawLayout,
    output: &OutputGeometry,
    sample: PointerSample,
    pointer: bool,
)
    ensures
        ({
            let task = session::click_task(
                state,
                session::clicked(mouse, layout, output, sample),
                pointer,
            );
            let left = mouse.kind == MouseEventKind::Down(MouseButton::Left);
            let right = mouse.kind == MouseEventKind::Down(MouseButton::Right);
            let inside = mouse.column < layout.cols && mouse.row < layout.rows
                && output.transform@ == "Normal"@;
            let armed = state.control && state.mouse_armed;
            &&& task is Click ==> task->Click_0.local_x == sample.local_x && task->Click_0.local_y
                == sample.local_y && task->Click_0.global_x - output.x == sample.local_x
                && task->Click_0.global_y - output.y == sample.local_y
            &&& task is Focus ==> task->Focus_0.source_x == sample.source_x
                && task->Focus_0.source_y == sample.source_y && task->Focus_0.local_x
                == sample.local_x && task->Focus_0.local_y == sample.local_y
            &&& task is Click <==> inside && (left || right) && armed && pointer
            &&& task is Click ==> (task->Click_1 == PointerButton::Left <==> left)
            &&& task is Focus <==> inside && left && !armed
            &&& task == Task::Echo <==> inside && (armed && !pointer && (left || right) || !armed
                && right)
            &&& task is Click || task is Focus || task == Task::Echo || task == Task::Nothing
        }),
{
}

/// Whether a pixel of a rectangle has another colour in another frame.
pub open spec fn differs(before: Pixels, after: Pixels, rect: ViewportRect) -> bool {
    exists|x: int, y: int, c: int|
        rect.x <= x < rect.x + rect.width && rect.y <= y < rect.y + rect.height && 0 <= c < 3
            && #[trigger] before.channel(x, y, c) != after.channel(x, y, c)
}

/// Whether a pixel lies in a damaged rectangle and in the visible one.
pub open spec fn touches(damage: DamageRect, rect: ViewportRect, x: int, y: int) -> bool {
    &&& damage.x <= x < damage.x + damage.width
    &&& damage.y <= y < damage.y + damage.height
    &&& rect.x <= x < rect.x + rect.width
    &&& rect.y <= y < rect.y + rect.height
}

/// Whether damage may show: none was reported, or some was where a pixel is visible.
pub open spec fn visible(damage: Seq<DamageRect>, rect: ViewportRect) -> bool {
    damage.len() == 0 || exists|i: int, x: int, y: int|
        0 <= i < damage.len() && #[trigger] touches(damage[i], rect, x, y)
}

/// Two frames differ in a rectangle just where a pixel of it has another colour.
pub proof fn lemma_crops_differ(before: Pixels, after: Pixels, rect: ViewportRect)
    requires
        0 < rect.width,
        0 < rect.height,
    ensures
        before.crop(rect.x as int, rect.y as int, rect.width as nat, rect.height as nat)
            != after.crop(rect.x as int, rect.y as int, rect.width as nat, rect.height as nat)
            <==> differs(before, after, rect),
{
    let (left, top) = (rect.x as int, rect.y as int);
    let (width, height) = (rect.width as int, rect.height as int);
    let old_part = before.crop(left, top, width as nat, height as nat);
    let new_part = after.crop(left, top, width as nat, height as nat);
    if differs(before, after, rect) {
        let (x, y, c) = choose|x: int, y: int, c: int|
            rect.x <= x < rect.x + rect.width && rect.y <= y < rect.y + rect.height && 0 <= c < 3
                && #[trigger] before.channel(x, y, c) != after.channel(x, y, c);
        render_laws::lemma_crop_channel(before, (left, top, width, height), x, y, c);
        render_laws::lemma_crop_channel(after, (left, top, width, height), x, y, c);
    } else {
        assert forall|i: int| 0 <= i < old_part.data.len() implies old_part.data[i]
            == new_part.data[i] by {
            lemma_fundamental_div_mod(i, 3);
            lemma_fundamental_div_mod(i / 3, width);
            let (x, y, c) = (left + i / 3 % width, top + i / 3 / width, i % 3);
            assert(0 <= i / 3 / width < height) by (nonlinear_arith)
                requires
                    i / 3 == width * (i / 3 / width) + i / 3 % width,
                    0 <= i / 3 % width < width,
                    0 <= i / 3 < width * height,
            ;
            assert(before.channel(x, y, c) == after.channel(x, y, c));
        }
        assert(old_part.data =~= new_part.data);
    }
}

/// A new frame is drawn exactly where damage may show and a visible pixel has another colour, or
/// the frame another size. Where it is drawn, no further capture is waited for. Where it is not,
/// nothing is done but to note that the atlas is out of date. Each damaged rectangle has a pixel.
pub proof fn lemma_damage_drawn(
    state: ViewerModel,
    model: TerminalModel,
    before: Pixels,
    after: Pixels,
    damage: Seq<DamageRect>,
    rect: ViewportRect,
    now: u128,
)
    requires
        before.width <= u32::MAX,
        before.height <= u32::MAX,
        rect.inside(before.width as u32, before.height as u32),
        forall|i: int|
            0 <= i < damage.len() ==> 0 < (#[trigger] damage[i]).width && 0 < damage[i].height,
    ensures
        ({
            let shows = session::shows_change(before, after, damage, rect);
            let (next, drawn, task) = session::damage_outcome(state, model, shows, now);
            let changed = before.width != after.width || before.height != after.height || differs(
                before,
                after,
                rect,
            );
            &&& task == Task::Draw <==> visible(damage, rect) && changed
            &&& task == Task::Draw ==> next == (ViewerModel { auto_refresh_at: None, ..state })
                && drawn.kitty_last_visible_damage_at == Some(now)
            &&& task != Task::Draw ==> task == Task::Nothing && next == state
                && drawn.kitty_last_visible_damage_at == model.kitty_last_visible_damage_at
            &&& drawn.kitty_atlas_stale
        }),
{
    lemma_crops_differ(before, after, rect);
    if damage.len() > 0 {
        if visible(damage, rect) {
            let (i, x, y) = choose|i: int, x: int, y: int|
                0 <= i < damage.len() && #[trigger] touches(damage[i], rect, x, y);
            assert(crate::layout::overlaps(damage[i], rect));
        }
        if exists|i: int|
            0 <= i < damage.len() && crate::layout::overlaps(#[trigger] damage[i], rect) {
            let i = choose|i: int|
                0 <= i < damage.len() && crate::layout::overlaps(#[trigger] damage[i], rect);
            let x = if damage[i].x >= rect.x {
                damage[i].x as int
            } else {
                rect.x as int
            };
            let y = if damage[i].y >= rect.y {
                damage[i].y as int
            } else {
                rect.y as int
            };
            assert(touches(damage[i], rect, x, y));
        }
    }
}

/// Where no damage is reported, a key that was sent has the frame captured again a quarter of a
/// second later and not before. Where damage is reported, and after scrolling, nothing is waited
/// for. A failure is told with its reason for five seconds.
pub proof fn lemma_sent_input(
    state: ViewerModel,
    model: TerminalModel,
    injection: Injection,
    watching: bool,
    now: u128,
    later: u128,
    reason: Seq<char>,
)
    requires
        now + 5_000_000_000 <= u128::MAX,
        state.auto_refresh_at is None,
        !terminal::due_outcome(model, later).1,
    ensures
        ({
            let (next, task) = session::injection_outcome(state, injection, None, watching, now);
            let (then, _, asked) = session::timeout_outcome(next, model, later);
            let captures = !watching && !(injection is Scroll) && later >= now + 250_000_000;
            &&& task == Task::Nothing
            &&& next.message == state.message
            &&& asked == Task::Capture(CaptureReason::Auto) <==> captures
            &&& captures ==> then.auto_refresh_at is None
            &&& !captures ==> then.auto_refresh_at == next.auto_refresh_at
            &&& watching || injection is Scroll ==> next == state
        }),
        ({
            let (next, task) = session::injection_outcome(
                state,
                injection,
                Some(reason),
                watching,
                now,
            );
            &&& task == Task::Echo
            &&& next == ViewerModel {
                message: Some(
                    (
                        (match injection {
                            Injection::Key => "Key injection failed: "@,
                            Injection::Unicode => "Unicode injection failed: "@,
                            Injection::Scroll => "Scroll injection failed: "@,
                        }) + reason,
                        (now + 5_000_000_000) as u128,
                    ),
                ),
                ..state
            }
        }),
{
}

/// A message is gone once its time is over, and not before. Only then is the line drawn again for
/// it, unless more must be drawn. While nothing is due nothing changes.
pub proof fn lemma_quiet(state: ViewerModel, model: TerminalModel, now: u128)
    ensures
        ({
            let (next, then, task) = session::timeout_outcome(state, model, now);
            let expired = state.message is Some && (state.message->0).1 <= now;
            let refresh = state.auto_refresh_at is Some && state.auto_refresh_at->0 <= now;
            let redraw = terminal::due_outcome(model, now).1;
            &&& next.message == if expired {
                None
            } else {
                state.message
            }
            &&& next == ViewerModel {
                message: next.message,
                auto_refresh_at: next.auto_refresh_at,
                ..state
            }
            &&& next.auto_refresh_at is Some <==> state.auto_refresh_at is Some && !refresh
            &&& task == Task::Draw <==> redraw
            &&& task == Task::Capture(CaptureReason::Auto) <==> refresh && !redraw
            &&& task == Task::Echo <==> expired && !refresh && !redraw
            &&& task == Task::Nothing ==> next == state && !expired && !refresh && !redraw
            &&& task == Task::Nothing || task == Task::Draw || task == Task::Echo || task
                == Task::Capture(CaptureReason::Auto)
        }),
{
}

/// A frame that was captured is drawn as one that visibly changed. That it was captured is said
/// only where it was asked for. Where it could not be captured, the reason is said, and the
/// terminal stays as it is.
pub proof fn lemma_captured(
    state: ViewerModel,
    model: TerminalModel,
    reason: CaptureReason,
    error: Seq<char>,
    now: u128,
)
    requires
        now + 5_000_000_000 <= u128::MAX,
    ensures
        ({
            let (next, then, task) = session::capture_outcome(state, model, reason, None, now);
            &&& task == Task::Draw
            &&& then == session::damage_outcome(state, model, true, now).1
            &&& reason is Refresh ==> next == (ViewerModel {
                message: Some(("Refreshed frame"@, (now + 2_000_000_000) as u128)),
                ..state
            })
            &&& !(reason is Refresh) ==> next == state
        }),
        ({
            let (next, then, task) = session::capture_outcome(
                state,
                model,
                reason,
                Some(error),
                now,
            );
            &&& task == Task::Echo
            &&& then == model
            &&& reason is Click ==> next == state
            &&& !(reason is Click) ==> {
                next == ViewerModel {
                    message: Some(
                        (
                            (if reason is Auto {
                                "Auto-refresh failed: "@
                            } else {
                                "Refresh failed: "@
                            }) + error,
                            (now + 5_000_000_000) as u128,
                        ),
                    ),
                    ..state
                }
            }
        }),
{
}

/// After a click the frame is captured again where no damage is reported. What is said of the click
/// names the button, and the point on the output and on the desktop.
pub proof fn lemma_clicked(
    state: ViewerModel,
    point: crate::layout::LogicalPoint,
    button: PointerButton,
    watching: bool,
    now: u128,
)
    requires
        now + 2_000_000_000 <= u128::MAX,
    ensures
        ({
            let (next, task) = session::click_outcome(state, point, button, None, watching, now);
            &&& task == if watching {
                Task::Echo
            } else {
                Task::Capture(CaptureReason::Click)
            }
            &&& next == (ViewerModel {
                message: Some(
                    (
                        (if button == PointerButton::Left {
                            "Left"@
                        } else {
                            "Right"@
                        }) + " clicked "@ + text::decimal(point.local_x as nat) + ":"@
                            + text::decimal(point.local_y as nat) + " (global "@ + text::signed(
                            point.global_x as int,
                        ) + ","@ + text::signed(point.global_y as int) + ")"@,
                        (now + 2_000_000_000) as u128,
                    ),
                ),
                ..state
            })
        }),
{
}

/// A key that toggles whether the desktop is kept awake has the inhibitor released where it is
/// held, and else acquired. The viewer says that the desktop is kept awake once it is.
pub proof fn lemma_awake_toggles(
    state: ViewerModel,
    model: TerminalModel,
    inhibiting: bool,
    keyboard: bool,
    now: u128,
    error: Option<Seq<char>>,
)
    ensures
        ({
            let (next, then, task) = session::effect_outcome(
                state,
                model,
                Effect::ToggleIdleInhibit,
                inhibiting,
                keyboard,
                now,
            );
            let after = session::inhibit_outcome(state, error, now).0;
            &&& task == Task::ReleaseInhibitor <==> inhibiting
            &&& task == Task::AcquireInhibitor <==> !inhibiting
            &&& inhibiting ==> !next.idle_inhibited
            &&& !inhibiting ==> next == state
            &&& then == model
            &&& error is None ==> after.idle_inhibited
            &&& error is Some ==> after.idle_inhibited == state.idle_inhibited
            &&& session::held(state, error, now).idle_inhibited == after.idle_inhibited
        }),
{
}

/// Keys go to the desktop as they are where there is a keyboard, and nowhere else. An action that
/// is run is the one that was asked for.
pub proof fn lemma_effects_passed_on(
    state: ViewerModel,
    model: TerminalModel,
    effect: Effect,
    inhibiting: bool,
    keyboard: bool,
    now: u128,
)
    ensures
        ({
            let (next, then, task) = session::effect_outcome(
                state,
                model,
                effect,
                inhibiting,
                keyboard,
                now,
            );
            &&& task is SendKey <==> effect is SendKey && keyboard
            &&& task is SendKey ==> task->SendKey_0 == effect->SendKey_0
            &&& task is SendUnicode <==> effect is SendUnicode && keyboard
            &&& task is SendUnicode ==> task->SendUnicode_0 == effect->SendUnicode_0
            &&& task is Spawn <==> effect is RunAction
            &&& task is Spawn ==> task->Spawn_0 == effect->RunAction_0
            &&& task is View <==> effect is View
            &&& task is View ==> task->View_0 == effect->View_0
            &&& task == Task::Quit <==> effect == Effect::Quit
            &&& effect == Effect::Redraw ==> task == Task::Draw
            &&& effect == Effect::Chrome ==> task == Task::Chrome
            &&& effect == Effect::Refresh <==> task is Capture
            &&& effect == Effect::Refresh ==> task == Task::Capture(CaptureReason::Refresh)
                && next.auto_refresh_at is None
            &&& !(effect is Graphics) ==> then == model
        }),
{
}

/// A view that was computed is shown and drawn, and the message before it goes. Where it lies nearer
/// to a point, that point is told. Where none was computed, nothing changes.
pub proof fn lemma_views_shown(
    state: ViewerModel,
    point: crate::layout::LogicalPoint,
    viewport: Option<Viewport>,
    zoom: Seq<char>,
    now: u128,
)
    ensures
        ({
            let (next, task) = session::view_outcome(state, viewport);
            let (nearer, asked) = session::focus_outcome(state, point, viewport, zoom, now);
            &&& viewport is Some ==> task == Task::Draw && asked == Task::Draw && next.viewport
                == viewport->0 && nearer.viewport == viewport->0
            &&& viewport is None ==> task == Task::Nothing && asked == Task::Echo && next == state
                && nearer == state
            &&& viewport is Some ==> next.message is None && nearer.message == Some(
                (
                    "Focused toward "@ + text::decimal(point.local_x as nat) + ":"@
                        + text::decimal(point.local_y as nat) + "; "@ + zoom + "x"@,
                    (now + 2_000_000_000) as u128,
                ),
            )
            &&& next == ViewerModel { viewport: next.viewport, message: next.message, ..state }
            &&& nearer == ViewerModel {
                viewport: nearer.viewport,
                message: nearer.message,
                ..state
            }
        }),
{
}

/// A time at which something is to be done, as far as there is one.
pub open spec fn times(state: ViewerModel, model: TerminalModel) -> Seq<Option<u128>> {
    seq![
        match state.message {
            Some((_, expires_at)) => Some(expires_at),
            None => None,
        },
        state.auto_refresh_at,
        model.kitty_refine_at,
        model.kitty_quality_upgrade_at,
        model.kitty_atlas_refresh_at,
    ]
}

/// Whether a wait lasts past none of the times.
pub open spec fn in_time(wait: Option<u128>, at: Option<u128>, now: u128) -> bool {
    at is Some ==> wait is Some && (now + wait->0 <= at->0 || wait->0 == 0)
}

/// The wait for an event lasts past no time at which something is to be done, past no forty
/// milliseconds while damage may be reported, and past no millisecond while output waits. While
/// output makes progress there is no wait. And it is as long as that allows.
pub proof fn lemma_wait_fits(
    state: ViewerModel,
    model: TerminalModel,
    watching: bool,
    progress: bool,
    now: u128,
)
    ensures
        ({
            let wait = session::poll_wait(state, model, watching, progress, now);
            let waiting = terminal::pending(model);
            &&& in_time(wait, times(state, model)[0], now)
            &&& in_time(wait, times(state, model)[1], now)
            &&& in_time(wait, times(state, model)[2], now)
            &&& in_time(wait, times(state, model)[3], now)
            &&& in_time(wait, times(state, model)[4], now)
            &&& watching ==> wait is Some && wait->0 <= 40_000_000
            &&& waiting ==> wait is Some && wait->0 <= 1_000_000
            &&& waiting && progress ==> wait == Some(0u128)
            &&& wait is Some && wait->0 > 0 ==> {
                ||| watching && wait->0 == 40_000_000
                ||| waiting && !progress && wait->0 == 1_000_000
                ||| times(state, model).contains(Some((now + wait->0) as u128))
            }
            &&& wait == Some(0u128) ==> waiting && progress || exists|i: int|
                0 <= i < 5 && #[trigger] times(state, model)[i] is Some && times(state, model)[i]->0
                    <= now
        }),
{
    let wait = session::poll_wait(state, model, watching, progress, now);
    let all = times(state, model);
    if wait is Some {
        let at = Some((now + wait->0) as u128);
        assert(all[0] == at || all[1] == at || all[2] == at || all[3] == at || all[4] == at
            ==> all.contains(at));
    }
}

} // verus!
