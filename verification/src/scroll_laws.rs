//! What holds of scrolling.

use crate::layout::{DrawLayout, PointerSample};
use crate::niri::OutputGeometry;
use crate::scroll;
use crate::scroll::{MouseEvent, MouseEventKind, ScrollAxis, ScrollGesture};
use crate::session;
use crate::session::Task;
use crate::viewer::{ScrollTarget, ViewCommand, ViewerModel};
use vstd::prelude::*;

verus! {

/// How many events of a kind lie in the image.
pub open spec fn tally(events: Seq<MouseEvent>, kind: MouseEventKind, layout: DrawLayout) -> nat
    decreases events.len(),
{
    if events.len() == 0 {
        0
    } else {
        let event = events.last();
        tally(events.drop_last(), kind, layout) + if event.kind == kind && event.column
            < layout.cols && event.row < layout.rows {
            1nat
        } else {
            0nat
        }
    }
}

/// How far events in the image go to the right.
pub open spec fn rightward(events: Seq<MouseEvent>, layout: DrawLayout) -> int {
    tally(events, MouseEventKind::ScrollRight, layout) - tally(
        events,
        MouseEventKind::ScrollLeft,
        layout,
    )
}

/// How far events in the image go down.
pub open spec fn downward(events: Seq<MouseEvent>, layout: DrawLayout) -> int {
    tally(events, MouseEventKind::ScrollDown, layout) - tally(
        events,
        MouseEventKind::ScrollUp,
        layout,
    )
}

/// Whether any event in the image scrolls.
pub open spec fn moving(events: Seq<MouseEvent>, layout: DrawLayout) -> bool {
    ||| tally(events, MouseEventKind::ScrollRight, layout) > 0
    ||| tally(events, MouseEventKind::ScrollLeft, layout) > 0
    ||| tally(events, MouseEventKind::ScrollDown, layout) > 0
    ||| tally(events, MouseEventKind::ScrollUp, layout) > 0
}

/// Whether steps go as far as a distance, or as far towards it as one frame may go.
pub open spec fn reaches(steps: int, distance: int) -> bool {
    ||| steps == distance && -4 <= distance <= 4
    ||| steps == 4 && distance > 4
    ||| steps == -4 && distance < -4
}

/// Whether a task scrolls a distance to the right or down, where the scrolling goes to: the view
/// is panned, or the desktop is scrolled under the pointer. Without a pointer, or on a turned
/// output, the desktop is left alone.
pub open spec fn goes(
    task: Task,
    sideways: bool,
    distance: int,
    target: ScrollTarget,
    output: &OutputGeometry,
    sample: PointerSample,
    pointer: bool,
) -> bool {
    match target {
        ScrollTarget::View => match task {
            Task::View(ViewCommand::Pan(x, y)) => if sideways {
                y == 0 && reaches(x as int, distance)
            } else {
                x == 0 && reaches(y as int, distance)
            },
            _ => false,
        },
        ScrollTarget::Desktop => if pointer && output.transform@ == "Normal"@ {
            match task {
                Task::Scroll(point, horizontal, steps) => {
                    &&& horizontal == sideways
                    &&& reaches(steps as int, distance)
                    &&& point.global_x == output.x + sample.local_x
                    &&& point.global_y == output.y + sample.local_y
                    &&& point.local_x == sample.local_x
                    &&& point.local_y == sample.local_y
                },
                _ => false,
            }
        } else {
            task == Task::Nothing
        },
    }
}

/// Whether a gesture is over: its last event lies too far back.
pub open spec fn over(gesture: ScrollGesture, now: u128) -> bool {
    gesture.last_event_at is Some && gesture.last_event_at->0 + 80_000_000 < now
}

proof fn lemma_tally(events: Seq<MouseEvent>, layout: DrawLayout)
    ensures
        ({
            let inside = events.filter(scroll::within(layout.cols, layout.rows));
            &&& scroll::total(inside) == (rightward(events, layout), downward(events, layout))
            &&& scroll::any_scroll(inside) <==> moving(events, layout)
            &&& inside.len() <= events.len()
            &&& moving(events, layout) ==> exists|i: int|
                0 <= i < events.len() && scroll::within(layout.cols, layout.rows)(
                    #[trigger] events[i],
                )
        }),
    decreases events.len(),
{
    reveal(Seq::filter);
    let pred = scroll::within(layout.cols, layout.rows);
    let inside = events.filter(pred);
    if events.len() > 0 {
        let before = events.drop_last();
        let part = before.filter(pred);
        lemma_tally(before, layout);
        let event = events.last();
        if pred(event) {
            assert(inside == part.push(event));
            assert(inside.drop_last() =~= part);
            if scroll::any_scroll(part) {
                let i = choose|i: int| 0 <= i < part.len() && scroll::scrolls((#[trigger] part[i]).kind);
                assert(scroll::scrolls(inside[i].kind));
            }
            if scroll::scrolls(event.kind) {
                assert(scroll::scrolls(inside[part.len() as int].kind));
            }
            if scroll::any_scroll(inside) && !scroll::scrolls(event.kind) {
                let i = choose|i: int|
                    0 <= i < inside.len() && scroll::scrolls((#[trigger] inside[i]).kind);
                assert(part[i] == inside[i]);
            }
            assert(pred(events[events.len() - 1]));
        } else {
            assert(inside == part);
            if moving(before, layout) {
                let i = choose|i: int| 0 <= i < before.len() && pred(#[trigger] before[i]);
                assert(pred(events[i]));
            }
        }
    }
}

/// Events outside the image scroll nothing.
pub proof fn lemma_scroll_outside(
    state: ViewerModel,
    events: Seq<MouseEvent>,
    layout: DrawLayout,
    output: &OutputGeometry,
    sample: PointerSample,
    pointer: bool,
    now: u128,
)
    requires
        !moving(events, layout),
    ensures
        session::scroll_outcome(state, events, layout, output, sample, pointer, now).1
            == Task::Nothing,
{
    lemma_tally(events, layout);
}

/// A gesture begins along the axis of the larger movement, in its direction. Where the movement is
/// as large both ways it waits for more: what it waits with counts until the gesture is over.
pub proof fn lemma_scroll_begins(
    state: ViewerModel,
    events: Seq<MouseEvent>,
    layout: DrawLayout,
    output: &OutputGeometry,
    sample: PointerSample,
    pointer: bool,
    now: u128,
)
    requires
        state.scroll_gesture.wf(),
        state.scroll_gesture.room_for(events.len()),
        state.scroll_gesture.axis is None || over(state.scroll_gesture, now),
        moving(events, layout),
    ensures
        ({
            let gesture = state.scroll_gesture;
            let (next, task) = session::scroll_outcome(
                state,
                events,
                layout,
                output,
                sample,
                pointer,
                now,
            );
            let x = rightward(events, layout) + if over(gesture, now) {
                0
            } else {
                gesture.pending_x as int
            };
            let y = downward(events, layout) + if over(gesture, now) {
                0
            } else {
                gesture.pending_y as int
            };
            let held = next.scroll_gesture;
            &&& held.last_event_at == Some(now)
            &&& y < x && -y < x || x < y && x < -y ==> {
                &&& goes(task, true, x, state.scroll_target, output, sample, pointer)
                &&& held.axis == Some(ScrollAxis::Horizontal)
            }
            &&& x < y && -x < y || y < x && y < -x ==> {
                &&& goes(task, false, y, state.scroll_target, output, sample, pointer)
                &&& held.axis == Some(ScrollAxis::Vertical)
            }
            &&& x == y || x == -y ==> {
                &&& task == Task::Nothing
                &&& held.axis is None
                &&& held.pending_x == x
                &&& held.pending_y == y
            }
        }),
{
    lemma_tally(events, layout);
    scroll::lemma_steps_bounded(events.filter(scroll::within(layout.cols, layout.rows)));
}

/// A gesture that holds to an axis goes on along it, in the direction of the movement, while the
/// movement across it is at most twice as large. A larger movement across, or the second step
/// across that goes the same way, turns it. A lone step across moves nothing.
pub proof fn lemma_scroll_held(
    state: ViewerModel,
    events: Seq<MouseEvent>,
    layout: DrawLayout,
    output: &OutputGeometry,
    sample: PointerSample,
    pointer: bool,
    now: u128,
)
    requires
        state.scroll_gesture.wf(),
        state.scroll_gesture.room_for(events.len()),
        state.scroll_gesture.axis is Some,
        !over(state.scroll_gesture, now),
        moving(events, layout),
    ensures
        ({
            let gesture = state.scroll_gesture;
            let (next, task) = session::scroll_outcome(
                state,
                events,
                layout,
                output,
                sample,
                pointer,
                now,
            );
            let sideways = gesture.axis == Some(ScrollAxis::Horizontal);
            let along = if sideways {
                rightward(events, layout)
            } else {
                downward(events, layout)
            };
            let across = if sideways {
                downward(events, layout)
            } else {
                rightward(events, layout)
            };
            let before = gesture.cross_axis_evidence;
            let held = next.scroll_gesture;
            &&& held.last_event_at == Some(now)
            &&& held.pending_x == 0 && held.pending_y == 0
            &&& along != 0 && across <= 2 * scroll::size(along) && -across <= 2 * scroll::size(
                along,
            ) ==> {
                &&& goes(task, sideways, along, state.scroll_target, output, sample, pointer)
                &&& held.axis == gesture.axis
                &&& held.cross_axis_evidence == 0
            }
            &&& across >= 2 && before <= 0 && across > 2 * scroll::size(along) || across <= -2
                && before >= 0 && -across > 2 * scroll::size(along) ==> {
                &&& goes(task, !sideways, across, state.scroll_target, output, sample, pointer)
                &&& held.axis != gesture.axis && held.axis is Some
            }
            &&& along == 0 && (across >= 1 && before > 0 || across <= -1 && before < 0) ==> {
                &&& goes(
                    task,
                    !sideways,
                    across + before,
                    state.scroll_target,
                    output,
                    sample,
                    pointer,
                )
                &&& held.axis != gesture.axis && held.axis is Some
            }
            &&& along == 0 && (across == 1 && before <= 0 || across == -1 && before >= 0) ==> {
                &&& task == Task::Nothing
                &&& held.axis == gesture.axis
                &&& held.cross_axis_evidence == across
            }
            &&& along == 0 && across == 0 ==> task == Task::Nothing && held.axis == gesture.axis
        }),
{
    lemma_tally(events, layout);
    scroll::lemma_steps_bounded(events.filter(scroll::within(layout.cols, layout.rows)));
}

/// Scrolling goes along the axis of the movement: where every event in the image scrolls left or
/// right, only sideways, and where every event scrolls up or down, only up and down. Only steps
/// that wait from before, as many each way, may turn it.
pub proof fn lemma_scroll_axis(
    state: ViewerModel,
    events: Seq<MouseEvent>,
    layout: DrawLayout,
    output: &OutputGeometry,
    sample: PointerSample,
    pointer: bool,
    now: u128,
)
    requires
        state.scroll_gesture.wf(),
        state.scroll_gesture.room_for(events.len()),
        over(state.scroll_gesture, now) || state.scroll_gesture.pending_x == 0
            && state.scroll_gesture.pending_y == 0,
    ensures
        ({
            let task = session::scroll_outcome(
                state,
                events,
                layout,
                output,
                sample,
                pointer,
                now,
            ).1;
            let flat = tally(events, MouseEventKind::ScrollUp, layout) == 0 && tally(
                events,
                MouseEventKind::ScrollDown,
                layout,
            ) == 0;
            let upright = tally(events, MouseEventKind::ScrollLeft, layout) == 0 && tally(
                events,
                MouseEventKind::ScrollRight,
                layout,
            ) == 0;
            &&& flat ==> match task {
                Task::Scroll(_, horizontal, _) => horizontal,
                Task::View(ViewCommand::Pan(x, y)) => x != 0 && y == 0,
                _ => task == Task::Nothing,
            }
            &&& upright ==> match task {
                Task::Scroll(_, horizontal, _) => !horizontal,
                Task::View(ViewCommand::Pan(x, y)) => x == 0 && y != 0,
                _ => task == Task::Nothing,
            }
        }),
{
    lemma_tally(events, layout);
    scroll::lemma_steps_bounded(events.filter(scroll::within(layout.cols, layout.rows)));
}

} // verus!
