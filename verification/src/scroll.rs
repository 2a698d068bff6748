//! Scrolling: many small events of a wheel or trackpad become steps along one axis.

use vstd::prelude::*;

verus! {

/// How long a gesture lasts without an event, in nanoseconds.
pub const SCROLL_GESTURE_TIMEOUT: u128 = 80_000_000;

/// How long events are gathered into one batch, in nanoseconds.
pub const SCROLL_BATCH_WINDOW: u128 = 12_000_000;

/// The most events of one batch.
pub const SCROLL_BATCH_LIMIT: usize = 256;

pub const MAX_SCROLL_STEPS_PER_FRAME: i32 = 4;

/// How many steps across the axis end the hold of the axis.
pub const AXIS_SWITCH_THRESHOLD: i32 = 2;

/// A mouse button.
#[derive(Debug, Clone, Copy, PartialEq, Eq, Structural)]
pub enum MouseButton {
    Left,
    Right,
    Middle,
}

/// What the mouse did.
#[derive(Debug, Clone, Copy, PartialEq, Eq, Structural)]
pub enum MouseEventKind {
    Down(MouseButton),
    Up(MouseButton),
    Drag(MouseButton),
    Moved,
    ScrollDown,
    ScrollUp,
    ScrollLeft,
    ScrollRight,
}

/// What the mouse did, and in which cell.
#[derive(Debug, Clone, Copy, PartialEq, Eq, Structural)]
pub struct MouseEvent {
    pub kind: MouseEventKind,
    pub column: u16,
    pub row: u16,
}

#[derive(Debug, Clone, Copy, PartialEq, Eq, Structural)]
pub enum ScrollAxis {
    Horizontal,
    Vertical,
}

impl ScrollAxis {
    /// The other axis.
    pub open spec fn other(self) -> ScrollAxis {
        match self {
            ScrollAxis::Horizontal => ScrollAxis::Vertical,
            ScrollAxis::Vertical => ScrollAxis::Horizontal,
        }
    }
}

/// The step of one event to the right and down.
pub open spec fn step(kind: MouseEventKind) -> (int, int) {
    match kind {
        MouseEventKind::ScrollUp => (0, -1),
        MouseEventKind::ScrollDown => (0, 1),
        MouseEventKind::ScrollLeft => (-1, 0),
        MouseEventKind::ScrollRight => (1, 0),
        _ => (0, 0),
    }
}

/// Whether an event scrolls.
pub open spec fn scrolls(kind: MouseEventKind) -> bool {
    step(kind) != (0int, 0int)
}

/// Whether an event scrolls.
pub fn is_scroll(kind: MouseEventKind) -> (scroll: bool)
    ensures
        scroll == scrolls(kind),
{
    match kind {
        MouseEventKind::ScrollUp
        | MouseEventKind::ScrollDown
        | MouseEventKind::ScrollLeft
        | MouseEventKind::ScrollRight => true,
        _ => false,
    }
}

/// The steps of all events together.
pub open spec fn total(events: Seq<MouseEvent>) -> (int, int)
    decreases events.len(),
{
    if events.len() == 0 {
        (0, 0)
    } else {
        let before = total(events.drop_last());
        let last = step(events.last().kind);
        (before.0 + last.0, before.1 + last.1)
    }
}

/// Whether any of the events scrolls.
pub open spec fn any_scroll(events: Seq<MouseEvent>) -> bool {
    exists|i: int| 0 <= i < events.len() && scrolls((#[trigger] events[i]).kind)
}

/// The size of a number.
pub open spec fn size(value: int) -> int {
    if value < 0 {
        -value
    } else {
        value
    }
}

/// The sign of a number.
pub open spec fn sign(value: int) -> int {
    if value < 0 {
        -1
    } else if value > 0 {
        1
    } else {
        0
    }
}

/// A scroll gesture: the axis that it holds to, and what speaks for another.
#[derive(Debug, Clone, Copy, PartialEq, Eq, Structural)]
pub struct ScrollGesture {
    pub axis: Option<ScrollAxis>,
    pub last_event_at: Option<u128>,
    pub pending_x: i32,
    pub pending_y: i32,
    pub cross_axis_evidence: i32,
}

/// No gesture.
pub open spec fn no_gesture() -> ScrollGesture {
    ScrollGesture {
        axis: None,
        last_event_at: None,
        pending_x: 0,
        pending_y: 0,
        cross_axis_evidence: 0,
    }
}

impl Default for ScrollGesture {
    fn default() -> (gesture: Self)
        ensures
            gesture == no_gesture(),
    {
        ScrollGesture {
            axis: None,
            last_event_at: None,
            pending_x: 0,
            pending_y: 0,
            cross_axis_evidence: 0,
        }
    }
}

/// The gesture that goes on at a time, or none after a pause.
pub open spec fn lasting(gesture: ScrollGesture, now: u128) -> ScrollGesture {
    if gesture.last_event_at is Some && now - gesture.last_event_at->0 > SCROLL_GESTURE_TIMEOUT {
        no_gesture()
    } else {
        gesture
    }
}

/// What speaks for the other axis after steps along the axis and across it.
pub open spec fn evidence_after(evidence: int, primary: int, cross: int) -> int {
    if cross != 0 && (primary == 0 || size(cross) > 2 * size(primary)) {
        if sign(evidence) != sign(cross) {
            cross
        } else {
            evidence + cross
        }
    } else if primary != 0 {
        0
    } else {
        evidence
    }
}

/// The axis that takes the steps, the steps, and what then speaks for the other axis. Without an
/// axis to hold to, equal steps both ways choose none.
pub open spec fn chosen(gesture: ScrollGesture, x: int, y: int) -> Option<(ScrollAxis, int, int)> {
    match gesture.axis {
        Some(axis) => {
            let (primary, cross) = match axis {
                ScrollAxis::Horizontal => (x, y),
                ScrollAxis::Vertical => (y, x),
            };
            let evidence = evidence_after(gesture.cross_axis_evidence as int, primary, cross);
            if size(evidence) >= AXIS_SWITCH_THRESHOLD {
                Some((axis.other(), evidence, 0))
            } else {
                Some((axis, primary, evidence))
            }
        },
        None => if size(x) > size(y) {
            Some((ScrollAxis::Horizontal, x, 0))
        } else if size(y) > size(x) {
            Some((ScrollAxis::Vertical, y, 0))
        } else {
            None
        },
    }
}

/// The gesture after events, and the movement that they make.
pub open spec fn consumed(gesture: ScrollGesture, events: Seq<MouseEvent>, now: u128) -> (
    ScrollGesture,
    Option<(ScrollAxis, i32)>,
) {
    let start = lasting(gesture, now);
    let x = start.pending_x + total(events).0;
    let y = start.pending_y + total(events).1;
    if !any_scroll(events) {
        (start, None)
    } else {
        match chosen(start, x, y) {
            Some((axis, steps, evidence)) => (
                ScrollGesture {
                    axis: Some(axis),
                    last_event_at: Some(now),
                    pending_x: 0,
                    pending_y: 0,
                    cross_axis_evidence: evidence as i32,
                },
                if steps != 0 {
                    Some((axis, steps as i32))
                } else {
                    None
                },
            ),
            None => (
                ScrollGesture {
                    last_event_at: Some(now),
                    pending_x: x as i32,
                    pending_y: y as i32,
                    ..start
                },
                None,
            ),
        }
    }
}

fn absolute(value: i32) -> (result: u32)
    ensures
        result == size(value as int),
{
    if value < 0 {
        (-(value as i64)) as u32
    } else {
        value as u32
    }
}

fn signum(value: i32) -> (result: i32)
    ensures
        result == sign(value as int),
{
    if value < 0 {
        -1
    } else if value > 0 {
        1
    } else {
        0
    }
}

impl ScrollGesture {
    /// Once an axis is held nothing is pending, and little speaks for the other axis.
    pub open spec fn wf(self) -> bool {
        &&& self.axis is Some ==> self.pending_x == 0 && self.pending_y == 0
        &&& self.axis is None ==> self.cross_axis_evidence == 0
        &&& size(self.cross_axis_evidence as int) < AXIS_SWITCH_THRESHOLD
    }

    /// Whether the pending steps can take so many events more.
    pub open spec fn room_for(self, count: nat) -> bool {
        size(self.pending_x as int) + count < i32::MAX && size(self.pending_y as int) + count
            < i32::MAX
    }

    /// Whether the pending steps can take so many events more.
    pub fn has_room(&self, count: usize) -> (room: bool)
        ensures
            room == self.room_for(count as nat),
    {
        absolute(self.pending_x) as u128 + (count as u128) < i32::MAX as u128 && absolute(
            self.pending_y,
        ) as u128 + (count as u128) < i32::MAX as u128
    }

    /// Takes events, and gives the axis and the number of steps that they move.
    pub fn consume(&mut self, events: &[MouseEvent], now: u128) -> (movement: Option<
        (ScrollAxis, i32),
    >)
        requires
            old(self).wf(),
            old(self).room_for(events@.len()),
        ensures
            final(self).wf(),
            (*final(self), movement) == consumed(*old(self), events@, now),
    {
        if let Some(last) = self.last_event_at {
            if now > last && now - last > SCROLL_GESTURE_TIMEOUT {
                *self = ScrollGesture::default();
            }
        }
        let ghost start = *self;
        assert(start == lasting(*old(self), now));
        let mut saw_scroll = false;
        let mut i: usize = 0;
        assert(total(events@.take(0)) == (0int, 0int));
        while i < events.len()
            invariant
                i <= events@.len(),
                start.room_for(events@.len()),
                self.axis == start.axis,
                self.last_event_at == start.last_event_at,
                self.cross_axis_evidence == start.cross_axis_evidence,
                size(total(events@.take(i as int)).0) <= i,
                size(total(events@.take(i as int)).1) <= i,
                self.pending_x == start.pending_x + total(events@.take(i as int)).0,
                self.pending_y == start.pending_y + total(events@.take(i as int)).1,
                saw_scroll == any_scroll(events@.take(i as int)),
                !saw_scroll ==> total(events@.take(i as int)) == (0int, 0int),
            decreases events@.len() - i,
        {
            let kind = events[i].kind;
            proof {
                let before = events@.take(i as int);
                let next = events@.take(i + 1);
                assert(next.drop_last() =~= before);
                assert(next.last() == events@[i as int]);
                assert(any_scroll(next) == (any_scroll(before) || scrolls(kind))) by {
                    if any_scroll(before) {
                        let j = choose|j: int|
                            0 <= j < before.len() && scrolls((#[trigger] before[j]).kind);
                        assert(scrolls(next[j].kind));
                    }
                    if scrolls(kind) {
                        assert(scrolls(next[i as int].kind));
                    }
                    if any_scroll(next) {
                        let j = choose|j: int|
                            0 <= j < next.len() && scrolls((#[trigger] next[j]).kind);
                        if j < i {
                            assert(scrolls(before[j].kind));
                        }
                    }
                }
            }
            match kind {
                MouseEventKind::ScrollUp => {
                    saw_scroll = true;
                    self.pending_y = self.pending_y - 1;
                },
                MouseEventKind::ScrollDown => {
                    saw_scroll = true;
                    self.pending_y = self.pending_y + 1;
                },
                MouseEventKind::ScrollLeft => {
                    saw_scroll = true;
                    self.pending_x = self.pending_x - 1;
                },
                MouseEventKind::ScrollRight => {
                    saw_scroll = true;
                    self.pending_x = self.pending_x + 1;
                },
                _ => {},
            }
            i = i + 1;
        }
        assert(events@.take(events@.len() as int) =~= events@);
        if !saw_scroll {
            return None;
        }
        self.last_event_at = Some(now);
        let axis = match self.axis {
            Some(axis) => {
                let (primary, cross): (i32, i32) = match axis {
                    ScrollAxis::Horizontal => (self.pending_x, self.pending_y),
                    ScrollAxis::Vertical => (self.pending_y, self.pending_x),
                };
                let cross_is_dominant = cross != 0 && (primary == 0 || absolute(cross) as u64
                    > absolute(primary) as u64 * 2);
                if cross_is_dominant {
                    if signum(self.cross_axis_evidence) != signum(cross) {
                        self.cross_axis_evidence = 0;
                    }
                    self.cross_axis_evidence = self.cross_axis_evidence + cross;
                } else if primary != 0 {
                    self.cross_axis_evidence = 0;
                }
                if absolute(self.cross_axis_evidence) >= AXIS_SWITCH_THRESHOLD as u32 {
                    let new_axis = match axis {
                        ScrollAxis::Horizontal => ScrollAxis::Vertical,
                        ScrollAxis::Vertical => ScrollAxis::Horizontal,
                    };
                    self.axis = Some(new_axis);
                    match new_axis {
                        ScrollAxis::Horizontal => self.pending_x = self.cross_axis_evidence,
                        ScrollAxis::Vertical => self.pending_y = self.cross_axis_evidence,
                    }
                    self.cross_axis_evidence = 0;
                    new_axis
                } else {
                    axis
                }
            },
            None => {
                let x: u32 = absolute(self.pending_x);
                let y: u32 = absolute(self.pending_y);
                let axis = if x > y {
                    ScrollAxis::Horizontal
                } else if y > x {
                    ScrollAxis::Vertical
                } else {
                    return None;
                };
                self.axis = Some(axis);
                self.cross_axis_evidence = 0;
                axis
            },
        };
        let steps: i32 = match axis {
            ScrollAxis::Horizontal => self.pending_x,
            ScrollAxis::Vertical => self.pending_y,
        };
        self.pending_x = 0;
        self.pending_y = 0;
        if steps != 0 {
            Some((axis, steps))
        } else {
            None
        }
    }
}

/// The steps that one frame may take.
pub open spec fn frame_steps(steps: int) -> int {
    if steps < -MAX_SCROLL_STEPS_PER_FRAME {
        -MAX_SCROLL_STEPS_PER_FRAME
    } else if steps > MAX_SCROLL_STEPS_PER_FRAME {
        MAX_SCROLL_STEPS_PER_FRAME as int
    } else {
        steps
    }
}

/// The steps that one frame may take.
pub fn clamp_steps(steps: i32) -> (clamped: i32)
    ensures
        clamped == frame_steps(steps as int),
{
    if steps < -MAX_SCROLL_STEPS_PER_FRAME {
        -MAX_SCROLL_STEPS_PER_FRAME
    } else if steps > MAX_SCROLL_STEPS_PER_FRAME {
        MAX_SCROLL_STEPS_PER_FRAME
    } else {
        steps
    }
}

/// Whether an event lies in an area of cells.
pub open spec fn within(cols: u16, rows: u16) -> spec_fn(MouseEvent) -> bool {
    |event: MouseEvent| event.column < cols && event.row < rows
}

/// Those of the events that lie in an area of cells.
pub fn events_within(events: &[MouseEvent], cols: u16, rows: u16) -> (inside: Vec<MouseEvent>)
    ensures
        inside@ == events@.filter(within(cols, rows)),
        inside@.len() <= events@.len(),
{
    let mut inside: Vec<MouseEvent> = Vec::new();
    let mut i: usize = 0;
    proof {
        reveal(Seq::filter);
        assert(events@.take(0).filter(within(cols, rows)) =~= seq![]);
    }
    while i < events.len()
        invariant
            i <= events@.len(),
            inside@.len() <= i,
            inside@ == events@.take(i as int).filter(within(cols, rows)),
        decreases events@.len() - i,
    {
        let event = events[i];
        proof {
            reveal(Seq::filter);
            let next = events@.take(i + 1);
            assert(next.drop_last() =~= events@.take(i as int));
            assert(next.last() == event);
        }
        if event.column < cols && event.row < rows {
            inside.push(event);
        }
        i = i + 1;
    }
    assert(events@.take(events@.len() as int) =~= events@);
    inside
}

/// The last event that lies in an area of cells.
pub fn last_within(events: &[MouseEvent], cols: u16, rows: u16) -> (found: Option<MouseEvent>)
    ensures
        match found {
            Some(event) => exists|i: int|
                0 <= i < events@.len() && #[trigger] events@[i] == event && within(cols, rows)(
                    event,
                ) && forall|j: int|
                    i < j < events@.len() ==> !within(cols, rows)(#[trigger] events@[j]),
            None => forall|j: int|
                0 <= j < events@.len() ==> !within(cols, rows)(#[trigger] events@[j]),
        },
{
    let mut i: usize = events.len();
    while i > 0
        invariant
            i <= events@.len(),
            forall|j: int| i <= j < events@.len() ==> !within(cols, rows)(#[trigger] events@[j]),
        decreases i,
    {
        let event = events[i - 1];
        if event.column < cols && event.row < rows {
            assert(events@[i - 1] == event);
            return Some(event);
        }
        i = i - 1;
    }
    None
}

/// Scroll events that are gathered within a short window.
pub struct ScrollBatch {
    pub events: Vec<MouseEvent>,
    pub deadline: u128,
}

impl ScrollBatch {
    /// A batch that begins with an event.
    pub fn new(first: MouseEvent, now: u128) -> (batch: ScrollBatch)
        requires
            now + SCROLL_BATCH_WINDOW <= u128::MAX,
        ensures
            batch.events@ == seq![first],
            batch.deadline == now + SCROLL_BATCH_WINDOW,
    {
        let mut events: Vec<MouseEvent> = Vec::new();
        events.push(first);
        assert(events@ =~= seq![first]);
        ScrollBatch { events, deadline: now + SCROLL_BATCH_WINDOW }
    }

    /// How long to wait for another event, if the batch takes one.
    pub fn remaining(&self, now: u128) -> (wait: Option<u128>)
        ensures
            wait == if self.events@.len() < SCROLL_BATCH_LIMIT && now < self.deadline {
                Some((self.deadline - now) as u128)
            } else {
                None
            },
    {
        if self.events.len() < SCROLL_BATCH_LIMIT && now < self.deadline {
            Some(self.deadline - now)
        } else {
            None
        }
    }

    /// Takes an event where it scrolls. Says whether it did.
    pub fn take(&mut self, event: MouseEvent) -> (taken: bool)
        ensures
            taken == scrolls(event.kind),
            final(self).deadline == old(self).deadline,
            final(self).events@ == if taken {
                old(self).events@.push(event)
            } else {
                old(self).events@
            },
    {
        if is_scroll(event.kind) {
            self.events.push(event);
            true
        } else {
            false
        }
    }
}

/// A lone step across the axis that a gesture holds to is noise: it moves nothing.
pub proof fn lemma_lone_cross_step(gesture: ScrollGesture, event: MouseEvent, now: u128)
    requires
        gesture.wf(),
        lasting(gesture, now) == gesture,
        gesture.axis is Some,
        gesture.cross_axis_evidence == 0,
        scrolls(event.kind),
        match gesture.axis->0 {
            ScrollAxis::Horizontal => step(event.kind).0 == 0,
            ScrollAxis::Vertical => step(event.kind).1 == 0,
        },
    ensures
        consumed(gesture, seq![event], now).1 is None,
        consumed(gesture, seq![event], now).0.axis == gesture.axis,
{
    reveal_with_fuel(total, 2);
    assert(seq![event].drop_last() =~= seq![]);
    assert(scrolls(seq![event][0].kind));
}

/// A second step across the axis in the same direction, without a pause, turns the gesture.
pub proof fn lemma_sustained_cross_steps(
    gesture: ScrollGesture,
    event: MouseEvent,
    now: u128,
    later: u128,
)
    requires
        gesture.wf(),
        lasting(gesture, now) == gesture,
        gesture.axis is Some,
        gesture.cross_axis_evidence == 0,
        scrolls(event.kind),
        match gesture.axis->0 {
            ScrollAxis::Horizontal => step(event.kind).0 == 0,
            ScrollAxis::Vertical => step(event.kind).1 == 0,
        },
        later - now <= SCROLL_GESTURE_TIMEOUT,
    ensures
        ({
            let first = consumed(gesture, seq![event], now).0;
            let second = consumed(first, seq![event], later);
            let across = step(event.kind).0 + step(event.kind).1;
            second.1 == Some((gesture.axis->0.other(), (2 * across) as i32)) && second.0.axis
                == Some(gesture.axis->0.other())
        }),
{
    reveal_with_fuel(total, 2);
    assert(seq![event].drop_last() =~= seq![]);
    assert(scrolls(seq![event][0].kind));
}

/// The steps of events never exceed their number.
pub proof fn lemma_steps_bounded(events: Seq<MouseEvent>)
    ensures
        size(total(events).0) + size(total(events).1) <= events.len(),
    decreases events.len(),
{
    if events.len() > 0 {
        lemma_steps_bounded(events.drop_last());
    }
}

/// A movement is never longer than the events behind it: those given now, those pending, and at
/// most one that spoke for the other axis before.
pub proof fn lemma_movement_bounded(gesture: ScrollGesture, events: Seq<MouseEvent>, now: u128)
    requires
        gesture.wf(),
        gesture.room_for(events.len()),
    ensures
        consumed(gesture, events, now).1 matches Some((_, steps)) ==> steps != 0 && size(
            steps as int,
        ) <= size(gesture.pending_x as int) + size(gesture.pending_y as int) + events.len() + 1,
{
    lemma_steps_bounded(events);
}

} // verus!
