//! The order in which bytes reach the terminal: control output goes before graphics, but never
//! into the middle of a segment.

use crate::text;
use std::collections::VecDeque;
use vstd::prelude::*;

verus! {

/// What a segment is for.
#[derive(Debug, Clone, Copy, PartialEq, Eq, Structural)]
pub enum OutputKind {
    Control,
    Graphics,
}

/// A segment on its way, and how much of it has been written.
pub struct OutputSegment {
    pub kind: OutputKind,
    pub bytes: Vec<u8>,
    pub offset: usize,
}

/// The segments that wait, and the one on its way.
pub struct OutputPump {
    pub active: Option<OutputSegment>,
    pub control: VecDeque<Vec<u8>>,
    pub graphics: VecDeque<Vec<u8>>,
}

/// What waits, and what is left of the segment on its way.
#[verifier::ext_equal]
pub struct PumpState {
    pub active: Option<(OutputKind, Seq<u8>)>,
    pub control: Seq<Seq<u8>>,
    pub graphics: Seq<Seq<u8>>,
}

impl View for OutputPump {
    type V = PumpState;

    open spec fn view(&self) -> PumpState {
        PumpState {
            active: match self.active {
                Some(active) => Some((active.kind, active.bytes@.skip(active.offset as int))),
                None => None,
            },
            control: text::contents(self.control@),
            graphics: text::contents(self.graphics@),
        }
    }
}

/// Those of the segments that hold a byte.
pub open spec fn not_empty(segments: Seq<Seq<u8>>) -> Seq<Seq<u8>>
    decreases segments.len(),
{
    if segments.len() == 0 {
        seq![]
    } else if segments.last().len() > 0 {
        not_empty(segments.drop_last()).push(segments.last())
    } else {
        not_empty(segments.drop_last())
    }
}

impl PumpState {
    /// Whether graphics wait or are on their way.
    pub open spec fn busy(self) -> bool {
        (self.active matches Some((kind, _)) && kind == OutputKind::Graphics)
            || self.graphics.len() > 0
    }

    /// The state with the next segment on its way: the first control segment, or else the first
    /// graphics segment.
    pub open spec fn activated(self) -> PumpState {
        if self.active is Some {
            self
        } else if self.control.len() > 0 {
            PumpState {
                active: Some((OutputKind::Control, self.control[0])),
                control: self.control.skip(1),
                ..self
            }
        } else if self.graphics.len() > 0 {
            PumpState {
                active: Some((OutputKind::Graphics, self.graphics[0])),
                graphics: self.graphics.skip(1),
                ..self
            }
        } else {
            self
        }
    }

    /// The graphics bytes that are still to be written, in their order.
    pub open spec fn graphics_stream(self) -> Seq<u8> {
        (match self.active {
            Some((OutputKind::Graphics, rest)) => rest,
            _ => seq![],
        }) + text::joined(self.graphics)
    }

    /// The control bytes that are still to be written, in their order.
    pub open spec fn control_stream(self) -> Seq<u8> {
        (match self.active {
            Some((OutputKind::Control, rest)) => rest,
            _ => seq![],
        }) + text::joined(self.control)
    }
}

/// What came of writing to the terminal.
#[derive(Debug, Clone, Copy, PartialEq, Eq, Structural)]
pub enum WriteOutcome {
    /// So many bytes were taken.
    Written(usize),
    /// The terminal takes no bytes now.
    WouldBlock,
    /// The call was interrupted.
    Interrupted,
    /// The call failed.
    Failed,
}

/// Why output cannot go on.
#[derive(Debug, Clone, Copy, PartialEq, Eq, Structural)]
pub enum PumpError {
    /// The terminal took nothing of what it was given.
    WriteZero,
    /// The terminal cannot be written to.
    Failed,
}

impl OutputPump {
    /// Something is left of the segment on its way.
    pub open spec fn wf(&self) -> bool {
        self.active matches Some(active) ==> active.offset <= active.bytes@.len()
    }

    /// A pump with nothing to write.
    pub fn new() -> (pump: OutputPump)
        ensures
            pump.wf(),
            pump@ == (PumpState { active: None, control: seq![], graphics: seq![] }),
    {
        let pump = OutputPump { active: None, control: VecDeque::new(), graphics: VecDeque::new() };
        assert(pump@ =~= (PumpState { active: None, control: seq![], graphics: seq![] }));
        pump
    }

    /// Lets control output wait.
    pub fn enqueue_control(&mut self, bytes: Vec<u8>)
        requires
            old(self).wf(),
        ensures
            final(self).wf(),
            final(self)@ == (PumpState {
                control: if bytes@.len() > 0 {
                    old(self)@.control.push(bytes@)
                } else {
                    old(self)@.control
                },
                ..old(self)@
            }),
    {
        if bytes.len() > 0 {
            self.control.push_back(bytes);
            assert(self@.control =~= old(self)@.control.push(bytes@));
        }
    }

    /// Lets graphics wait.
    pub fn enqueue_graphics(&mut self, segments: Vec<Vec<u8>>)
        requires
            old(self).wf(),
        ensures
            final(self).wf(),
            final(self)@ == (PumpState {
                graphics: old(self)@.graphics + not_empty(text::contents(segments@)),
                ..old(self)@
            }),
    {
        let ghost all = text::contents(segments@);
        assert(self@.graphics =~= old(self)@.graphics + not_empty(all.take(0)));
        for segment in it: segments
            invariant
                all == text::contents(it.seq()),
                self.wf(),
                self.active == old(self).active,
                self.control == old(self).control,
                self@.graphics == old(self)@.graphics + not_empty(all.take(it.index())),
        {
            proof {
                let next = all.take(it.index() + 1);
                assert(next.drop_last() =~= all.take(it.index()));
                assert(next.last() == segment@);
            }
            let ghost before = self@.graphics;
            if segment.len() > 0 {
                self.graphics.push_back(segment);
                assert(self@.graphics =~= before.push(segment@));
            }
            assert(self@.graphics =~= old(self)@.graphics + not_empty(all.take(it.index() + 1)));
        }
        assert(all.take(all.len() as int) =~= all);
    }

    /// Lets graphics take the place of those that wait. While graphics are on their way those that
    /// wait stay: an upload whose first chunk has reached the terminal must not lose the others.
    pub fn replace_graphics(&mut self, segments: Vec<Vec<u8>>)
        requires
            old(self).wf(),
        ensures
            final(self).wf(),
            final(self)@ == (PumpState {
                graphics: (if old(self)@.busy() {
                    old(self)@.graphics
                } else {
                    seq![]
                }) + not_empty(text::contents(segments@)),
                ..old(self)@
            }),
    {
        if !self.graphics_busy() {
            self.graphics.clear();
            assert(self@.graphics =~= seq![]);
        }
        self.enqueue_graphics(segments);
    }

    /// Whether anything is left to write.
    pub fn has_pending(&self) -> (pending: bool)
        ensures
            pending == (self@.active is Some || self@.control.len() > 0 || self@.graphics.len()
                > 0),
    {
        self.active.is_some() || self.control.len() > 0 || self.graphics.len() > 0
    }

    /// Whether graphics wait or are on their way.
    pub fn graphics_busy(&self) -> (busy: bool)
        ensures
            busy == self@.busy(),
    {
        let active_graphics = match &self.active {
            Some(active) => match active.kind {
                OutputKind::Graphics => true,
                OutputKind::Control => false,
            },
            None => false,
        };
        active_graphics || self.graphics.len() > 0
    }

    /// Sends the next segment on its way, where none is.
    pub fn activate_next(&mut self)
        requires
            old(self).wf(),
        ensures
            final(self).wf(),
            final(self)@ == old(self)@.activated(),
    {
        if self.active.is_none() {
            match self.control.pop_front() {
                Some(bytes) => {
                    self.active = Some(
                        OutputSegment { kind: OutputKind::Control, bytes, offset: 0 },
                    );
                    assert(bytes@.skip(0) =~= bytes@);
                    assert(self@ =~= old(self)@.activated());
                },
                None => match self.graphics.pop_front() {
                    Some(bytes) => {
                        self.active = Some(
                            OutputSegment { kind: OutputKind::Graphics, bytes, offset: 0 },
                        );
                        assert(bytes@.skip(0) =~= bytes@);
                        assert(self@ =~= old(self)@.activated());
                    },
                    None => {},
                },
            }
        }
    }

    /// Begins to write: which kind of segment is on its way, and how many bytes are left of it.
    pub fn begin(&mut self) -> (next: Option<(OutputKind, usize)>)
        requires
            old(self).wf(),
        ensures
            final(self).wf(),
            final(self)@ == old(self)@.activated(),
            match final(self)@.active {
                Some((kind, rest)) => next == Some((kind, rest.len() as usize)),
                None => next is None,
            },
    {
        self.activate_next();
        match &self.active {
            Some(active) => Some((active.kind, active.bytes.len() - active.offset)),
            None => None,
        }
    }

    /// The next bytes to write, at most `allowance`.
    pub fn chunk(&self, allowance: usize) -> (bytes: &[u8])
        requires
            self.wf(),
            self@.active matches Some((_, rest)) && allowance <= rest.len(),
        ensures
            bytes@ == (self@.active->0).1.take(allowance as int),
    {
        match &self.active {
            Some(active) => {
                let len: usize = active.bytes.len();
                assert(active.offset + allowance <= len);
                let bytes = vstd::slice::slice_subrange(
                    active.bytes.as_slice(),
                    active.offset,
                    active.offset + allowance,
                );
                assert(bytes@ =~= (self@.active->0).1.take(allowance as int));
                bytes
            },
            None => &[],
        }
    }

    /// Goes on after writing. Says whether bytes were taken.
    pub fn finish(&mut self, outcome: WriteOutcome) -> (progress: Result<bool, PumpError>)
        requires
            old(self).wf(),
            old(self)@.active matches Some((_, rest)) && (outcome matches WriteOutcome::Written(
                written,
            ) ==> written <= rest.len()),
        ensures
            final(self).wf(),
            match outcome {
                WriteOutcome::Written(written) => if written == 0 {
                    progress == Err::<bool, PumpError>(PumpError::WriteZero) && final(self)@
                        == old(self)@
                } else {
                    progress == Ok::<bool, PumpError>(true) && final(self)@ == after_write(
                        old(self)@,
                        written as int,
                    )
                },
                WriteOutcome::WouldBlock => progress == Ok::<bool, PumpError>(false) && final(
                    self)@ == old(self)@,
                WriteOutcome::Interrupted => progress == Ok::<bool, PumpError>(false) && final(
                    self)@ == old(self)@,
                WriteOutcome::Failed => progress == Err::<bool, PumpError>(PumpError::Failed)
                    && final(self)@ == old(self)@,
            },
    {
        match outcome {
            WriteOutcome::Written(written) => {
                if written == 0 {
                    return Err(PumpError::WriteZero);
                }
                let active = self.active.take();
                if let Some(segment) = active {
                    let len: usize = segment.bytes.len();
                    assert(segment.offset + written <= len);
                    let offset: usize = segment.offset + written;
                    if offset < len {
                        assert(segment.bytes@.skip(offset as int) =~= (old(
                            self)@.active->0).1.skip(written as int));
                        self.active = Some(
                            OutputSegment { kind: segment.kind, bytes: segment.bytes, offset },
                        );
                    }
                }
                assert(self@ =~= after_write(old(self)@, written as int));
                Ok(true)
            },
            WriteOutcome::WouldBlock => Ok(false),
            WriteOutcome::Interrupted => Ok(false),
            WriteOutcome::Failed => Err(PumpError::Failed),
        }
    }

    /// Drops all that waits, and hands out what is left of the segment on its way.
    pub fn take_active_remainder(&mut self) -> (rest: Option<Vec<u8>>)
        requires
            old(self).wf(),
        ensures
            final(self).wf(),
            final(self)@ == (PumpState { active: None, control: seq![], graphics: seq![] }),
            match old(self)@.active {
                Some((_, left)) => if left.len() > 0 {
                    rest matches Some(bytes) && bytes@ == left
                } else {
                    rest is None
                },
                None => rest is None,
            },
    {
        self.control.clear();
        self.graphics.clear();
        let active = self.active.take();
        assert(self@ =~= (PumpState { active: None, control: seq![], graphics: seq![] }));
        match active {
            Some(segment) => {
                let len: usize = segment.bytes.len();
                if segment.offset < len {
                    let mut bytes: Vec<u8> = Vec::new();
                    bytes.extend_from_slice(
                        vstd::slice::slice_subrange(segment.bytes.as_slice(), segment.offset, len),
                    );
                    assert(bytes@ =~= segment.bytes@.skip(segment.offset as int));
                    Some(bytes)
                } else {
                    None
                }
            },
            None => None,
        }
    }
}

/// The state after bytes of the segment on its way were taken.
pub open spec fn after_write(state: PumpState, written: int) -> PumpState {
    let rest = (state.active->0).1.skip(written);
    PumpState {
        active: if rest.len() > 0 {
            Some(((state.active->0).0, rest))
        } else {
            None
        },
        ..state
    }
}

/// The first segment comes first.
pub proof fn lemma_joined_first(segments: Seq<Seq<u8>>)
    requires
        segments.len() > 0,
    ensures
        text::joined(segments) == segments[0] + text::joined(segments.skip(1)),
    decreases segments.len(),
{
    if segments.len() == 1 {
        assert(segments.drop_last() =~= seq![]);
        assert(segments.skip(1) =~= seq![]);
        assert(text::joined(seq![]) =~= Seq::<u8>::empty());
    } else {
        lemma_joined_first(segments.drop_last());
        assert(segments.drop_last().skip(1) =~= segments.skip(1).drop_last());
        assert(segments.skip(1).last() == segments.last());
    }
    assert(text::joined(segments) =~= segments[0] + text::joined(segments.skip(1)));
}

/// Sending a segment on its way neither loses nor reorders a byte, and a control segment that
/// waits goes before graphics that wait.
pub proof fn lemma_activation(state: PumpState)
    ensures
        state.activated().graphics_stream() == state.graphics_stream(),
        state.activated().control_stream() == state.control_stream(),
        state.active is Some ==> state.activated() == state,
        state.active is None && state.control.len() > 0 ==> state.activated().active == Some(
            (OutputKind::Control, state.control[0]),
        ),
{
    if state.active is None && state.control.len() > 0 {
        lemma_joined_first(state.control);
    } else if state.active is None && state.graphics.len() > 0 {
        lemma_joined_first(state.graphics);
    }
    assert(state.activated().graphics_stream() =~= state.graphics_stream());
    assert(state.activated().control_stream() =~= state.control_stream());
}

/// What is written is the beginning of its stream, what is left of the stream is the rest of it,
/// and the other stream stays as it is.
pub proof fn lemma_write_keeps_order(state: PumpState, written: int)
    requires
        state.active matches Some((_, rest)) && 0 <= written <= rest.len(),
    ensures
        ({
            let taken = (state.active->0).1.take(written);
            let after = after_write(state, written);
            match (state.active->0).0 {
                OutputKind::Graphics => state.graphics_stream() == taken + after.graphics_stream()
                    && after.control_stream() == state.control_stream(),
                OutputKind::Control => state.control_stream() == taken + after.control_stream()
                    && after.graphics_stream() == state.graphics_stream(),
            }
        }),
{
    let rest = (state.active->0).1;
    let taken = rest.take(written);
    let after = after_write(state, written);
    assert(rest =~= taken + rest.skip(written));
    match (state.active->0).0 {
        OutputKind::Graphics => {
            assert(state.graphics_stream() =~= taken + after.graphics_stream());
            assert(after.control_stream() =~= state.control_stream());
        },
        OutputKind::Control => {
            assert(state.control_stream() =~= taken + after.control_stream());
            assert(after.graphics_stream() =~= state.graphics_stream());
        },
    }
}

/// The state after graphics take the place of those that wait.
pub open spec fn replaced(state: PumpState, segments: Seq<Seq<u8>>) -> PumpState {
    PumpState {
        graphics: (if state.busy() {
            state.graphics
        } else {
            seq![]
        }) + not_empty(segments),
        ..state
    }
}

/// Replacing graphics never loses a byte of graphics that are on their way or wait behind them.
pub proof fn lemma_replacement_strands_nothing(state: PumpState, segments: Seq<Seq<u8>>)
    ensures
        replaced(state, segments).graphics_stream() == state.graphics_stream() + text::joined(
            not_empty(segments),
        ),
        replaced(state, segments).control_stream() == state.control_stream(),
{
    let kept = if state.busy() {
        state.graphics
    } else {
        seq![]
    };
    assert(kept =~= state.graphics);
    lemma_joined_concat(kept, not_empty(segments));
    assert(replaced(state, segments).graphics_stream() =~= state.graphics_stream() + text::joined(
        not_empty(segments),
    ));
}

proof fn lemma_joined_concat(a: Seq<Seq<u8>>, b: Seq<Seq<u8>>)
    ensures
        text::joined(a + b) == text::joined(a) + text::joined(b),
    decreases b.len(),
{
    if b.len() == 0 {
        assert(a + b =~= a);
        assert(text::joined(a + b) =~= text::joined(a) + text::joined(b));
    } else {
        assert((a + b).drop_last() =~= a + b.drop_last());
        assert((a + b).last() == b.last());
        lemma_joined_concat(a, b.drop_last());
        assert(text::joined(a + b) =~= text::joined(a) + text::joined(b));
    }
}

} // verus!
