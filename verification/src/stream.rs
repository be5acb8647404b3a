//! The stream controller: on demand for the picture at a presentation index
//! it decides what must happen next (drop a unit, decode a unit, hand out a
//! picture, give up) so that pictures leave in presentation order from a
//! bounded buffer.
//!
//! The controller does no work on the coded-unit source or the decoder
//! itself. It answers each event with the next action; whoever owns the
//! source and the decoder performs the action and reports what came of it.
//!
//! Catching up is a heuristic: when demand has run more than a buffer's worth
//! ahead, units are dropped by count. No decoder refresh point is looked for,
//! so the decoder may need extra units before it yields pictures again, and
//! the index of what follows is only as good as the alignment between units
//! and pictures.

use crate::invariants::{lemma_serve, lemma_serve_cursor, lemma_step_cursor};
use crate::picture::{CodedAccessUnit, DecodeOutcome, DecodedPicture, ReorderSlot};
use crate::reorder::{first_min, lemma_first_min_exists, without_first_min, ReorderBuffer, DEFAULT_CAPACITY};
use std::collections::VecDeque;
use vstd::prelude::*;

verus! {

/// Where the controller stands between two steps.
#[derive(Debug, Clone, Copy, PartialEq, Eq, Structural)]
pub enum Phase {
    /// No request is being worked on.
    Idle,
    /// Units are being dropped to catch up with the requested index.
    CatchingUp,
    /// The buffer has room and the next unit is awaited from the decoder.
    Filling,
    /// The source has ended and the buffer is empty. Terminal.
    Exhausted,
    /// The decoder reported an unrecoverable fault. Terminal.
    Failed,
}

impl Phase {
    /// Whether the stream is over for good.
    pub open spec fn spec_is_terminal(&self) -> bool {
        *self == Phase::Exhausted || *self == Phase::Failed
    }

    #[verifier::when_used_as_spec(spec_is_terminal)]
    pub fn is_terminal(&self) -> (b: bool)
        ensures
            b == self.spec_is_terminal(),
    {
        *self == Phase::Exhausted || *self == Phase::Failed
    }
}

/// A coded unit together with what the decoder made of it.
#[derive(Debug, PartialEq, Eq)]
pub struct DecodedUnit {
    pub unit: CodedAccessUnit,
    pub outcome: DecodeOutcome,
}

/// What happened outside the controller.
#[derive(Debug, PartialEq, Eq)]
pub enum Event {
    /// The picture at this presentation index is asked for.
    Request(usize),
    /// A unit was taken from the source and dropped undecoded.
    Discarded,
    /// A unit was taken from the source and submitted to the decoder.
    Decoded(DecodedUnit),
    /// The source had no further unit.
    SourceEnded,
}

/// What the controller wants done next.
#[derive(Debug, PartialEq, Eq)]
pub enum Action {
    /// Take one unit from the source and drop it; report `Discarded`, or
    /// `SourceEnded` if there was none.
    Discard,
    /// Take one unit from the source and submit it to the decoder; report
    /// `Decoded`, or `SourceEnded` if there was none.
    Feed,
    /// The request is answered with this slot.
    Emit(ReorderSlot),
    /// The request is answered with no picture.
    Finished,
}

/// The slot that a picture decoded from `unit` goes into.
pub open spec fn slot_of(unit: CodedAccessUnit, picture: DecodedPicture) -> ReorderSlot {
    ReorderSlot { presentation_time: unit.spec_presentation_time() as i64, picture }
}

/// The controller as a mathematical value.
pub struct ControllerState {
    pub width: u32,
    pub height: u32,
    /// The most slots the buffer holds.
    pub capacity: nat,
    /// The buffered slots, in the order in which they were decoded.
    pub buffer: Seq<ReorderSlot>,
    /// How many pictures have left the stream, emitted or skipped.
    pub next_index: nat,
    /// The index most recently asked for.
    pub target: nat,
    pub phase: Phase,
    /// Whether the source has reported its end.
    pub source_ended: bool,
}

impl ControllerState {
    /// A controller before its first request.
    pub open spec fn initial(width: u32, height: u32, capacity: nat) -> ControllerState {
        ControllerState {
            width,
            height,
            capacity,
            buffer: Seq::empty(),
            next_index: 0,
            target: 0,
            phase: Phase::Idle,
            source_ended: false,
        }
    }

    /// What holds of every state the controller can be in.
    pub open spec fn wf(self) -> bool {
        &&& self.buffer.len() <= self.capacity
        &&& self.next_index <= self.target + 1
        &&& match self.phase {
            Phase::Idle => !(self.source_ended && self.buffer.len() == 0),
            Phase::CatchingUp => !self.source_ended && self.next_index < self.target,
            Phase::Filling => !self.source_ended && self.buffer.len() < self.capacity
                && self.next_index <= self.target,
            Phase::Exhausted => self.source_ended && self.buffer.len() == 0,
            Phase::Failed => true,
        }
    }

    /// The events that make sense in this state. A request may come at any
    /// time, but, while the stream lasts, not for an index already passed.
    pub open spec fn accepts(self, event: Event) -> bool {
        match event {
            Event::Request(i) => self.phase.is_terminal() || self.next_index <= i,
            Event::Discarded => self.phase == Phase::CatchingUp,
            Event::Decoded(_) => self.phase == Phase::Filling,
            Event::SourceEnded => self.phase == Phase::CatchingUp || self.phase == Phase::Filling,
        }
    }

    /// The controller waits for what `action` asks for: while a unit is to be
    /// dropped it is catching up, while a unit is to be decoded it is
    /// filling, and once a request is answered it rests.
    pub open spec fn awaits(self, action: Action) -> bool {
        match action {
            Action::Discard => self.phase == Phase::CatchingUp,
            Action::Feed => self.phase == Phase::Filling,
            Action::Emit(_) => self.phase == Phase::Idle || self.phase == Phase::Exhausted,
            Action::Finished => self.phase == Phase::Idle || self.phase.is_terminal(),
        }
    }

    /// The phase in which a settled request leaves the controller.
    pub open spec fn resting_phase(self) -> Phase {
        if self.source_ended && self.buffer.len() == 0 {
            Phase::Exhausted
        } else {
            Phase::Idle
        }
    }

    /// Fill and drain. While the buffer has room and the source lasts, a
    /// unit is wanted. Once the buffer is full or the source has ended, the
    /// slot with the smallest presentation time leaves and counts as one
    /// picture; it answers the request if the count has reached the target,
    /// else it is dropped and the next is considered. With nothing left to
    /// drain the request ends without a picture.
    pub open spec fn advance(self) -> (ControllerState, Action)
        decreases self.buffer.len(),
    {
        if !self.source_ended && self.buffer.len() < self.capacity {
            (ControllerState { phase: Phase::Filling, ..self }, Action::Feed)
        } else if self.buffer.len() == 0 {
            (ControllerState { phase: self.resting_phase(), ..self }, Action::Finished)
        } else {
            proof {
                lemma_first_min_exists(self.buffer);
            }
            let slot = self.buffer[first_min(self.buffer)];
            let popped = ControllerState {
                buffer: without_first_min(self.buffer),
                next_index: self.next_index + 1,
                ..self
            };
            if popped.next_index >= popped.target {
                (ControllerState { phase: popped.resting_phase(), ..popped }, Action::Emit(slot))
            } else {
                popped.advance()
            }
        }
    }

    /// A request for index `i`. Over for good, the stream has no picture.
    /// Otherwise, if `i` lies more than a buffer's capacity ahead and the
    /// source has not ended, units are to be dropped undecoded, as many as
    /// `i` is ahead or as the source still has; then filling and draining go
    /// on.
    pub open spec fn request(self, i: nat) -> (ControllerState, Action) {
        if self.phase.is_terminal() {
            (self, Action::Finished)
        } else if !self.source_ended && i - self.next_index > self.capacity {
            (ControllerState { target: i, phase: Phase::CatchingUp, ..self }, Action::Discard)
        } else {
            ControllerState { target: i, ..self }.advance()
        }
    }

    /// One unit was dropped while catching up, and counts as passed.
    pub open spec fn discarded(self) -> (ControllerState, Action) {
        let s = ControllerState { next_index: self.next_index + 1, ..self };
        if s.next_index >= s.target {
            s.advance()
        } else {
            (s, Action::Discard)
        }
    }

    /// The source reported its end. Nothing more is dropped or decoded, and
    /// only units that were dropped count as passed: what the buffer holds
    /// is drained towards the target.
    pub open spec fn source_ended(self) -> (ControllerState, Action) {
        ControllerState { source_ended: true, ..self }.advance()
    }

    /// A unit came back from the decoder. A picture is buffered under the
    /// presentation time of the unit that produced it. A unit without a
    /// picture, or one that failed to decode, leaves no trace. A fatal fault
    /// ends the stream.
    pub open spec fn decoded(self, decoded: DecodedUnit) -> (ControllerState, Action) {
        match decoded.outcome {
            DecodeOutcome::Picture(picture) => ControllerState {
                buffer: self.buffer.push(slot_of(decoded.unit, picture)),
                ..self
            }.advance(),
            DecodeOutcome::NoPicture | DecodeOutcome::Failed => self.advance(),
            DecodeOutcome::Fatal => (
                ControllerState { phase: Phase::Failed, ..self },
                Action::Finished,
            ),
        }
    }

    /// The state after `event`, and the action that answers it.
    pub open spec fn step(self, event: Event) -> (ControllerState, Action) {
        match event {
            Event::Request(i) => self.request(i as nat),
            Event::Discarded => self.discarded(),
            Event::Decoded(decoded) => self.decoded(decoded),
            Event::SourceEnded => self.source_ended(),
        }
    }
}

/// The answer that an action gives to a request, if it gives one.
pub open spec fn answer(action: Action) -> Option<ReorderSlot> {
    match action {
        Action::Emit(slot) => Some(slot),
        _ => None,
    }
}

/// Carries out `action`, and those that follow, against a source that yields
/// the units of `feed` in order and then ends. Gives the state in which the
/// request is settled, its answer, and the units not taken.
pub open spec fn drive(state: ControllerState, action: Action, feed: Seq<DecodedUnit>) -> (
    ControllerState,
    Option<ReorderSlot>,
    Seq<DecodedUnit>,
)
    decreases feed.len(),
{
    match action {
        Action::Emit(_) | Action::Finished => (state, answer(action), feed),
        Action::Discard | Action::Feed => if feed.len() == 0 {
            let (settled, last) = state.source_ended();
            (settled, answer(last), feed)
        } else {
            let (next, then) = if action == Action::Discard {
                state.discarded()
            } else {
                state.decoded(feed[0])
            };
            drive(next, then, feed.skip(1))
        },
    }
}

/// A whole request for index `i` against a source that yields the units of
/// `feed` in order and then ends.
pub open spec fn serve(state: ControllerState, i: nat, feed: Seq<DecodedUnit>) -> (
    ControllerState,
    Option<ReorderSlot>,
    Seq<DecodedUnit>,
) {
    let (next, action) = state.request(i);
    drive(next, action, feed)
}

/// The stream controller: the reorder buffer, the cursor and the phase, with
/// the stream's fixed dimensions.
pub struct StreamController {
    width: u32,
    height: u32,
    buffer: ReorderBuffer,
    next_index: usize,
    target: usize,
    phase: Phase,
    source_ended: bool,
}

impl View for StreamController {
    type V = ControllerState;

    closed spec fn view(&self) -> ControllerState {
        ControllerState {
            width: self.width,
            height: self.height,
            capacity: self.buffer.spec_capacity() as nat,
            buffer: self.buffer@,
            next_index: self.next_index as nat,
            target: self.target as nat,
            phase: self.phase,
            source_ended: self.source_ended,
        }
    }
}

impl StreamController {
    /// The controller is in a state it can be in, and its target leaves room
    /// to count one picture more.
    pub open spec fn wf(&self) -> bool {
        &&& self@.wf()
        &&& self@.capacity <= usize::MAX
        &&& self@.next_index <= usize::MAX
        &&& self@.target < usize::MAX
    }

    /// The events that `step` takes in this state: those that make sense in
    /// it, a request moreover only for an index below `usize::MAX`.
    pub open spec fn accepts(&self, event: Event) -> bool {
        &&& self@.accepts(event)
        &&& event matches Event::Request(i) ==> self@.phase.is_terminal() || i < usize::MAX
    }

    /// A controller for a stream of the given dimensions, with a buffer of
    /// `capacity` slots.
    pub fn with_capacity(width: u32, height: u32, capacity: usize) -> (c: Self)
        ensures
            c.wf(),
            c@ == ControllerState::initial(width, height, capacity as nat),
    {
        StreamController {
            width,
            height,
            buffer: ReorderBuffer::new(capacity),
            next_index: 0,
            target: 0,
            phase: Phase::Idle,
            source_ended: false,
        }
    }

    /// A controller for a stream of the given dimensions, with a buffer of
    /// the default capacity.
    pub fn new(width: u32, height: u32) -> (c: Self)
        ensures
            c.wf(),
            c@ == ControllerState::initial(width, height, DEFAULT_CAPACITY as nat),
    {
        StreamController::with_capacity(width, height, DEFAULT_CAPACITY)
    }

    /// Width of the stream's pictures, as given at construction.
    pub fn width(&self) -> (w: u32)
        ensures
            w == self@.width,
    {
        self.width
    }

    /// Height of the stream's pictures, as given at construction.
    pub fn height(&self) -> (h: u32)
        ensures
            h == self@.height,
    {
        self.height
    }

    /// The number of pictures that have left the stream so far.
    pub fn next_index(&self) -> (n: usize)
        ensures
            n == self@.next_index,
    {
        self.next_index
    }

    /// The number of pictures waiting in the reorder buffer.
    pub fn buffered(&self) -> (n: usize)
        ensures
            n == self@.buffer.len(),
            n <= self@.capacity,
    {
        self.buffer.len()
    }

    /// The most pictures the reorder buffer holds.
    pub fn capacity(&self) -> (k: usize)
        ensures
            k == self@.capacity,
    {
        self.buffer.capacity()
    }

    pub fn phase(&self) -> (p: Phase)
        ensures
            p == self@.phase,
    {
        self.phase
    }

    fn resting_phase(&self) -> (p: Phase)
        ensures
            p == self@.resting_phase(),
    {
        if self.source_ended && self.buffer.is_empty() {
            Phase::Exhausted
        } else {
            Phase::Idle
        }
    }

    fn advance(&mut self) -> (action: Action)
        requires
            old(self)@.next_index <= old(self)@.target < usize::MAX,
        ensures
            final(self).wf(),
            (final(self)@, action) == old(self)@.advance(),
    {
        loop
            invariant
                self@.next_index <= self@.target < usize::MAX,
                self@.advance() == old(self)@.advance(),
            decreases self@.buffer.len(),
        {
            if !self.source_ended && self.buffer.len() < self.buffer.capacity() {
                self.phase = Phase::Filling;
                return Action::Feed;
            }
            let ghost before = self@;
            match self.buffer.pop_min() {
                None => {
                    self.phase = self.resting_phase();
                    return Action::Finished;
                },
                Some(slot) => {
                    proof {
                        lemma_first_min_exists(before.buffer);
                    }
                    self.next_index = self.next_index + 1;
                    if self.next_index >= self.target {
                        self.phase = self.resting_phase();
                        return Action::Emit(slot);
                    }
                },
            }
        }
    }

    /// Takes in what happened and answers with what is to happen next.
    pub fn step(&mut self, event: Event) -> (action: Action)
        requires
            old(self).wf(),
            old(self).accepts(event),
        ensures
            final(self).wf(),
            (final(self)@, action) == old(self)@.step(event),
            final(self)@.awaits(action),
    {
        proof {
            lemma_step_cursor(self@, event);
        }
        match event {
            Event::Request(i) => {
                if self.phase.is_terminal() {
                    Action::Finished
                } else if !self.source_ended && i - self.next_index > self.buffer.capacity() {
                    self.target = i;
                    self.phase = Phase::CatchingUp;
                    Action::Discard
                } else {
                    self.target = i;
                    self.advance()
                }
            },
            Event::Discarded => {
                self.next_index = self.next_index + 1;
                if self.next_index >= self.target {
                    self.advance()
                } else {
                    Action::Discard
                }
            },
            Event::Decoded(decoded) => {
                let DecodedUnit { unit, outcome } = decoded;
                match outcome {
                    DecodeOutcome::Picture(picture) => {
                        let slot = ReorderSlot {
                            presentation_time: unit.presentation_time(),
                            picture,
                        };
                        let pushed = self.buffer.push(slot);
                        self.advance()
                    },
                    DecodeOutcome::NoPicture | DecodeOutcome::Failed => self.advance(),
                    DecodeOutcome::Fatal => {
                        self.phase = Phase::Failed;
                        Action::Finished
                    },
                }
            },
            Event::SourceEnded => {
                self.source_ended = true;
                self.advance()
            },
        }
    }

    /// Answers a request for the picture at index `i` from units that were
    /// decoded beforehand: `feed` stands for the source, yielding its units
    /// front first and ending when it is empty. Returns the picture, or
    /// `None` when the stream has none left for this request.
    ///
    /// The buffer stays within its capacity and the cursor never moves
    /// back; it moves forward whenever a picture is returned.
    #[verifier::loop_isolation(false)]
    pub fn request(&mut self, i: usize, feed: &mut VecDeque<DecodedUnit>) -> (picture: Option<
        DecodedPicture,
    >)
        requires
            old(self).wf(),
            old(self).accepts(Event::Request(i)),
        ensures
            final(self).wf(),
            final(self)@ == serve(old(self)@, i as nat, old(feed)@).0,
            picture == match serve(old(self)@, i as nat, old(feed)@).1 {
                Some(slot) => Some(slot.picture),
                None => None,
            },
            final(feed)@ == serve(old(self)@, i as nat, old(feed)@).2,
            final(self)@.buffer.len() <= final(self)@.capacity,
            final(self)@.next_index >= old(self)@.next_index,
            picture is Some ==> final(self)@.next_index > old(self)@.next_index,
    {
        proof {
            lemma_serve(self@, i as nat, feed@);
            lemma_serve_cursor(self@, i as nat, feed@);
        }
        let mut action = self.step(Event::Request(i));
        loop
            invariant
                self.wf(),
                self@.awaits(action),
                drive(self@, action, feed@) == serve(old(self)@, i as nat, old(feed)@),
            decreases feed@.len(),
        {
            let event = match action {
                Action::Emit(slot) => {
                    return Some(slot.picture);
                },
                Action::Finished => {
                    return None;
                },
                Action::Discard => match feed.pop_front() {
                    Some(_) => Event::Discarded,
                    None => Event::SourceEnded,
                },
                Action::Feed => match feed.pop_front() {
                    Some(decoded) => Event::Decoded(decoded),
                    None => Event::SourceEnded,
                },
            };
            if let Event::SourceEnded = event {
                let last = self.step(event);
                return match last {
                    Action::Emit(slot) => Some(slot.picture),
                    _ => None,
                };
            }
            action = self.step(event);
        }
    }
}

} // verus!
