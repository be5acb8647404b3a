//! What holds of the stream controller whatever the source and the decoder
//! do: the buffer stays within its capacity, the cursor only moves forward,
//! and an exhausted stream stays exhausted.

use crate::picture::DecodeOutcome;
use crate::reorder::{lemma_first_min_exists, without_first_min};
use crate::stream::{drive, serve, Action, ControllerState, DecodedUnit, Event, Phase};
use vstd::prelude::*;

verus! {

/// The number of units that `event` reports as dropped undecoded. Each
/// counts as one picture passed.
pub open spec fn passed_over(event: Event) -> int {
    match event {
        Event::Discarded => 1,
        _ => 0,
    }
}

/// The number of slots that `event` adds to the buffer.
pub open spec fn pushed(event: Event) -> int {
    match event {
        Event::Decoded(decoded) => if decoded.outcome is Picture {
            1
        } else {
            0
        },
        _ => 0,
    }
}

/// Filling and draining keep the buffer within its capacity, never take the
/// cursor back, and move it by one for each slot that leaves the buffer.
pub proof fn lemma_advance(state: ControllerState)
    requires
        state.buffer.len() <= state.capacity,
        state.next_index <= state.target,
    ensures
        ({
            let (after, action) = state.advance();
            &&& after.wf()
            &&& after.awaits(action)
            &&& action != Action::Discard
            &&& after.buffer.len() <= state.buffer.len()
            &&& after.next_index == state.next_index + (state.buffer.len() - after.buffer.len())
            &&& after.next_index <= state.target + 1
            &&& action is Emit ==> after.next_index == if state.next_index < state.target {
                state.target
            } else {
                state.next_index + 1
            }
            &&& !(action is Emit) ==> after.next_index == state.next_index || after.next_index
                < state.target
            &&& action is Finished && state.capacity > 0 ==> after.phase == Phase::Exhausted
            &&& after == ControllerState {
                buffer: after.buffer,
                next_index: after.next_index,
                phase: after.phase,
                ..state
            }
        }),
    decreases state.buffer.len(),
{
    if !state.source_ended && state.buffer.len() < state.capacity {
    } else if state.buffer.len() == 0 {
    } else {
        lemma_first_min_exists(state.buffer);
        let popped = ControllerState {
            buffer: without_first_min(state.buffer),
            next_index: state.next_index + 1,
            ..state
        };
        if popped.next_index >= popped.target {
        } else {
            lemma_advance(popped);
        }
    }
}

/// Bounded buffering, step by step: from a state the controller can be in,
/// an event that makes sense leads to a state it can be in, so the buffer
/// never holds more slots than its capacity. The state reached waits for
/// what the answering action asks for.
pub proof fn lemma_step_preserves_wf(state: ControllerState, event: Event)
    requires
        state.wf(),
        state.accepts(event),
    ensures
        state.step(event).0.wf(),
        state.step(event).0.buffer.len() <= state.capacity,
        state.step(event).0.capacity == state.capacity,
        state.step(event).0.awaits(state.step(event).1),
{
    lemma_step_cursor(state, event);
}

/// Monotonic cursor: a step never takes the cursor back. It moves by one for
/// each slot that leaves the buffer and by one for a unit dropped while
/// catching up, and by nothing else.
pub proof fn lemma_step_cursor(state: ControllerState, event: Event)
    requires
        state.wf(),
        state.accepts(event),
    ensures
        ({
            let (after, action) = state.step(event);
            let left = state.buffer.len() + pushed(event) - after.buffer.len();
            &&& after.wf()
            &&& after.awaits(action)
            &&& after.capacity == state.capacity
            &&& after.width == state.width
            &&& after.height == state.height
            &&& left >= 0
            &&& passed_over(event) >= 0
            &&& after.next_index >= state.next_index
            &&& after.next_index == state.next_index + passed_over(event) + left
            &&& after.target == match event {
                Event::Request(i) if !state.phase.is_terminal() => i as nat,
                _ => state.target,
            }
            &&& action is Finished && state.capacity > 0 ==> after.phase.is_terminal()
            &&& action is Emit ==> after.next_index > state.next_index
        }),
{
    match event {
        Event::Request(i) => {
            if state.phase.is_terminal() {
            } else if !state.source_ended && i - state.next_index > state.capacity {
            } else {
                lemma_advance(ControllerState { target: i as nat, ..state });
            }
        },
        Event::Discarded => {
            let s = ControllerState { next_index: state.next_index + 1, ..state };
            if s.next_index >= s.target {
                lemma_advance(s);
            }
        },
        Event::Decoded(decoded) => {
            match decoded.outcome {
                DecodeOutcome::Picture(picture) => {
                    lemma_advance(
                        ControllerState {
                            buffer: state.buffer.push(crate::stream::slot_of(decoded.unit, picture)),
                            ..state
                        },
                    );
                },
                DecodeOutcome::NoPicture | DecodeOutcome::Failed => {
                    lemma_advance(state);
                },
                DecodeOutcome::Fatal => {},
            }
        },
        Event::SourceEnded => {
            lemma_advance(
                ControllerState { source_ended: true, ..state },
            );
        },
    }
}

/// Once the source has ended, a step never asks for another unit.
pub proof fn lemma_settles_after_source_end(state: ControllerState)
    requires
        state.wf(),
        state.accepts(Event::SourceEnded),
    ensures
        state.source_ended().1 is Emit || state.source_ended().1 is Finished,
        state.source_ended().0.source_ended,
{
    let ended = ControllerState { source_ended: true, ..state };
    lemma_advance(ended);
}

/// Bounded buffering and monotonic cursor over a whole request: carrying
/// out an action and those that follow leaves the controller in a state it
/// can be in, at rest, with the cursor no further back than before. The
/// units not taken are what remains of the feed behind those taken.
pub proof fn lemma_drive(state: ControllerState, action: Action, feed: Seq<DecodedUnit>)
    requires
        state.wf(),
        state.awaits(action),
    ensures
        ({
            let (after, slot, rest) = drive(state, action, feed);
            &&& after.wf()
            &&& after.phase == Phase::Idle || after.phase.is_terminal()
            &&& after.capacity == state.capacity
            &&& after.target == state.target
            &&& after.next_index >= state.next_index
            &&& rest.len() <= feed.len()
            &&& rest == feed.skip(feed.len() - rest.len())
            &&& slot is None && state.capacity > 0 && !(action is Finished)
                ==> after.phase.is_terminal()
        }),
    decreases feed.len(),
{
    match action {
        Action::Emit(_) | Action::Finished => {},
        Action::Discard | Action::Feed => {
            if feed.len() == 0 {
                lemma_step_cursor(state, Event::SourceEnded);
                lemma_settles_after_source_end(state);
            } else {
                let event = if action == Action::Discard {
                    Event::Discarded
                } else {
                    Event::Decoded(feed[0])
                };
                lemma_step_cursor(state, event);
                let (next, then) = state.step(event);
                lemma_drive(next, then, feed.skip(1));
                let rest = drive(next, then, feed.skip(1)).2;
                assert(feed.skip(1).skip(feed.skip(1).len() - rest.len()) == feed.skip(
                    feed.len() - rest.len(),
                ));
            }
        },
    }
}

/// Bounded buffering and monotonic cursor for a request as a whole. A valid
/// request leaves the cursor at most one past its index, so the next higher
/// index is a valid request again. With a buffer that holds anything at
/// all, a request goes without a picture only when the stream is over.
pub proof fn lemma_serve(state: ControllerState, i: nat, feed: Seq<DecodedUnit>)
    requires
        state.wf(),
        state.phase.is_terminal() || state.next_index <= i,
    ensures
        ({
            let (after, slot, rest) = serve(state, i, feed);
            &&& after.wf()
            &&& after.phase == Phase::Idle || after.phase.is_terminal()
            &&& after.capacity == state.capacity
            &&& after.buffer.len() <= state.capacity
            &&& after.next_index >= state.next_index
            &&& after.phase.is_terminal() || after.next_index <= i + 1
            &&& slot is None && state.capacity > 0 ==> after.phase.is_terminal()
            &&& rest.len() <= feed.len()
            &&& rest == feed.skip(feed.len() - rest.len())
        }),
{
    if i <= usize::MAX {
        lemma_step_cursor(state, Event::Request(i as usize));
    } else {
        lemma_request(state, i);
    }
    let (next, action) = state.request(i);
    lemma_drive(next, action, feed);
}

/// A request for any index, however large, leads to a state the controller
/// can be in.
pub proof fn lemma_request(state: ControllerState, i: nat)
    requires
        state.wf(),
        state.phase.is_terminal() || state.next_index <= i,
    ensures
        state.request(i).0.wf(),
        state.request(i).0.awaits(state.request(i).1),
        state.request(i).0.capacity == state.capacity,
        state.request(i).0.next_index >= state.next_index,
        state.request(i).0.target == if state.phase.is_terminal() {
            state.target
        } else {
            i
        },
        state.request(i).1 is Finished && state.capacity > 0 ==> state.request(i).0.phase.is_terminal(),
{
    if state.phase.is_terminal() {
    } else if !state.source_ended && i - state.next_index > state.capacity {
    } else {
        lemma_advance(ControllerState { target: i, ..state });
    }
}

/// Exhaustion is final: once the source has ended and the buffer is empty,
/// a request has no picture, takes no unit and leaves the controller as it
/// was, however often it is made.
pub proof fn lemma_exhausted_is_final(state: ControllerState, i: nat, feed: Seq<DecodedUnit>)
    requires
        state.wf(),
        state.source_ended,
        state.buffer.len() == 0,
    ensures
        serve(state, i, feed) == (state, None::<crate::picture::ReorderSlot>, feed),
{
}

/// The number of units among `units` of which the decoder made a picture.
pub open spec fn pictures_among(units: Seq<DecodedUnit>) -> nat
    decreases units.len(),
{
    if units.len() == 0 {
        0
    } else {
        pictures_among(units.skip(1)) + if units[0].outcome is Picture {
            1nat
        } else {
            0nat
        }
    }
}

/// A request for index `i` makes the controller catch up: the stream lasts,
/// its source has not ended, and `i` lies more than a buffer's capacity
/// ahead.
pub open spec fn catches_up(state: ControllerState, i: nat) -> bool {
    !state.phase.is_terminal() && !state.source_ended && i - state.next_index > state.capacity
}

/// The number of units that a request for index `i` drops undecoded: none
/// unless it catches up, and then as many as `i` is ahead, or all that the
/// source still has if those are fewer.
pub open spec fn dropped(state: ControllerState, i: nat, feed: Seq<DecodedUnit>) -> nat {
    if catches_up(state, i) {
        if i - state.next_index <= feed.len() {
            (i - state.next_index) as nat
        } else {
            feed.len()
        }
    } else {
        0
    }
}

// The number of units that carrying out `action` drops undecoded.
spec fn dropped_from(state: ControllerState, action: Action, feed: Seq<DecodedUnit>) -> nat {
    if action == Action::Discard {
        if state.target - state.next_index <= feed.len() {
            (state.target - state.next_index) as nat
        } else {
            feed.len()
        }
    } else {
        0
    }
}

proof fn lemma_pictures_among_behind_first(feed: Seq<DecodedUnit>, taken: int)
    requires
        1 <= taken <= feed.len(),
    ensures
        pictures_among(feed.subrange(0, taken)) == pictures_among(
            feed.skip(1).subrange(0, taken - 1),
        ) + if feed[0].outcome is Picture {
            1nat
        } else {
            0nat
        },
{
    assert(feed.subrange(0, taken).skip(1) == feed.skip(1).subrange(0, taken - 1));
    assert(feed.subrange(0, taken)[0] == feed[0]);
}

proof fn lemma_drive_cursor(state: ControllerState, action: Action, feed: Seq<DecodedUnit>)
    requires
        state.wf(),
        state.awaits(action),
    ensures
        ({
            let (after, slot, rest) = drive(state, action, feed);
            let taken = feed.len() - rest.len();
            let gone = dropped_from(state, action, feed);
            &&& gone <= taken <= feed.len()
            &&& after.next_index == state.next_index + gone + (state.buffer.len() + pictures_among(
                feed.subrange(gone as int, taken),
            ) - after.buffer.len())
            &&& slot is Some && !(action is Emit) ==> after.next_index > state.next_index
            &&& slot is Some && action is Feed ==> after.next_index == if state.next_index
                < state.target {
                state.target
            } else {
                state.next_index + 1
            }
        }),
    decreases feed.len(),
{
    match action {
        Action::Emit(_) | Action::Finished => {
            assert(feed.subrange(0, 0).len() == 0);
        },
        Action::Discard | Action::Feed => {
            if feed.len() == 0 {
                lemma_advance(ControllerState { source_ended: true, ..state });
                assert(feed.subrange(0, 0).len() == 0);
            } else {
                let event = if action == Action::Discard {
                    Event::Discarded
                } else {
                    Event::Decoded(feed[0])
                };
                lemma_step_cursor(state, event);
                let (next, then) = state.step(event);
                let behind = feed.skip(1);
                lemma_drive(next, then, behind);
                lemma_drive_cursor(next, then, behind);
                let (after, slot, rest) = drive(next, then, behind);
                let taken = feed.len() - rest.len();
                let gone = dropped_from(state, action, feed);
                let gone_behind = dropped_from(next, then, behind);
                if action == Action::Discard {
                    let passed = ControllerState { next_index: state.next_index + 1, ..state };
                    if passed.next_index >= passed.target {
                        lemma_advance(passed);
                    }
                    assert(gone == gone_behind + 1);
                    assert(behind.subrange(gone_behind as int, taken - 1) == feed.subrange(
                        gone as int,
                        taken,
                    ));
                } else {
                    match feed[0].outcome {
                        DecodeOutcome::Picture(picture) => {
                            lemma_advance(
                                ControllerState {
                                    buffer: state.buffer.push(
                                        crate::stream::slot_of(feed[0].unit, picture),
                                    ),
                                    ..state
                                },
                            );
                        },
                        DecodeOutcome::NoPicture | DecodeOutcome::Failed => {
                            lemma_advance(state);
                        },
                        DecodeOutcome::Fatal => {},
                    }
                    assert(gone == 0 && gone_behind == 0);
                    lemma_pictures_among_behind_first(feed, taken);
                }
            }
        },
    }
}

/// The cursor over a whole request. It moves by one for each unit dropped
/// undecoded and by one for each picture that leaves the buffer, which are
/// those it held and those decoded for this request, less those it still
/// holds; a unit without a picture moves nothing. A request answered with a
/// picture moves the cursor forward; unless it had to catch up, it leaves
/// the cursor at the index asked for, or one past where it stood if that is
/// further.
pub proof fn lemma_serve_cursor(state: ControllerState, i: nat, feed: Seq<DecodedUnit>)
    requires
        state.wf(),
        state.phase.is_terminal() || state.next_index <= i,
    ensures
        ({
            let (after, slot, rest) = serve(state, i, feed);
            let taken = feed.len() - rest.len();
            let gone = dropped(state, i, feed);
            &&& gone <= taken <= feed.len()
            &&& after.next_index == state.next_index + gone + (state.buffer.len() + pictures_among(
                feed.subrange(gone as int, taken),
            ) - after.buffer.len())
            &&& slot is Some ==> after.next_index > state.next_index
            &&& slot is Some && !catches_up(state, i) ==> after.next_index == if state.next_index
                < i {
                i
            } else {
                state.next_index + 1
            }
        }),
{
    lemma_request(state, i);
    let (next, action) = state.request(i);
    lemma_drive(next, action, feed);
    lemma_drive_cursor(next, action, feed);
    if state.phase.is_terminal() {
    } else if catches_up(state, i) {
    } else {
        lemma_advance(ControllerState { target: i, ..state });
    }
}

} // verus!
