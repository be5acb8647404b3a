//! Presentation order: when no picture is overtaken by more pictures than
//! the buffer can hold back, and no two pictures share a presentation time,
//! the pictures that answer successive requests come in strictly increasing
//! presentation time.

use crate::invariants::lemma_step_cursor;
use crate::picture::{DecodeOutcome, ReorderSlot};
use crate::reorder::{first_min, lemma_first_min_exists, without_first_min};
use crate::stream::{answer, drive, serve, slot_of, Action, ControllerState, DecodedUnit, Event};
use vstd::prelude::*;

verus! {

/// Whether the decoder made a picture of this unit.
pub open spec fn has_picture(decoded: DecodedUnit) -> bool {
    decoded.outcome is Picture
}

/// The presentation time under which a picture of this unit is buffered.
pub open spec fn shown_at(decoded: DecodedUnit) -> int {
    decoded.unit.spec_presentation_time() as i64 as int
}

/// The number of pictures among `units` that are presented after time `t`.
pub open spec fn shown_after(units: Seq<DecodedUnit>, t: int) -> nat
    decreases units.len(),
{
    if units.len() == 0 {
        0
    } else {
        shown_after(units.skip(1), t) + if has_picture(units[0]) && shown_at(units[0]) > t {
            1nat
        } else {
            0nat
        }
    }
}

/// The number of slots among `slots` that are presented after time `t`.
pub open spec fn later_slots(slots: Seq<ReorderSlot>, t: int) -> nat
    decreases slots.len(),
{
    if slots.len() == 0 {
        0
    } else {
        later_slots(slots.drop_last(), t) + if slots.last().presentation_time > t {
            1nat
        } else {
            0nat
        }
    }
}

/// The reorder distance of the picture at position `q` of `feed`: the number
/// of pictures decoded before it that are presented after it.
pub open spec fn reorder_distance(feed: Seq<DecodedUnit>, q: int) -> nat {
    shown_after(feed.take(q), shown_at(feed[q]))
}

/// Every picture of `feed`, together with the pictures it overtakes, fits
/// into `capacity` slots.
pub open spec fn reorder_distance_below(feed: Seq<DecodedUnit>, capacity: nat) -> bool {
    forall|q: int|
        0 <= q < feed.len() && has_picture(#[trigger] feed[q]) ==> reorder_distance(feed, q)
            < capacity
}

/// No two pictures of `feed` share a presentation time.
pub open spec fn distinct_times(feed: Seq<DecodedUnit>) -> bool {
    forall|p: int, q: int|
        0 <= p < q < feed.len() && has_picture(#[trigger] feed[p]) && has_picture(
            #[trigger] feed[q],
        ) ==> shown_at(feed[p]) != shown_at(feed[q])
}

/// Time `t` lies after everything that has left the buffer so far, the last
/// of which left at `floor`.
pub open spec fn above(floor: Option<int>, t: int) -> bool {
    floor matches Some(f) ==> f < t
}

/// The answers to successive requests against one source.
pub open spec fn replay(state: ControllerState, feed: Seq<DecodedUnit>, requests: Seq<nat>) -> Seq<
    Option<ReorderSlot>,
>
    decreases requests.len(),
{
    if requests.len() == 0 {
        Seq::empty()
    } else {
        let (after, slot, rest) = serve(state, requests[0], feed);
        seq![slot] + replay(after, rest, requests.skip(1))
    }
}

// What the buffer and the units still to come have in common while pictures
// leave in order: their times differ pairwise and lie above the floor, and
// each picture to come, with the slots and earlier units it overtakes, fits
// into the buffer. An ended source has nothing to come.
spec fn in_order(state: ControllerState, rest: Seq<DecodedUnit>, floor: Option<int>) -> bool {
    let buffer = state.buffer;
    &&& buffer.len() <= state.capacity
    &&& state.source_ended ==> rest.len() == 0
    &&& forall|a: int, b: int|
        0 <= a < b < buffer.len() ==> (#[trigger] buffer[a]).presentation_time != (
        #[trigger] buffer[b]).presentation_time
    &&& forall|p: int, q: int|
        0 <= p < q < rest.len() && has_picture(#[trigger] rest[p]) && has_picture(
            #[trigger] rest[q],
        ) ==> shown_at(rest[p]) != shown_at(rest[q])
    &&& forall|a: int, q: int|
        0 <= a < buffer.len() && 0 <= q < rest.len() && has_picture(#[trigger] rest[q]) ==> (
        #[trigger] buffer[a]).presentation_time != shown_at(rest[q])
    &&& forall|a: int|
        0 <= a < buffer.len() ==> above(floor, (#[trigger] buffer[a]).presentation_time as int)
    &&& forall|q: int|
        0 <= q < rest.len() && has_picture(#[trigger] rest[q]) ==> above(floor, shown_at(rest[q]))
    &&& forall|q: int|
        0 <= q < rest.len() && has_picture(#[trigger] rest[q]) ==> later_slots(
            buffer,
            shown_at(rest[q]),
        ) + shown_after(rest.take(q), shown_at(rest[q])) < state.capacity
}

// The floor has not dropped, and an answer lies above the old floor and is
// the new one.
spec fn settled(floor: Option<int>, after: Option<int>, slot: Option<ReorderSlot>) -> bool {
    &&& floor matches Some(f) ==> after matches Some(g) && f <= g
    &&& slot matches Some(s) ==> after == Some(s.presentation_time as int) && above(
        floor,
        s.presentation_time as int,
    )
}

proof fn lemma_later_slots_push(slots: Seq<ReorderSlot>, slot: ReorderSlot, t: int)
    ensures
        later_slots(slots.push(slot), t) == later_slots(slots, t) + if slot.presentation_time > t {
            1nat
        } else {
            0nat
        },
{
    assert(slots.push(slot).drop_last() == slots);
}

proof fn lemma_later_slots_remove(slots: Seq<ReorderSlot>, k: int, t: int)
    requires
        0 <= k < slots.len(),
    ensures
        later_slots(slots.remove(k), t) <= later_slots(slots, t),
    decreases slots.len(),
{
    if k == slots.len() - 1 {
        assert(slots.remove(k) == slots.drop_last());
    } else {
        assert(slots.remove(k).drop_last() == slots.drop_last().remove(k));
        assert(slots.remove(k).last() == slots.last());
        lemma_later_slots_remove(slots.drop_last(), k, t);
    }
}

proof fn lemma_later_slots_all(slots: Seq<ReorderSlot>, t: int)
    requires
        forall|a: int| 0 <= a < slots.len() ==> (#[trigger] slots[a]).presentation_time > t,
    ensures
        later_slots(slots, t) == slots.len(),
    decreases slots.len(),
{
    if slots.len() > 0 {
        assert(slots.last() == slots[slots.len() - 1]);
        assert forall|a: int| 0 <= a < slots.drop_last().len() implies (
        #[trigger] slots.drop_last()[a]).presentation_time > t by {
            assert(slots.drop_last()[a] == slots[a]);
        }
        lemma_later_slots_all(slots.drop_last(), t);
    }
}

proof fn lemma_shown_after_behind_first(rest: Seq<DecodedUnit>, q: int, t: int)
    requires
        0 <= q < rest.len() - 1,
    ensures
        shown_after(rest.take(q + 1), t) == shown_after(rest.skip(1).take(q), t) + if has_picture(
            rest[0],
        ) && shown_at(rest[0]) > t {
            1nat
        } else {
            0nat
        },
{
    assert(rest.take(q + 1).skip(1) == rest.skip(1).take(q));
    assert(rest.take(q + 1)[0] == rest[0]);
}

// The first of the units to come is taken from the source and either
// buffered, when it holds a picture, or dropped.
proof fn lemma_take_first(
    state: ControllerState,
    rest: Seq<DecodedUnit>,
    floor: Option<int>,
    keep: bool,
)
    requires
        in_order(state, rest, floor),
        rest.len() > 0,
        keep ==> has_picture(rest[0]) && state.buffer.len() < state.capacity,
    ensures
        keep ==> in_order(
            ControllerState {
                buffer: state.buffer.push(slot_of(rest[0].unit, rest[0].outcome->Picture_0)),
                ..state
            },
            rest.skip(1),
            floor,
        ),
        !keep ==> in_order(state, rest.skip(1), floor),
{
    let behind = rest.skip(1);
    let slot = slot_of(rest[0].unit, rest[0].outcome->Picture_0);
    assert(slot.presentation_time as int == shown_at(rest[0]));
    let buffer = if keep {
        state.buffer.push(slot)
    } else {
        state.buffer
    };
    let next = ControllerState { buffer, ..state };
    assert forall|q: int| 0 <= q < behind.len() implies #[trigger] behind[q] == rest[q + 1] by {}
    assert forall|a: int, b: int| 0 <= a < b < buffer.len() implies (
    #[trigger] buffer[a]).presentation_time != (#[trigger] buffer[b]).presentation_time by {
        if b == state.buffer.len() {
            assert(buffer[a] == state.buffer[a]);
            assert(has_picture(rest[0]));
        }
    }
    assert forall|a: int, q: int|
        0 <= a < buffer.len() && 0 <= q < behind.len() && has_picture(
            #[trigger] behind[q],
        ) implies (#[trigger] buffer[a]).presentation_time != shown_at(behind[q]) by {
        assert(has_picture(rest[q + 1]));
        if a == state.buffer.len() {
            assert(has_picture(rest[0]));
        } else {
            assert(buffer[a] == state.buffer[a]);
        }
    }
    assert forall|a: int| 0 <= a < buffer.len() implies above(
        floor,
        (#[trigger] buffer[a]).presentation_time as int,
    ) by {
        if a == state.buffer.len() {
            assert(has_picture(rest[0]));
        } else {
            assert(buffer[a] == state.buffer[a]);
        }
    }
    assert forall|q: int| 0 <= q < behind.len() && has_picture(#[trigger] behind[q]) implies above(
        floor,
        shown_at(behind[q]),
    ) by {
        assert(has_picture(rest[q + 1]));
    }
    assert forall|q: int|
        0 <= q < behind.len() && has_picture(#[trigger] behind[q]) implies later_slots(
        buffer,
        shown_at(behind[q]),
    ) + shown_after(behind.take(q), shown_at(behind[q])) < state.capacity by {
        let t = shown_at(behind[q]);
        assert(has_picture(rest[q + 1]));
        lemma_shown_after_behind_first(rest, q, t);
        if keep {
            lemma_later_slots_push(state.buffer, slot, t);
        }
    }
    assert forall|p: int, q: int|
        0 <= p < q < behind.len() && has_picture(#[trigger] behind[p]) && has_picture(
            #[trigger] behind[q],
        ) implies shown_at(behind[p]) != shown_at(behind[q]) by {
        assert(has_picture(rest[p + 1]) && has_picture(rest[q + 1]));
    }
    assert(in_order(next, behind, floor));
}

// The slot with the smallest presentation time leaves a buffer that is full,
// or that nothing more will come to.
proof fn lemma_pop(state: ControllerState, rest: Seq<DecodedUnit>, floor: Option<int>)
    requires
        in_order(state, rest, floor),
        state.buffer.len() > 0,
        state.buffer.len() == state.capacity || rest.len() == 0,
    ensures
        above(floor, state.buffer[first_min(state.buffer)].presentation_time as int),
        in_order(
            ControllerState {
                buffer: without_first_min(state.buffer),
                next_index: state.next_index + 1,
                ..state
            },
            rest,
            Some(state.buffer[first_min(state.buffer)].presentation_time as int),
        ),
{
    let buffer = state.buffer;
    lemma_first_min_exists(buffer);
    let k = first_min(buffer);
    let least = buffer[k].presentation_time as int;
    let left = buffer.remove(k);
    let next = ControllerState { buffer: left, next_index: state.next_index + 1, ..state };
    assert forall|a: int| 0 <= a < left.len() implies #[trigger] left[a] == buffer[if a < k {
        a
    } else {
        a + 1
    }] by {}
    assert forall|a: int| 0 <= a < left.len() implies above(
        Some(least),
        (#[trigger] left[a]).presentation_time as int,
    ) by {
        let origin = if a < k {
            a
        } else {
            a + 1
        };
        assert(left[a] == buffer[origin]);
        assert(buffer[k].presentation_time <= buffer[origin].presentation_time);
        if origin < k {
            assert(buffer[origin].presentation_time != buffer[k].presentation_time);
        } else {
            assert(buffer[k].presentation_time != buffer[origin].presentation_time);
        }
    }
    assert forall|q: int| 0 <= q < rest.len() && has_picture(#[trigger] rest[q]) implies above(
        Some(least),
        shown_at(rest[q]),
    ) by {
        let t = shown_at(rest[q]);
        assert(buffer[k].presentation_time != t);
        if t < least {
            assert forall|a: int| 0 <= a < buffer.len() implies (
            #[trigger] buffer[a]).presentation_time > t by {
                assert(buffer[k].presentation_time <= buffer[a].presentation_time);
            }
            lemma_later_slots_all(buffer, t);
        }
    }
    assert forall|a: int, b: int| 0 <= a < b < left.len() implies (
    #[trigger] left[a]).presentation_time != (#[trigger] left[b]).presentation_time by {
        let from_a = if a < k {
            a
        } else {
            a + 1
        };
        let from_b = if b < k {
            b
        } else {
            b + 1
        };
        assert(left[a] == buffer[from_a] && left[b] == buffer[from_b]);
    }
    assert forall|a: int, q: int|
        0 <= a < left.len() && 0 <= q < rest.len() && has_picture(#[trigger] rest[q]) implies (
    #[trigger] left[a]).presentation_time != shown_at(rest[q]) by {
        let from_a = if a < k {
            a
        } else {
            a + 1
        };
        assert(left[a] == buffer[from_a]);
    }
    assert forall|q: int|
        0 <= q < rest.len() && has_picture(#[trigger] rest[q]) implies later_slots(
        left,
        shown_at(rest[q]),
    ) + shown_after(rest.take(q), shown_at(rest[q])) < state.capacity by {
        lemma_later_slots_remove(buffer, k, shown_at(rest[q]));
    }
    assert(above(floor, buffer[k].presentation_time as int));
    assert(in_order(next, rest, Some(least)));
}

// Filling and draining keep the order.
proof fn lemma_advance_in_order(
    state: ControllerState,
    rest: Seq<DecodedUnit>,
    floor: Option<int>,
) -> (after: Option<int>)
    requires
        in_order(state, rest, floor),
    ensures
        in_order(state.advance().0, rest, after),
        settled(floor, after, answer(state.advance().1)),
    decreases state.buffer.len(),
{
    if !state.source_ended && state.buffer.len() < state.capacity {
        floor
    } else if state.buffer.len() == 0 {
        floor
    } else {
        lemma_first_min_exists(state.buffer);
        lemma_pop(state, rest, floor);
        let slot = state.buffer[first_min(state.buffer)];
        let popped = ControllerState {
            buffer: without_first_min(state.buffer),
            next_index: state.next_index + 1,
            ..state
        };
        let least = Some(slot.presentation_time as int);
        if popped.next_index >= popped.target {
            least
        } else {
            let after = lemma_advance_in_order(popped, rest, least);
            after
        }
    }
}

// A request settles in order.
proof fn lemma_request_in_order(
    state: ControllerState,
    i: nat,
    rest: Seq<DecodedUnit>,
    floor: Option<int>,
) -> (after: Option<int>)
    requires
        in_order(state, rest, floor),
    ensures
        in_order(state.request(i).0, rest, after),
        settled(floor, after, answer(state.request(i).1)),
{
    if state.phase.is_terminal() {
        floor
    } else if !state.source_ended && i - state.next_index > state.capacity {
        floor
    } else {
        lemma_advance_in_order(ControllerState { target: i, ..state }, rest, floor)
    }
}

// Carrying out an action against the units to come keeps the order.
proof fn lemma_drive_in_order(
    state: ControllerState,
    action: Action,
    rest: Seq<DecodedUnit>,
    floor: Option<int>,
    now: Option<int>,
) -> (after: Option<int>)
    requires
        state.wf(),
        state.awaits(action),
        in_order(state, rest, now),
        settled(floor, now, answer(action)),
    ensures
        in_order(drive(state, action, rest).0, drive(state, action, rest).2, after),
        settled(floor, after, drive(state, action, rest).1),
    decreases rest.len(),
{
    match action {
        Action::Emit(_) | Action::Finished => now,
        Action::Discard | Action::Feed => {
            if rest.len() == 0 {
                let ended = ControllerState { source_ended: true, ..state };
                assert(in_order(ended, rest, now));
                lemma_advance_in_order(ended, rest, now)
            } else {
                let event = if action == Action::Discard {
                    Event::Discarded
                } else {
                    Event::Decoded(rest[0])
                };
                lemma_step_cursor(state, event);
                let (next, then) = state.step(event);
                let behind = rest.skip(1);
                let reached = if action == Action::Discard {
                    lemma_take_first(state, rest, now, false);
                    let passed = ControllerState { next_index: state.next_index + 1, ..state };
                    assert(in_order(passed, behind, now));
                    if passed.next_index >= passed.target {
                        lemma_advance_in_order(passed, behind, now)
                    } else {
                        now
                    }
                } else {
                    match rest[0].outcome {
                        DecodeOutcome::Picture(picture) => {
                            lemma_take_first(state, rest, now, true);
                            lemma_advance_in_order(
                                ControllerState {
                                    buffer: state.buffer.push(slot_of(rest[0].unit, picture)),
                                    ..state
                                },
                                behind,
                                now,
                            )
                        },
                        DecodeOutcome::NoPicture | DecodeOutcome::Failed => {
                            lemma_take_first(state, rest, now, false);
                            lemma_advance_in_order(state, behind, now)
                        },
                        DecodeOutcome::Fatal => {
                            lemma_take_first(state, rest, now, false);
                            let failed = ControllerState {
                                phase: crate::stream::Phase::Failed,
                                ..state
                            };
                            assert(in_order(failed, behind, now));
                            now
                        },
                    }
                };
                lemma_drive_in_order(next, then, behind, floor, reached)
            }
        },
    }
}

// Successive requests are answered above the floor and in order.
proof fn lemma_replay_in_order(
    state: ControllerState,
    rest: Seq<DecodedUnit>,
    requests: Seq<nat>,
    floor: Option<int>,
)
    requires
        state.wf(),
        state.phase == crate::stream::Phase::Idle || state.phase.is_terminal(),
        in_order(state, rest, floor),
        forall|j: int, k: int| 0 <= j < k < requests.len() ==> requests[j] < requests[k],
        requests.len() > 0 ==> state.phase.is_terminal() || state.next_index <= requests[0],
    ensures
        replay(state, rest, requests).len() == requests.len(),
        forall|k: int|
            0 <= k < requests.len() ==> (#[trigger] replay(state, rest, requests)[k] matches Some(
                slot,
            ) ==> above(floor, slot.presentation_time as int)),
        forall|a: int, b: int|
            0 <= a < b < requests.len() ==> (#[trigger] replay(state, rest, requests)[a] matches Some(
                first,
            ) ==> (#[trigger] replay(state, rest, requests)[b] matches Some(second)
                ==> first.presentation_time < second.presentation_time)),
    decreases requests.len(),
{
    if requests.len() > 0 {
        let i = requests[0];
        let (next, action) = state.request(i);
        crate::invariants::lemma_serve(state, i, rest);
        crate::invariants::lemma_request(state, i);
        let now = lemma_request_in_order(state, i, rest, floor);
        let after = lemma_drive_in_order(next, action, rest, floor, now);
        let (reached, slot, behind) = serve(state, i, rest);
        let later = requests.skip(1);
        assert forall|j: int, k: int| 0 <= j < k < later.len() implies later[j] < later[k] by {
            assert(later[j] == requests[j + 1] && later[k] == requests[k + 1]);
        }
        if later.len() > 0 {
            assert(later[0] == requests[1]);
        }
        lemma_replay_in_order(reached, behind, later, after);
        let answers = replay(state, rest, requests);
        let others = replay(reached, behind, later);
        assert(answers == seq![slot] + others);
        assert forall|k: int| 0 <= k < requests.len() implies (#[trigger] answers[k] matches Some(
            s,
        ) ==> above(floor, s.presentation_time as int)) by {
            if k > 0 {
                assert(answers[k] == others[k - 1]);
            }
        }
        assert forall|a: int, b: int| 0 <= a < b < requests.len() implies (
        #[trigger] answers[a] matches Some(first) ==> (#[trigger] answers[b] matches Some(second)
            ==> first.presentation_time < second.presentation_time)) by {
            assert(answers[b] == others[b - 1]);
            if a > 0 {
                assert(answers[a] == others[a - 1]);
            }
        }
    }
}

/// Order of presentation. A controller fresh from construction answers
/// requests for strictly increasing indices from a source whose pictures
/// have pairwise different presentation times, each fitting into the buffer
/// together with the pictures it overtakes. Then of any two requests that
/// are answered with a picture, the later one gets the later picture.
pub proof fn lemma_presentation_order(
    width: u32,
    height: u32,
    capacity: nat,
    feed: Seq<DecodedUnit>,
    requests: Seq<nat>,
    a: int,
    b: int,
)
    requires
        distinct_times(feed),
        reorder_distance_below(feed, capacity),
        forall|j: int, k: int| 0 <= j < k < requests.len() ==> requests[j] < requests[k],
        0 <= a < b < requests.len(),
    ensures
        ({
            let answers = replay(ControllerState::initial(width, height, capacity), feed, requests);
            &&& answers.len() == requests.len()
            &&& answers[a] matches Some(first) ==> (answers[b] matches Some(second)
                ==> first.presentation_time < second.presentation_time)
        }),
{
    let state = ControllerState::initial(width, height, capacity);
    assert forall|q: int| 0 <= q < feed.len() && has_picture(#[trigger] feed[q]) implies later_slots(
        state.buffer,
        shown_at(feed[q]),
    ) + shown_after(feed.take(q), shown_at(feed[q])) < state.capacity by {
        assert(reorder_distance(feed, q) < capacity);
    }
    assert(in_order(state, feed, None));
    lemma_replay_in_order(state, feed, requests, None);
}

} // verus!
