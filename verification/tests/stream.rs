use std::collections::VecDeque;

use vanilla_iced::picture::{CodedAccessUnit, DecodeOutcome, DecodedPicture, Plane, ReorderSlot};
use vanilla_iced::stream::{Action, DecodedUnit, Event, Phase, StreamController};

fn picture(tag: u8) -> DecodedPicture {
    let plane = |stride: usize| Plane { stride, width: 2, height: 2, data: vec![tag; 4] };
    DecodedPicture { y: plane(2), u: plane(1), v: plane(1) }
}

fn unit(decode_time: u64, rendering_offset: i32) -> CodedAccessUnit {
    CodedAccessUnit::new(decode_time, 1, rendering_offset, vec![decode_time as u8]).unwrap()
}

/// A unit that decodes to the picture tagged `tag`.
fn shown(decode_time: u64, rendering_offset: i32, tag: u8) -> DecodedUnit {
    DecodedUnit {
        unit: unit(decode_time, rendering_offset),
        outcome: DecodeOutcome::Picture(picture(tag)),
    }
}

fn silent(decode_time: u64, outcome: DecodeOutcome) -> DecodedUnit {
    DecodedUnit { unit: unit(decode_time, 0), outcome }
}

/// Units at decode times 0, 1, 2, ... whose pictures are shown at `times`;
/// the picture shown at time `t` is tagged `t`.
fn feed_shown_at(times: &[i64]) -> VecDeque<DecodedUnit> {
    times
        .iter()
        .enumerate()
        .map(|(k, &t)| shown(k as u64, (t - k as i64) as i32, t as u8))
        .collect()
}

fn tag(picture: &DecodedPicture) -> u8 {
    picture.y.data[0]
}

#[test]
fn new_controller_is_idle() {
    let controller = StreamController::new(640, 480);
    assert_eq!(controller.width(), 640);
    assert_eq!(controller.height(), 480);
    assert_eq!(controller.capacity(), 8);
    assert_eq!(controller.next_index(), 0);
    assert_eq!(controller.buffered(), 0);
    assert_eq!(controller.phase(), Phase::Idle);
    assert!(!controller.phase().is_terminal());
    let controller = StreamController::with_capacity(2, 3, 5);
    assert_eq!(controller.width(), 2);
    assert_eq!(controller.height(), 3);
    assert_eq!(controller.capacity(), 5);
}

#[test]
fn scrambled_input_comes_out_sorted() {
    let mut feed: VecDeque<DecodedUnit> = VecDeque::new();
    feed.push_back(shown(0, 2, 0));
    feed.push_back(shown(1, -1, 1));
    feed.push_back(shown(2, 1, 2));
    feed.push_back(shown(3, -1, 3));
    let mut controller = StreamController::with_capacity(16, 16, 4);
    let mut order = Vec::new();
    for i in 0..4 {
        let picture = controller.request(i, &mut feed).unwrap();
        order.push(tag(&picture));
        assert_eq!(controller.next_index(), i + 1);
    }
    // Presentation times 2, 0, 3, 2: by time, then by arrival.
    assert_eq!(order, vec![1, 0, 3, 2]);
    assert_eq!(controller.request(4, &mut feed), None);
    assert_eq!(controller.phase(), Phase::Exhausted);
}

#[test]
fn scrambled_input_matches_a_reference_sort() {
    let times = [4i64, 1, 0, 3, 2, 8, 5, 7, 6, 9, 12, 11, 10];
    let mut feed = feed_shown_at(&times);
    let mut controller = StreamController::with_capacity(16, 16, 4);
    let mut order = Vec::new();
    let mut i = 0;
    while let Some(picture) = controller.request(i, &mut feed) {
        order.push(tag(&picture) as i64);
        i += 1;
    }
    let mut sorted = times.to_vec();
    sorted.sort();
    assert_eq!(order, sorted);
    assert_eq!(controller.next_index(), times.len());
}

#[test]
fn catch_up_beyond_the_source_ends_the_stream() {
    let mut feed = feed_shown_at(&[0, 1, 2, 3, 4, 5, 6, 7, 8, 9, 10, 11, 12, 13, 14]);
    let mut controller = StreamController::with_capacity(16, 16, 8);
    // Twenty units are to be dropped, fifteen are there: fifteen are
    // dropped and counted, none is decoded.
    assert_eq!(controller.request(20, &mut feed), None);
    assert!(feed.is_empty());
    assert_eq!(controller.next_index(), 15);
    assert_eq!(controller.buffered(), 0);
    assert_eq!(controller.phase(), Phase::Exhausted);
    assert_eq!(controller.request(21, &mut feed), None);
    assert_eq!(controller.next_index(), 15);
}

#[test]
fn catch_up_drops_units_by_count() {
    let times: Vec<i64> = (0..30).collect();
    let mut feed = feed_shown_at(&times);
    let mut controller = StreamController::with_capacity(16, 16, 8);
    // Twenty units are dropped, the next eight fill the buffer, and the
    // earliest of those is handed out.
    let picture = controller.request(20, &mut feed).unwrap();
    assert_eq!(tag(&picture), 20);
    assert_eq!(controller.next_index(), 21);
    assert_eq!(controller.buffered(), 7);
    assert_eq!(feed.len(), 2);
    let picture = controller.request(21, &mut feed).unwrap();
    assert_eq!(tag(&picture), 21);
}

#[test]
fn a_request_within_reach_is_not_a_catch_up() {
    let times: Vec<i64> = (0..30).collect();
    let mut feed = feed_shown_at(&times);
    let mut controller = StreamController::with_capacity(16, 16, 8);
    // Eight ahead is within a buffer's worth: pictures are drained, not
    // dropped undecoded, until the cursor stands at the index asked for.
    let picture = controller.request(8, &mut feed).unwrap();
    assert_eq!(tag(&picture), 7);
    assert_eq!(controller.next_index(), 8);
    let picture = controller.request(8, &mut feed).unwrap();
    assert_eq!(tag(&picture), 8);
    assert_eq!(controller.next_index(), 9);
    // Nine ahead is not.
    let mut feed = feed_shown_at(&times);
    let mut controller = StreamController::with_capacity(16, 16, 8);
    let picture = controller.request(9, &mut feed).unwrap();
    assert_eq!(tag(&picture), 9);
    assert_eq!(controller.next_index(), 10);
}

#[test]
fn catch_up_leaves_buffered_pictures_in_place() {
    let times: Vec<i64> = (0..40).collect();
    let mut feed = feed_shown_at(&times);
    let mut controller = StreamController::with_capacity(16, 16, 4);
    let picture = controller.request(0, &mut feed).unwrap();
    assert_eq!(tag(&picture), 0);
    assert_eq!(controller.buffered(), 3);
    // Nine units are dropped; the pictures decoded before them still wait
    // in the buffer and come first.
    let picture = controller.request(10, &mut feed).unwrap();
    assert_eq!(tag(&picture), 1);
    assert_eq!(controller.next_index(), 11);
    assert_eq!(feed.len(), 40 - 4 - 9 - 1);
}

#[test]
fn warm_up_units_are_skipped() {
    let mut feed: VecDeque<DecodedUnit> = VecDeque::new();
    feed.push_back(silent(0, DecodeOutcome::NoPicture));
    feed.push_back(silent(1, DecodeOutcome::NoPicture));
    feed.push_back(shown(2, 0, 2));
    feed.push_back(shown(3, 0, 3));
    feed.push_back(shown(4, 0, 4));
    let mut controller = StreamController::new(16, 16);
    let picture = controller.request(0, &mut feed).unwrap();
    assert_eq!(tag(&picture), 2);
    assert_eq!(controller.next_index(), 1);
    assert_eq!(controller.buffered(), 2);
    let picture = controller.request(1, &mut feed).unwrap();
    assert_eq!(tag(&picture), 3);
    let picture = controller.request(2, &mut feed).unwrap();
    assert_eq!(tag(&picture), 4);
    assert_eq!(controller.phase(), Phase::Exhausted);
    assert_eq!(controller.request(3, &mut feed), None);
}

#[test]
fn picture_is_timed_by_the_unit_that_produced_it() {
    let mut feed: VecDeque<DecodedUnit> = VecDeque::new();
    feed.push_back(shown(10, 5, 0));
    feed.push_back(silent(11, DecodeOutcome::NoPicture));
    feed.push_back(shown(12, -4, 2));
    let mut controller = StreamController::with_capacity(16, 16, 2);
    // Shown at 15 and at 8: the later unit's picture comes first.
    let picture = controller.request(0, &mut feed).unwrap();
    assert_eq!(tag(&picture), 2);
    let picture = controller.request(1, &mut feed).unwrap();
    assert_eq!(tag(&picture), 0);
}

#[test]
fn failed_units_are_skipped() {
    let mut feed: VecDeque<DecodedUnit> = VecDeque::new();
    feed.push_back(shown(0, 0, 0));
    feed.push_back(silent(1, DecodeOutcome::Failed));
    feed.push_back(shown(2, 0, 2));
    let mut controller = StreamController::with_capacity(16, 16, 2);
    assert_eq!(tag(&controller.request(0, &mut feed).unwrap()), 0);
    assert_eq!(tag(&controller.request(1, &mut feed).unwrap()), 2);
    assert_eq!(controller.request(2, &mut feed), None);
    assert_eq!(controller.phase(), Phase::Exhausted);
}

#[test]
fn fatal_fault_ends_the_stream() {
    let mut feed: VecDeque<DecodedUnit> = VecDeque::new();
    feed.push_back(shown(0, 0, 0));
    feed.push_back(silent(1, DecodeOutcome::Fatal));
    feed.push_back(shown(2, 0, 2));
    let mut controller = StreamController::with_capacity(16, 16, 2);
    assert_eq!(controller.request(0, &mut feed), None);
    assert_eq!(controller.phase(), Phase::Failed);
    assert!(controller.phase().is_terminal());
    assert_eq!(feed.len(), 1);
    assert_eq!(controller.request(1, &mut feed), None);
    assert_eq!(controller.request(0, &mut feed), None);
    assert_eq!(feed.len(), 1);
    assert_eq!(controller.next_index(), 0);
}

#[test]
fn exhausted_stream_stays_exhausted() {
    let mut feed = feed_shown_at(&[1, 0]);
    let mut controller = StreamController::with_capacity(16, 16, 8);
    assert_eq!(tag(&controller.request(0, &mut feed).unwrap()), 0);
    assert_eq!(tag(&controller.request(1, &mut feed).unwrap()), 1);
    assert_eq!(controller.phase(), Phase::Exhausted);
    for i in [2usize, 3, 100, 0, usize::MAX] {
        assert_eq!(controller.request(i, &mut feed), None);
        assert_eq!(controller.next_index(), 2);
        assert_eq!(controller.buffered(), 0);
        assert_eq!(controller.phase(), Phase::Exhausted);
    }
    // Units that turn up after the end are not taken.
    feed.push_back(shown(9, 0, 9));
    assert_eq!(controller.request(2, &mut feed), None);
    assert_eq!(feed.len(), 1);
}

#[test]
fn empty_source_has_no_picture() {
    let mut feed: VecDeque<DecodedUnit> = VecDeque::new();
    let mut controller = StreamController::new(16, 16);
    assert_eq!(controller.request(0, &mut feed), None);
    assert_eq!(controller.phase(), Phase::Exhausted);
    assert_eq!(controller.next_index(), 0);
}

#[test]
fn buffer_drains_below_capacity_at_the_end() {
    let mut feed = feed_shown_at(&[2, 1, 0]);
    let mut controller = StreamController::with_capacity(16, 16, 8);
    let mut order = Vec::new();
    let mut i = 0;
    while let Some(picture) = controller.request(i, &mut feed) {
        assert!(controller.buffered() <= 8);
        order.push(tag(&picture));
        i += 1;
    }
    assert_eq!(order, vec![0, 1, 2]);
}

#[test]
fn cursor_moves_by_one_per_picture() {
    let times: Vec<i64> = (0..12).collect();
    let mut feed = feed_shown_at(&times);
    let mut controller = StreamController::with_capacity(16, 16, 3);
    for i in 0..12 {
        assert_eq!(controller.next_index(), i);
        assert!(controller.request(i, &mut feed).is_some());
        assert!(controller.buffered() <= 3);
    }
    assert_eq!(controller.next_index(), 12);
}

#[test]
fn buffer_without_room_never_yields() {
    let mut feed = feed_shown_at(&[0, 1, 2]);
    let mut controller = StreamController::with_capacity(16, 16, 0);
    assert_eq!(controller.request(0, &mut feed), None);
    assert_eq!(controller.phase(), Phase::Idle);
    assert_eq!(feed.len(), 3);
    assert_eq!(controller.next_index(), 0);
}

#[test]
fn steps_ask_for_what_comes_next() {
    let mut controller = StreamController::with_capacity(16, 16, 2);
    assert_eq!(controller.step(Event::Request(0)), Action::Feed);
    assert_eq!(controller.phase(), Phase::Filling);
    assert_eq!(controller.step(Event::Decoded(shown(0, 3, 0))), Action::Feed);
    assert_eq!(controller.buffered(), 1);
    assert_eq!(controller.step(Event::Decoded(silent(1, DecodeOutcome::NoPicture))), Action::Feed);
    assert_eq!(controller.buffered(), 1);
    assert_eq!(
        controller.step(Event::Decoded(shown(2, -1, 2))),
        Action::Emit(ReorderSlot { presentation_time: 1, picture: picture(2) })
    );
    assert_eq!(controller.phase(), Phase::Idle);
    assert_eq!(controller.next_index(), 1);
    assert_eq!(controller.step(Event::Request(1)), Action::Feed);
    assert_eq!(
        controller.step(Event::SourceEnded),
        Action::Emit(ReorderSlot { presentation_time: 3, picture: picture(0) })
    );
    assert_eq!(controller.phase(), Phase::Exhausted);
    assert_eq!(controller.step(Event::Request(2)), Action::Finished);
}

#[test]
fn steps_count_dropped_units() {
    let mut controller = StreamController::with_capacity(16, 16, 2);
    assert_eq!(controller.step(Event::Request(3)), Action::Discard);
    assert_eq!(controller.phase(), Phase::CatchingUp);
    assert_eq!(controller.step(Event::Discarded), Action::Discard);
    assert_eq!(controller.next_index(), 1);
    assert_eq!(controller.step(Event::Discarded), Action::Discard);
    assert_eq!(controller.step(Event::Discarded), Action::Feed);
    assert_eq!(controller.next_index(), 3);
    assert_eq!(controller.phase(), Phase::Filling);
    assert_eq!(controller.step(Event::Decoded(shown(3, 0, 3))), Action::Feed);
    assert_eq!(
        controller.step(Event::Decoded(shown(4, 0, 4))),
        Action::Emit(ReorderSlot { presentation_time: 3, picture: picture(3) })
    );
    assert_eq!(controller.next_index(), 4);
}

#[test]
fn source_end_while_catching_up_counts_only_dropped_units() {
    let mut controller = StreamController::with_capacity(16, 16, 2);
    assert_eq!(controller.step(Event::Request(0)), Action::Feed);
    assert_eq!(controller.step(Event::Decoded(shown(0, 0, 0))), Action::Feed);
    assert_eq!(
        controller.step(Event::Decoded(shown(1, 0, 1))),
        Action::Emit(ReorderSlot { presentation_time: 0, picture: picture(0) })
    );
    assert_eq!(controller.step(Event::Request(10)), Action::Discard);
    assert_eq!(controller.step(Event::Discarded), Action::Discard);
    assert_eq!(controller.next_index(), 2);
    // The source ends with eight units still to drop. They do not count:
    // the picture that was waiting is the third, short of the tenth, so it
    // is dropped and the request goes without a picture.
    assert_eq!(controller.step(Event::SourceEnded), Action::Finished);
    assert_eq!(controller.next_index(), 3);
    assert_eq!(controller.buffered(), 0);
    assert_eq!(controller.phase(), Phase::Exhausted);
}

#[test]
fn far_request_after_the_source_ended_drains_the_buffer() {
    let mut feed = feed_shown_at(&[0, 1, 2]);
    let mut controller = StreamController::with_capacity(16, 16, 3);
    assert_eq!(tag(&controller.request(0, &mut feed).unwrap()), 0);
    assert_eq!(tag(&controller.request(1, &mut feed).unwrap()), 1);
    assert_eq!(controller.next_index(), 2);
    assert_eq!(controller.buffered(), 1);
    assert_eq!(controller.phase(), Phase::Idle);
    // Nothing is left to drop. The one picture that waits is the third, not
    // the fiftieth: it leaves unseen.
    assert_eq!(controller.request(50, &mut feed), None);
    assert_eq!(controller.next_index(), 3);
    assert_eq!(controller.buffered(), 0);
    assert_eq!(controller.phase(), Phase::Exhausted);
}

#[test]
fn source_end_within_reach_of_the_target_still_answers() {
    let mut controller = StreamController::with_capacity(16, 16, 2);
    assert_eq!(controller.step(Event::Request(0)), Action::Feed);
    assert_eq!(controller.step(Event::Decoded(shown(0, 0, 0))), Action::Feed);
    assert_eq!(
        controller.step(Event::Decoded(shown(1, 0, 1))),
        Action::Emit(ReorderSlot { presentation_time: 0, picture: picture(0) })
    );
    assert_eq!(controller.step(Event::Request(4)), Action::Discard);
    assert_eq!(controller.step(Event::Discarded), Action::Discard);
    assert_eq!(controller.step(Event::Discarded), Action::Discard);
    assert_eq!(controller.next_index(), 3);
    // One unit short of the target the source ends; the waiting picture
    // brings the cursor to it.
    assert_eq!(
        controller.step(Event::SourceEnded),
        Action::Emit(ReorderSlot { presentation_time: 1, picture: picture(1) })
    );
    assert_eq!(controller.next_index(), 4);
    assert_eq!(controller.phase(), Phase::Exhausted);
}

#[test]
fn catch_up_after_the_source_ended_pulls_nothing() {
    let mut controller = StreamController::with_capacity(16, 16, 2);
    assert_eq!(controller.step(Event::Request(0)), Action::Feed);
    assert_eq!(controller.step(Event::Decoded(shown(0, 0, 0))), Action::Feed);
    assert_eq!(controller.step(Event::Decoded(shown(1, 0, 1))), Action::Emit(ReorderSlot {
        presentation_time: 0,
        picture: picture(0),
    }));
    assert_eq!(controller.step(Event::Request(1)), Action::Feed);
    assert_eq!(controller.step(Event::Decoded(shown(2, 0, 2))), Action::Emit(ReorderSlot {
        presentation_time: 1,
        picture: picture(1),
    }));
    assert_eq!(controller.step(Event::Request(2)), Action::Feed);
    assert_eq!(controller.step(Event::SourceEnded), Action::Emit(ReorderSlot {
        presentation_time: 2,
        picture: picture(2),
    }));
    assert_eq!(controller.phase(), Phase::Exhausted);
    assert_eq!(controller.step(Event::Request(50)), Action::Finished);
    assert_eq!(controller.next_index(), 3);
}

#[test]
fn a_new_request_may_replace_one_under_way() {
    let mut controller = StreamController::with_capacity(16, 16, 2);
    assert_eq!(controller.step(Event::Request(5)), Action::Discard);
    assert_eq!(controller.step(Event::Discarded), Action::Discard);
    assert_eq!(controller.step(Event::Request(2)), Action::Feed);
    assert_eq!(controller.next_index(), 1);
    assert_eq!(controller.phase(), Phase::Filling);
    assert_eq!(controller.step(Event::Decoded(shown(1, 0, 1))), Action::Feed);
    // The second picture fills the buffer; the earlier one leaves, and with
    // it the cursor reaches the index asked for.
    assert_eq!(
        controller.step(Event::Decoded(shown(2, 0, 2))),
        Action::Emit(ReorderSlot { presentation_time: 1, picture: picture(1) })
    );
    assert_eq!(controller.buffered(), 1);
    assert_eq!(controller.next_index(), 2);
}

#[test]
fn pictures_dropped_on_the_way_to_a_target_are_gone() {
    let times: Vec<i64> = (0..10).collect();
    let mut feed = feed_shown_at(&times);
    let mut controller = StreamController::with_capacity(16, 16, 4);
    let picture = controller.request(3, &mut feed).unwrap();
    assert_eq!(tag(&picture), 2);
    assert_eq!(controller.next_index(), 3);
    let picture = controller.request(3, &mut feed).unwrap();
    assert_eq!(tag(&picture), 3);
}

#[test]
fn reorder_beyond_the_buffer_breaks_the_order() {
    // The picture shown at 1 is overtaken by two pictures and the buffer
    // holds two: it comes too late.
    let mut feed = feed_shown_at(&[5, 6, 1]);
    let mut controller = StreamController::with_capacity(16, 16, 2);
    let mut order = Vec::new();
    let mut i = 0;
    while let Some(picture) = controller.request(i, &mut feed) {
        order.push(tag(&picture));
        i += 1;
    }
    assert_eq!(order, vec![5, 1, 6]);
    // With room for three it is in time.
    let mut feed = feed_shown_at(&[5, 6, 1]);
    let mut controller = StreamController::with_capacity(16, 16, 3);
    let mut order = Vec::new();
    let mut i = 0;
    while let Some(picture) = controller.request(i, &mut feed) {
        order.push(tag(&picture));
        i += 1;
    }
    assert_eq!(order, vec![1, 5, 6]);
}
