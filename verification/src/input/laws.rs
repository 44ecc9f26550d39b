//! What holds of the gesture recognizer on every input, stated over its
//! transition function `step`.

use vstd::prelude::*;

use crate::input::geometry::{
    delta_between, dist, dist_sq, dot, mean_delta, midpoint, sum_len_sq, Point,
};
use crate::input::gesture::{
    beyond, completes_round, fresh_track, is_tap, is_unknown, moving_together, rebased,
    spread_changed, step, travel, two_finger_moved, Gesture, GestureConfig, Track, Waiting,
};
use crate::input::intent::InputIntent;
use crate::input::touch::{TouchPhase, TouchPoint};

verus! {

/// The state and the intents after a run of samples, fed one after the other.
pub open spec fn run(config: GestureConfig, gesture: Gesture, samples: Seq<TouchPoint>) -> (
    Gesture,
    Seq<InputIntent>,
)
    decreases samples.len(),
{
    if samples.len() == 0 {
        (gesture, Seq::empty())
    } else {
        let before = run(config, gesture, samples.drop_last());
        let last = step(config, before.0, samples.last());
        (last.0, before.1 + last.1)
    }
}

/// The sum of the drag deltas among the intents.
pub open spec fn drag_total(intents: Seq<InputIntent>) -> (int, int)
    decreases intents.len(),
{
    if intents.len() == 0 {
        (0, 0)
    } else {
        let before = drag_total(intents.drop_last());
        match intents.last() {
            InputIntent::DragDelta { delta } => (before.0 + delta.dx, before.1 + delta.dy),
            _ => before,
        }
    }
}

/// Whether some intent is a click.
pub open spec fn has_click(intents: Seq<InputIntent>) -> bool {
    exists|i: int| 0 <= i < intents.len() && (#[trigger] intents[i]) is Click
}

/// A tap clicks once: a finger that begins on an idle machine and is lifted
/// within the tap window, without having strayed beyond the movement
/// threshold, yields exactly one click, at the place where it began, and
/// returns the machine to idle.
pub proof fn lemma_tap_yields_one_click(config: GestureConfig, down: TouchPoint, up: TouchPoint)
    requires
        down.phase == TouchPhase::Began,
        down.pressure is None,
        up.phase == TouchPhase::Ended,
        up.id == down.id,
        !beyond(down.position, up.position, config.move_threshold),
        down.timestamp <= up.timestamp,
        up.timestamp - down.timestamp <= config.tap_window_ms,
    ensures
        run(config, Gesture::Idle, seq![down, up]) == (
            Gesture::Idle,
            seq![InputIntent::Click { position: down.position }],
        ),
{
    let samples = seq![down, up];
    assert(samples.drop_last() =~= seq![down]);
    assert(seq![down].drop_last() =~= Seq::<TouchPoint>::empty());
    reveal_with_fuel(run, 3);
    let first = step(config, Gesture::Idle, down);
    assert(first.0 == Gesture::TrackingSingle {
        track: fresh_track(down),
        began_at: down.timestamp,
    });
    assert(first.1 =~= Seq::<InputIntent>::empty());
    assert(is_tap(config, fresh_track(down), down.timestamp, up));
    let second = step(config, first.0, up);
    assert(second.0 == Gesture::Idle);
    assert(Seq::<InputIntent>::empty() + first.1 + second.1 =~= seq![
        InputIntent::Click { position: down.position },
    ]);
}

/// A drag does not click: a finger that begins on an idle machine, moves
/// beyond the movement threshold and is lifted yields drag deltas that sum
/// to the whole displacement, no click, and returns the machine to idle.
pub proof fn lemma_drag_yields_displacement(
    config: GestureConfig,
    down: TouchPoint,
    moved: TouchPoint,
    up: TouchPoint,
)
    requires
        down.phase == TouchPhase::Began,
        down.pressure is None,
        moved.phase == TouchPhase::Moved,
        moved.id == down.id,
        up.phase == TouchPhase::Ended,
        up.id == down.id,
        beyond(down.position, moved.position, config.move_threshold),
    ensures
        ({
            let end = run(config, Gesture::Idle, seq![down, moved, up]);
            &&& end.0 == Gesture::Idle
            &&& end.1 == seq![
                InputIntent::DragDelta { delta: delta_between(down.position, moved.position) },
            ]
            &&& drag_total(end.1) == (
                moved.position.x - down.position.x,
                moved.position.y - down.position.y,
            )
            &&& !has_click(end.1)
        }),
{
    let samples = seq![down, moved, up];
    assert(samples.drop_last() =~= seq![down, moved]);
    assert(seq![down, moved].drop_last() =~= seq![down]);
    assert(seq![down].drop_last() =~= Seq::<TouchPoint>::empty());
    reveal_with_fuel(run, 4);
    let first = step(config, Gesture::Idle, down);
    assert(first.1 =~= Seq::<InputIntent>::empty());
    let second = step(config, first.0, moved);
    assert(moved.position != down.position) by {
        if moved.position == down.position {
            assert((down.position.x - moved.position.x) * (down.position.x - moved.position.x)
                == 0) by (nonlinear_arith)
                requires
                    down.position.x - moved.position.x == 0,
            ;
            assert((down.position.y - moved.position.y) * (down.position.y - moved.position.y)
                == 0) by (nonlinear_arith)
                requires
                    down.position.y - moved.position.y == 0,
            ;
            assert(config.move_threshold * config.move_threshold >= 0) by (nonlinear_arith);
        }
    }
    let drag = InputIntent::DragDelta { delta: delta_between(down.position, moved.position) };
    assert(second.1 =~= seq![drag]);
    let third = step(config, second.0, up);
    assert(third.0 == Gesture::Idle);
    assert(third.1 =~= Seq::<InputIntent>::empty());
    let all = Seq::<InputIntent>::empty() + first.1 + second.1 + third.1;
    assert(all =~= seq![drag]);
    assert(seq![drag].drop_last() =~= Seq::<InputIntent>::empty());
    reveal_with_fuel(drag_total, 2);
}

/// While a finger drags, the deltas it yields add up: after any run of
/// moves of the dragging finger the drag deltas sum to the displacement
/// from where the run began to where the finger is.
pub proof fn lemma_drag_deltas_sum(config: GestureConfig, track: Track, moves: Seq<TouchPoint>)
    requires
        track.anchor == track.pos,
        forall|i: int|
            0 <= i < moves.len() ==> (#[trigger] moves[i]).phase == TouchPhase::Moved
                && moves[i].id == track.id,
    ensures
        ({
            let end = run(config, Gesture::TrackingDrag { track }, moves);
            &&& end.0 matches Gesture::TrackingDrag { track: last }
            &&& last.id == track.id
            &&& last.anchor == last.pos
            &&& moves.len() > 0 ==> last.pos == moves.last().position
            &&& drag_total(end.1) == (last.pos.x - track.pos.x, last.pos.y - track.pos.y)
        }),
    decreases moves.len(),
{
    if moves.len() == 0 {
    } else {
        let head = moves.drop_last();
        lemma_drag_deltas_sum(config, track, head);
        let before = run(config, Gesture::TrackingDrag { track }, head);
        let last = step(config, before.0, moves.last());
        lemma_drag_total_concat(before.1, last.1);
        if last.1.len() > 0 {
            assert(last.1.drop_last() =~= Seq::<InputIntent>::empty());
            reveal_with_fuel(drag_total, 2);
        }
    }
}

/// The drag total of two runs of intents is the sum of their drag totals.
pub proof fn lemma_drag_total_concat(a: Seq<InputIntent>, b: Seq<InputIntent>)
    ensures
        drag_total(a + b) == (
            drag_total(a).0 + drag_total(b).0,
            drag_total(a).1 + drag_total(b).1,
        ),
    decreases b.len(),
{
    if b.len() == 0 {
        assert(a + b =~= a);
    } else {
        lemma_drag_total_concat(a, b.drop_last());
        assert((a + b).drop_last() =~= a + b.drop_last());
        assert((a + b).last() == b.last());
    }
}

/// The distance between the anchors of the two fingers that are down.
pub open spec fn zoom_base(gesture: Gesture) -> nat {
    match gesture {
        Gesture::TrackingTwoFinger { first, second, .. } => dist(first.anchor, second.anchor),
        Gesture::TrackingScroll { first, second } => dist(first.anchor, second.anchor),
        Gesture::TrackingPinch { first, second } => dist(first.anchor, second.anchor),
        _ => 0,
    }
}

/// A zoom carries the ratio of the distances: whenever a step yields a zoom,
/// it is the only intent of that step, the machine had two fingers down,
/// the new distance is the distance between the two fingers after the
/// sample, the old distance is the distance between their anchors and is
/// not zero, the two differ, and the centre lies halfway between the
/// fingers.
pub proof fn lemma_zoom_is_distance_ratio(
    config: GestureConfig,
    gesture: Gesture,
    sample: TouchPoint,
)
    requires
        step(config, gesture, sample).1.len() > 0,
        step(config, gesture, sample).1[0] is ZoomDelta,
    ensures
        ({
            let next = step(config, gesture, sample);
            &&& next.1.len() == 1
            &&& next.0 matches Gesture::TrackingPinch { first, second }
            &&& next.1[0] matches InputIntent::ZoomDelta { new_distance, old_distance, center }
            &&& new_distance == dist(first.pos, second.pos)
            &&& old_distance > 0
            &&& new_distance > 0
            &&& new_distance != old_distance
            &&& center == midpoint(first.pos, second.pos)
            &&& old_distance == zoom_base(gesture)
        }),
{
    lemma_dist_fits();
}

/// The distance between two positions fits 64 bits.
proof fn lemma_dist_fits()
    ensures
        forall|a: Point, b: Point| #[trigger] dist(a, b) <= u64::MAX,
{
    assert forall|a: Point, b: Point| #[trigger] dist(a, b) <= u64::MAX by {
        crate::input::geometry::lemma_dist_bounded(a, b);
    }
}

/// A sample of an unknown touch is ignored: a move, a lift or a
/// cancellation of an identity that is not active leaves the state, and
/// with it the set of active touches, as it was, and yields nothing.
pub proof fn lemma_unknown_touch_is_ignored(
    config: GestureConfig,
    gesture: Gesture,
    sample: TouchPoint,
)
    requires
        sample.phase != TouchPhase::Began,
        !gesture.tracks(sample.id),
    ensures
        is_unknown(gesture, sample),
        step(config, gesture, sample).0 == gesture,
        step(config, gesture, sample).0.active_ids() == gesture.active_ids(),
        step(config, gesture, sample).1 == Seq::<InputIntent>::empty(),
{
}

/// Cancellation is final: the cancellation of an active touch returns the
/// machine to idle from any state, releases every touch and yields nothing.
pub proof fn lemma_cancel_returns_to_idle(
    config: GestureConfig,
    gesture: Gesture,
    sample: TouchPoint,
)
    requires
        sample.phase == TouchPhase::Cancelled,
        gesture.tracks(sample.id),
    ensures
        step(config, gesture, sample).0 == Gesture::Idle,
        step(config, gesture, sample).0.active_ids() == Set::<u64>::empty(),
        step(config, gesture, sample).1 == Seq::<InputIntent>::empty(),
{
    assert(Gesture::Idle.active_ids() =~= Set::<u64>::empty());
}

/// Every step keeps the active touches apart and yields at most one intent;
/// nothing is yielded below the thresholds, that is, while the machine
/// stays a candidate.
pub proof fn lemma_step_keeps_wf(config: GestureConfig, gesture: Gesture, sample: TouchPoint)
    requires
        gesture.wf(),
    ensures
        step(config, gesture, sample).0.wf(),
        step(config, gesture, sample).1.len() <= 1,
        step(config, gesture, sample).0 is TrackingSingle ==> step(config, gesture, sample).1.len()
            == 0,
        step(config, gesture, sample).0 is TrackingTwoFinger ==> step(
            config,
            gesture,
            sample,
        ).1.len() == 0,
{
}

/// Lifting the last finger ends the gesture: when the only active touch is
/// lifted the machine is idle again.
pub proof fn lemma_last_lift_returns_to_idle(
    config: GestureConfig,
    gesture: Gesture,
    sample: TouchPoint,
)
    requires
        sample.phase == TouchPhase::Ended,
        gesture.tracks(sample.id),
        gesture is TrackingSingle || gesture is TrackingDrag || gesture is TrackingStylus,
    ensures
        step(config, gesture, sample).0 == Gesture::Idle,
{
}

/// The pair of tracks after both touches were sampled, the first at `p`
/// and the second at `q`, and the pair took these places as its anchors.
pub open spec fn pair_at(first: Track, second: Track, p: Point, q: Point) -> (Track, Track) {
    (Track { id: first.id, anchor: p, pos: p }, Track { id: second.id, anchor: q, pos: q })
}

/// Two fingers that move together scroll, in whichever order their samples
/// arrive: where two uncommitted fingers are each sampled once, both
/// displaced by the same amount, which is more than the movement threshold,
/// the first of the two samples yields nothing, the second commits the pair
/// to a scroll and yields exactly one `ScrollDelta` of that displacement.
/// No zoom is yielded, however far the first sample alone changes the
/// distance between the fingers.
pub proof fn lemma_parallel_moves_scroll(
    config: GestureConfig,
    first: Track,
    second: Track,
    to_first: TouchPoint,
    to_second: TouchPoint,
)
    requires
        first.id != second.id,
        first.anchor == first.pos,
        second.anchor == second.pos,
        to_first.phase == TouchPhase::Moved,
        to_second.phase == TouchPhase::Moved,
        to_first.id == first.id,
        to_second.id == second.id,
        to_first.position.x - first.pos.x == to_second.position.x - second.pos.x,
        to_first.position.y - first.pos.y == to_second.position.y - second.pos.y,
        beyond(first.pos, to_first.position, config.move_threshold),
    ensures
        ({
            let start = Gesture::TrackingTwoFinger { first, second, waiting: Waiting::ForBoth };
            let pair = pair_at(first, second, to_first.position, to_second.position);
            let end = (
                Gesture::TrackingScroll { first: pair.0, second: pair.1 },
                seq![
                    InputIntent::ScrollDelta {
                        delta: delta_between(first.pos, to_first.position),
                    },
                ],
            );
            &&& step(config, start, to_first).1 == Seq::<InputIntent>::empty()
            &&& step(config, start, to_second).1 == Seq::<InputIntent>::empty()
            &&& run(config, start, seq![to_first, to_second]) == end
            &&& run(config, start, seq![to_second, to_first]) == end
        }),
{
    let start = Gesture::TrackingTwoFinger { first, second, waiting: Waiting::ForBoth };
    let a = Track { id: first.id, anchor: first.pos, pos: to_first.position };
    let b = Track { id: second.id, anchor: second.pos, pos: to_second.position };
    let dx = to_first.position.x - first.pos.x;
    let dy = to_first.position.y - first.pos.y;
    let t = config.move_threshold as int;
    assert(dist_sq(a.pos, b.pos) == dist_sq(a.anchor, b.anchor));
    assert(dx * dx >= 0 && dy * dy >= 0 && (-dx) * (-dx) == dx * dx && (-dy) * (-dy) == dy * dy
        && (dx + dx) * (dx + dx) == 4 * (dx * dx) && (dy + dy) * (dy + dy) == 4 * (dy * dy)) by (
        nonlinear_arith);
    assert(first.pos.x - to_first.position.x == -dx);
    assert(first.pos.y - to_first.position.y == -dy);
    assert(dist_sq(first.pos, to_first.position) == dx * dx + dy * dy);
    assert(t * t >= 0) by (nonlinear_arith);
    assert(travel(a) == travel(b));
    assert(travel(a).dx == dx && travel(a).dy == dy);
    assert(dot(travel(a), travel(b)) == dx * dx + dy * dy);
    assert(sum_len_sq(travel(a), travel(b)) == 4 * (dx * dx + dy * dy));
    assert(moving_together(a, b, config.move_threshold));
    assert(!spread_changed(a, b, config.pinch_threshold));
    assert(mean_delta(travel(a), travel(b)) == delta_between(first.pos, to_first.position));
    assert(two_finger_moved(config, a, b).0 == Gesture::TrackingScroll {
        first: rebased(a),
        second: rebased(b),
    });
    lemma_run_of_two(config, start, to_first, to_second);
    lemma_run_of_two(config, start, to_second, to_first);
}

/// Pinching to twice the distance zooms by two, in whichever order the
/// samples arrive: where two uncommitted fingers stand `d` apart, `d` being
/// more than the pinch threshold, and each is sampled once so that they
/// stand `2 * d` apart, the first of the two samples yields nothing and the
/// second commits the pair to a pinch and yields exactly one zoom whose new
/// distance is twice its old distance.
pub proof fn lemma_pinch_to_double_zooms_by_two(
    config: GestureConfig,
    first: Track,
    second: Track,
    to_first: TouchPoint,
    to_second: TouchPoint,
)
    requires
        first.id != second.id,
        first.anchor == first.pos,
        second.anchor == second.pos,
        to_first.phase == TouchPhase::Moved,
        to_second.phase == TouchPhase::Moved,
        to_first.id == first.id,
        to_second.id == second.id,
        dist(first.pos, second.pos) > config.pinch_threshold,
        dist(to_first.position, to_second.position) == 2 * dist(first.pos, second.pos),
    ensures
        ({
            let d = dist(first.pos, second.pos);
            let start = Gesture::TrackingTwoFinger { first, second, waiting: Waiting::ForBoth };
            let pair = pair_at(first, second, to_first.position, to_second.position);
            let end = (
                Gesture::TrackingPinch { first: pair.0, second: pair.1 },
                seq![
                    InputIntent::ZoomDelta {
                        new_distance: (2 * d) as u64,
                        old_distance: d as u64,
                        center: midpoint(to_first.position, to_second.position),
                    },
                ],
            );
            &&& step(config, start, to_first).1 == Seq::<InputIntent>::empty()
            &&& step(config, start, to_second).1 == Seq::<InputIntent>::empty()
            &&& run(config, start, seq![to_first, to_second]) == end
            &&& run(config, start, seq![to_second, to_first]) == end
        }),
{
    lemma_dist_fits();
    let start = Gesture::TrackingTwoFinger { first, second, waiting: Waiting::ForBoth };
    let a = Track { id: first.id, anchor: first.pos, pos: to_first.position };
    let b = Track { id: second.id, anchor: second.pos, pos: to_second.position };
    assert(spread_changed(a, b, config.pinch_threshold));
    assert(two_finger_moved(config, a, b).0 == Gesture::TrackingPinch {
        first: rebased(a),
        second: rebased(b),
    });
    lemma_run_of_two(config, start, to_first, to_second);
    lemma_run_of_two(config, start, to_second, to_first);
}

/// A run of two samples is one step after the other.
pub proof fn lemma_run_of_two(
    config: GestureConfig,
    gesture: Gesture,
    one: TouchPoint,
    other: TouchPoint,
)
    ensures
        run(config, gesture, seq![one, other]) == ({
            let first = step(config, gesture, one);
            let second = step(config, first.0, other);
            (second.0, first.1 + second.1)
        }),
{
    let samples = seq![one, other];
    assert(samples.drop_last() =~= seq![one]);
    assert(seq![one].drop_last() =~= Seq::<TouchPoint>::empty());
    reveal_with_fuel(run, 3);
    let first = step(config, gesture, one);
    assert(Seq::<InputIntent>::empty() + first.1 =~= first.1);
}

/// One finger alone does not commit the pair: while only one of two
/// uncommitted fingers has been sampled in a round, the pair stays
/// uncommitted and yields nothing, wherever that finger goes.
pub proof fn lemma_one_finger_alone_commits_nothing(
    config: GestureConfig,
    first: Track,
    second: Track,
    waiting: Waiting,
    sample: TouchPoint,
)
    requires
        first.id != second.id,
        sample.phase == TouchPhase::Moved,
        sample.id == first.id || sample.id == second.id,
        !completes_round(waiting, first, sample.id),
    ensures
        step(config, Gesture::TrackingTwoFinger { first, second, waiting }, sample).0
            is TrackingTwoFinger,
        step(config, Gesture::TrackingTwoFinger { first, second, waiting }, sample).1
            == Seq::<InputIntent>::empty(),
{
}

/// Classification is final: once two fingers scroll, their moves yield
/// nothing but scrolls and the machine goes on scrolling; once they pinch,
/// their moves yield nothing but zooms and the machine goes on pinching.
pub proof fn lemma_classification_is_final(
    config: GestureConfig,
    gesture: Gesture,
    sample: TouchPoint,
)
    requires
        sample.phase == TouchPhase::Moved,
        gesture.tracks(sample.id),
    ensures
        gesture is TrackingScroll ==> step(config, gesture, sample).0 is TrackingScroll && (
        forall|i: int|
            0 <= i < step(config, gesture, sample).1.len() ==> (#[trigger] step(
                config,
                gesture,
                sample,
            ).1[i]) is ScrollDelta),
        gesture is TrackingPinch ==> step(config, gesture, sample).0 is TrackingPinch && (
        forall|i: int|
            0 <= i < step(config, gesture, sample).1.len() ==> (#[trigger] step(
                config,
                gesture,
                sample,
            ).1[i]) is ZoomDelta),
        gesture is TrackingDrag || gesture is TrackingStylus ==> (forall|i: int|
            0 <= i < step(config, gesture, sample).1.len() ==> (#[trigger] step(
                config,
                gesture,
                sample,
            ).1[i]) is DragDelta),
{
}

} // verus!
