//! The gesture recognizer: a finite state machine that turns the touch
//! samples of one surface into intents.
//!
//! A tap becomes a click, a one-finger drag becomes drag deltas, two fingers
//! moving together become scroll deltas, two fingers moving apart or
//! together become zoom deltas, and a stylus always drags. Below the
//! configured thresholds the machine only tracks and emits nothing.
//!
//! Samples arrive one touch at a time. Two fingers that have not committed
//! are therefore compared only at the end of a round, when each of them has
//! been sampled since they were last compared: a scroll whose first sample
//! alone changes the distance between the fingers is no pinch.

use vstd::prelude::*;

use crate::error::CoreError;
use crate::input::geometry::{
    delta_between, dist, dist_sq, dot, in_surface_range, mean_delta, midpoint, sum_len_sq, Delta,
    Point,
};
use crate::input::intent::InputIntent;
use crate::input::touch::{TouchPhase, TouchPoint};

verus! {

/// The thresholds below which the recognizer does not commit to a gesture.
#[derive(Clone, Copy, Debug, PartialEq, Eq, Structural)]
pub struct GestureConfig {
    /// A touch that strays further than this from where it began is a drag,
    /// and two touches whose mean travel exceeds it scroll; surface units.
    pub move_threshold: u32,
    /// Two touches whose distance changes by more than this pinch; surface
    /// units.
    pub pinch_threshold: u32,
    /// A touch that is lifted within this time of its begin can be a tap;
    /// milliseconds.
    pub tap_window_ms: u64,
}

/// The movement threshold of the default configuration.
pub const DEFAULT_MOVE_THRESHOLD: u32 = 10;

/// The pinch threshold of the default configuration.
pub const DEFAULT_PINCH_THRESHOLD: u32 = 8;

/// The tap window of the default configuration.
pub const DEFAULT_TAP_WINDOW_MS: u64 = 300;

/// One tracked touch.
#[derive(Clone, Copy, Debug, PartialEq, Eq, Structural)]
pub struct Track {
    pub id: u64,
    /// Where the touch was when the gesture began or last emitted an intent.
    pub anchor: Point,
    /// Where the touch was at its latest sample.
    pub pos: Point,
}

/// Which of two uncommitted fingers has yet to be sampled. Samples come one
/// touch at a time, so the pair is compared only when a round is complete:
/// when each of the two has been sampled since the pair was last compared.
#[derive(Clone, Copy, Debug, PartialEq, Eq, Structural)]
pub enum Waiting {
    /// Neither finger has been sampled in this round.
    ForBoth,
    /// The second finger has been sampled, the first has not.
    ForFirst,
    /// The first finger has been sampled, the second has not.
    ForSecond,
}

/// The state of the recognizer. There is at most one gesture in progress,
/// and the touches it tracks are the active ones.
#[derive(Clone, Copy, Debug, PartialEq, Eq, Structural)]
pub enum Gesture {
    /// No touch is tracked.
    Idle,
    /// One finger is down and has not strayed: a tap or a drag to be.
    TrackingSingle { track: Track, began_at: u64 },
    /// One finger drags.
    TrackingDrag { track: Track },
    /// Two fingers are down and have not committed: a scroll or a pinch to be.
    /// `waiting` tells which of them has yet to be sampled before the pair is
    /// looked at again.
    TrackingTwoFinger { first: Track, second: Track, waiting: Waiting },
    /// Two fingers scroll.
    TrackingScroll { first: Track, second: Track },
    /// Two fingers pinch.
    TrackingPinch { first: Track, second: Track },
    /// A stylus is down.
    TrackingStylus { track: Track },
}

/// The track of a touch that has just begun.
pub open spec fn fresh_track(sample: TouchPoint) -> Track {
    Track { id: sample.id, anchor: sample.position, pos: sample.position }
}

/// The track with its anchor brought up to where the touch is now.
pub open spec fn rebased(track: Track) -> Track {
    Track { id: track.id, anchor: track.pos, pos: track.pos }
}

/// The track after its touch was sampled at `p`.
pub open spec fn moved_to(track: Track, p: Point) -> Track {
    Track { id: track.id, anchor: track.anchor, pos: p }
}

/// How far the touch has come since its anchor.
pub open spec fn travel(track: Track) -> Delta {
    delta_between(track.anchor, track.pos)
}

/// Whether `a` and `b` lie further apart than `threshold`.
pub open spec fn beyond(a: Point, b: Point, threshold: u32) -> bool {
    dist_sq(a, b) > threshold * threshold
}

/// Whether lifting the touch with `sample` completes a tap: it has not
/// strayed from where it began, and the tap window has not run out.
pub open spec fn is_tap(
    config: GestureConfig,
    track: Track,
    began_at: u64,
    sample: TouchPoint,
) -> bool {
    &&& !beyond(track.anchor, sample.position, config.move_threshold)
    &&& began_at <= sample.timestamp
    &&& sample.timestamp - began_at <= config.tap_window_ms
}

/// Whether the distance between the two touches has changed by more than
/// `threshold` since their anchors, neither distance being zero.
pub open spec fn spread_changed(a: Track, b: Track, threshold: u32) -> bool {
    let old_distance = dist(a.anchor, b.anchor);
    let new_distance = dist(a.pos, b.pos);
    &&& old_distance > 0
    &&& new_distance > 0
    &&& (new_distance > old_distance + threshold || old_distance > new_distance + threshold)
}

/// Whether the two touches have moved the same way since their anchors, and
/// their mean travel exceeds `threshold`.
pub open spec fn moving_together(a: Track, b: Track, threshold: u32) -> bool {
    &&& dot(travel(a), travel(b)) > 0
    &&& sum_len_sq(travel(a), travel(b)) > 4 * (threshold * threshold)
}

/// The zoom that leads from the anchors of two touches to where they are.
pub open spec fn zoom_intent(a: Track, b: Track) -> InputIntent {
    InputIntent::ZoomDelta {
        new_distance: dist(a.pos, b.pos) as u64,
        old_distance: dist(a.anchor, b.anchor) as u64,
        center: midpoint(a.pos, b.pos),
    }
}

/// The pair of tracks after the touch `sample.id` among them was sampled.
pub open spec fn pair_moved(first: Track, second: Track, sample: TouchPoint) -> (Track, Track) {
    if sample.id == first.id {
        (moved_to(first, sample.position), second)
    } else {
        (first, moved_to(second, sample.position))
    }
}

/// The track of the pair that stays when the touch `id` is lifted.
pub open spec fn remaining(first: Track, second: Track, id: u64) -> Track {
    if id == first.id {
        rebased(second)
    } else {
        rebased(first)
    }
}

/// One step of a dragging touch, finger or stylus: the delta since the last
/// emission, where there is any.
pub open spec fn drag_moved(track: Track, p: Point) -> (Track, Seq<InputIntent>) {
    if p == track.anchor {
        (moved_to(track, p), Seq::empty())
    } else {
        (
            Track { id: track.id, anchor: p, pos: p },
            seq![InputIntent::DragDelta { delta: delta_between(track.anchor, p) }],
        )
    }
}

/// Whether a sample of the touch `id` completes the round of the pair whose
/// first finger is `first`.
pub open spec fn completes_round(waiting: Waiting, first: Track, id: u64) -> bool {
    match waiting {
        Waiting::ForBoth => false,
        Waiting::ForFirst => id == first.id,
        Waiting::ForSecond => id != first.id,
    }
}

/// What the pair waits for after a sample of the touch `id` that does not
/// complete the round.
pub open spec fn waiting_after(waiting: Waiting, first: Track, id: u64) -> Waiting {
    match waiting {
        Waiting::ForBoth => if id == first.id {
            Waiting::ForSecond
        } else {
            Waiting::ForFirst
        },
        _ => waiting,
    }
}

/// Two uncommitted fingers at the end of a round, when both have been
/// sampled: they commit to a pinch where their distance has changed by more
/// than the pinch threshold, to a scroll where they have moved the same way
/// by more than the movement threshold, and stay uncommitted otherwise. Two
/// fingers that began on one spot take their first spread as their anchors.
pub open spec fn two_finger_moved(config: GestureConfig, a: Track, b: Track) -> (
    Gesture,
    Seq<InputIntent>,
) {
    if dist(a.anchor, b.anchor) == 0 && dist(a.pos, b.pos) > 0 {
        (
            Gesture::TrackingTwoFinger {
                first: rebased(a),
                second: rebased(b),
                waiting: Waiting::ForBoth,
            },
            Seq::empty(),
        )
    } else if spread_changed(a, b, config.pinch_threshold) {
        (
            Gesture::TrackingPinch { first: rebased(a), second: rebased(b) },
            seq![zoom_intent(a, b)],
        )
    } else if moving_together(a, b, config.move_threshold) {
        (
            Gesture::TrackingScroll { first: rebased(a), second: rebased(b) },
            seq![InputIntent::ScrollDelta { delta: mean_delta(travel(a), travel(b)) }],
        )
    } else {
        (
            Gesture::TrackingTwoFinger { first: a, second: b, waiting: Waiting::ForBoth },
            Seq::empty(),
        )
    }
}

/// Two uncommitted fingers after a sample of one of them: the pair is
/// compared where the sample completes the round, and only waits otherwise.
pub open spec fn two_finger_sampled(
    config: GestureConfig,
    first: Track,
    second: Track,
    waiting: Waiting,
    sample: TouchPoint,
) -> (Gesture, Seq<InputIntent>) {
    let pair = pair_moved(first, second, sample);
    if completes_round(waiting, first, sample.id) {
        two_finger_moved(config, pair.0, pair.1)
    } else {
        (
            Gesture::TrackingTwoFinger {
                first: pair.0,
                second: pair.1,
                waiting: waiting_after(waiting, first, sample.id),
            },
            Seq::empty(),
        )
    }
}

/// Two scrolling fingers after one of them moved.
pub open spec fn scroll_moved(a: Track, b: Track) -> (Gesture, Seq<InputIntent>) {
    let mean = mean_delta(travel(a), travel(b));
    if mean.dx == 0 && mean.dy == 0 {
        (Gesture::TrackingScroll { first: a, second: b }, Seq::empty())
    } else {
        (
            Gesture::TrackingScroll { first: rebased(a), second: rebased(b) },
            seq![InputIntent::ScrollDelta { delta: mean }],
        )
    }
}

/// Two pinching fingers after one of them moved.
pub open spec fn pinch_moved(a: Track, b: Track) -> (Gesture, Seq<InputIntent>) {
    let old_distance = dist(a.anchor, b.anchor);
    let new_distance = dist(a.pos, b.pos);
    if old_distance > 0 && new_distance > 0 && old_distance != new_distance {
        (
            Gesture::TrackingPinch { first: rebased(a), second: rebased(b) },
            seq![zoom_intent(a, b)],
        )
    } else {
        (Gesture::TrackingPinch { first: a, second: b }, Seq::empty())
    }
}

impl Gesture {
    /// Whether the touch `id` is one of the active touches.
    pub open spec fn tracks(self, id: u64) -> bool {
        match self {
            Gesture::Idle => false,
            Gesture::TrackingSingle { track, .. } => track.id == id,
            Gesture::TrackingDrag { track } => track.id == id,
            Gesture::TrackingStylus { track } => track.id == id,
            Gesture::TrackingTwoFinger { first, second, .. } => first.id == id || second.id == id,
            Gesture::TrackingScroll { first, second } => first.id == id || second.id == id,
            Gesture::TrackingPinch { first, second } => first.id == id || second.id == id,
        }
    }

    /// The identities of the active touches.
    pub open spec fn active_ids(self) -> Set<u64> {
        Set::new(|id: u64| self.tracks(id))
    }

    /// The identities of the active touches, in the order in which the
    /// touches began.
    pub open spec fn touch_ids(self) -> Seq<u64> {
        match self {
            Gesture::Idle => Seq::empty(),
            Gesture::TrackingSingle { track, .. } => seq![track.id],
            Gesture::TrackingDrag { track } => seq![track.id],
            Gesture::TrackingStylus { track } => seq![track.id],
            Gesture::TrackingTwoFinger { first, second, .. } => seq![first.id, second.id],
            Gesture::TrackingScroll { first, second } => seq![first.id, second.id],
            Gesture::TrackingPinch { first, second } => seq![first.id, second.id],
        }
    }

    /// Two touches that are tracked together have different identities.
    pub open spec fn wf(self) -> bool {
        match self {
            Gesture::TrackingTwoFinger { first, second, .. } => first.id != second.id,
            Gesture::TrackingScroll { first, second } => first.id != second.id,
            Gesture::TrackingPinch { first, second } => first.id != second.id,
            _ => true,
        }
    }

    /// The state after a touch began.
    ///
    /// From idle, a finger starts a candidate tap and a stylus starts a
    /// stylus track. A second finger beside a single or dragging one starts
    /// a two-finger candidate. Any other begin is not tracked: a stylus
    /// beside fingers, a finger beside a stylus, a third finger, or an
    /// identity that is active already.
    pub open spec fn after_began(self, sample: TouchPoint) -> Gesture {
        match self {
            Gesture::Idle => if sample.pressure is Some {
                Gesture::TrackingStylus { track: fresh_track(sample) }
            } else {
                Gesture::TrackingSingle { track: fresh_track(sample), began_at: sample.timestamp }
            },
            Gesture::TrackingSingle { track, .. } => if sample.pressure is None && sample.id
                != track.id {
                Gesture::TrackingTwoFinger {
                    first: rebased(track),
                    second: fresh_track(sample),
                    waiting: Waiting::ForBoth,
                }
            } else {
                self
            },
            Gesture::TrackingDrag { track } => if sample.pressure is None && sample.id
                != track.id {
                Gesture::TrackingTwoFinger {
                    first: rebased(track),
                    second: fresh_track(sample),
                    waiting: Waiting::ForBoth,
                }
            } else {
                self
            },
            _ => self,
        }
    }

    /// The state and the intents after an active touch moved.
    pub open spec fn after_moved(self, config: GestureConfig, sample: TouchPoint) -> (
        Gesture,
        Seq<InputIntent>,
    ) {
        match self {
            Gesture::Idle => (self, Seq::empty()),
            Gesture::TrackingSingle { track, began_at } => if beyond(
                track.anchor,
                sample.position,
                config.move_threshold,
            ) {
                (Gesture::TrackingDrag { track: drag_moved(track, sample.position).0 }, drag_moved(
                    track,
                    sample.position,
                ).1)
            } else {
                (
                    Gesture::TrackingSingle { track: moved_to(track, sample.position), began_at },
                    Seq::empty(),
                )
            },
            Gesture::TrackingDrag { track } => (
                Gesture::TrackingDrag { track: drag_moved(track, sample.position).0 },
                drag_moved(track, sample.position).1,
            ),
            Gesture::TrackingStylus { track } => (
                Gesture::TrackingStylus { track: drag_moved(track, sample.position).0 },
                drag_moved(track, sample.position).1,
            ),
            Gesture::TrackingTwoFinger { first, second, waiting } => two_finger_sampled(
                config,
                first,
                second,
                waiting,
                sample,
            ),
            Gesture::TrackingScroll { first, second } => scroll_moved(
                pair_moved(first, second, sample).0,
                pair_moved(first, second, sample).1,
            ),
            Gesture::TrackingPinch { first, second } => pinch_moved(
                pair_moved(first, second, sample).0,
                pair_moved(first, second, sample).1,
            ),
        }
    }

    /// The state and the intents after an active touch was lifted.
    ///
    /// A candidate tap that qualifies clicks where it began. Of two fingers
    /// the one that stays goes on as a drag. Everything else ends quietly.
    pub open spec fn after_ended(self, config: GestureConfig, sample: TouchPoint) -> (
        Gesture,
        Seq<InputIntent>,
    ) {
        match self {
            Gesture::TrackingSingle { track, began_at } => if is_tap(
                config,
                track,
                began_at,
                sample,
            ) {
                (Gesture::Idle, seq![InputIntent::Click { position: track.anchor }])
            } else {
                (Gesture::Idle, Seq::empty())
            },
            Gesture::TrackingTwoFinger { first, second, .. } => (
                Gesture::TrackingDrag { track: remaining(first, second, sample.id) },
                Seq::empty(),
            ),
            Gesture::TrackingScroll { first, second } => (
                Gesture::TrackingDrag { track: remaining(first, second, sample.id) },
                Seq::empty(),
            ),
            Gesture::TrackingPinch { first, second } => (
                Gesture::TrackingDrag { track: remaining(first, second, sample.id) },
                Seq::empty(),
            ),
            _ => (Gesture::Idle, Seq::empty()),
        }
    }
}

/// Whether the sample names a touch that is not active: a move, a lift or a
/// cancellation of an identity that the machine does not track. That is so
/// of a touch that never began, and also of one whose begin was not taken
/// up (a third finger, a stylus beside fingers, a finger beside a stylus)
/// or whose track was released by a cancellation.
pub open spec fn is_unknown(gesture: Gesture, sample: TouchPoint) -> bool {
    sample.phase != TouchPhase::Began && !gesture.tracks(sample.id)
}

/// The transition function of the recognizer: the state that follows
/// `gesture` on `sample`, and the intents that the sample yields.
///
/// A sample of an unknown touch changes nothing and yields nothing. A
/// cancellation of an active touch returns the machine to idle and releases
/// every touch.
pub open spec fn step(config: GestureConfig, gesture: Gesture, sample: TouchPoint) -> (
    Gesture,
    Seq<InputIntent>,
) {
    if is_unknown(gesture, sample) {
        (gesture, Seq::empty())
    } else {
        match sample.phase {
            TouchPhase::Began => (gesture.after_began(sample), Seq::empty()),
            TouchPhase::Moved => gesture.after_moved(config, sample),
            TouchPhase::Ended => gesture.after_ended(config, sample),
            TouchPhase::Cancelled => (Gesture::Idle, Seq::empty()),
        }
    }
}


impl Track {
    /// The track of a touch that has just begun.
    fn fresh(sample: &TouchPoint) -> (track: Track)
        ensures
            track == fresh_track(*sample),
    {
        Track { id: sample.id, anchor: sample.position, pos: sample.position }
    }

    /// The track with its anchor brought up to where the touch is now.
    fn rebase(&self) -> (track: Track)
        ensures
            track == rebased(*self),
    {
        Track { id: self.id, anchor: self.pos, pos: self.pos }
    }

    /// The track after its touch was sampled at `p`.
    fn move_to(&self, p: Point) -> (track: Track)
        ensures
            track == moved_to(*self, p),
    {
        Track { id: self.id, anchor: self.anchor, pos: p }
    }

    /// How far the touch has come since its anchor.
    fn travelled(&self) -> (d: Delta)
        ensures
            d == travel(*self),
            in_surface_range(d),
    {
        self.anchor.delta_to(&self.pos)
    }
}

/// Whether `a` and `b` lie further apart than `threshold`.
fn is_beyond(a: &Point, b: &Point, threshold: u32) -> (far: bool)
    ensures
        far == beyond(*a, *b, threshold),
{
    let t = threshold as u128;
    proof {
        assert(0 <= t * t <= 0xFFFF_FFFF * 0xFFFF_FFFF) by (nonlinear_arith)
            requires
                0 <= t <= 0xFFFF_FFFF,
        ;
    }
    a.distance_squared(b) > t * t
}

/// Whether the distance between the two touches has changed by more than
/// `threshold`, neither distance being zero.
fn has_spread_changed(a: &Track, b: &Track, threshold: u32) -> (changed: bool)
    ensures
        changed == spread_changed(*a, *b, threshold),
{
    let old_distance = a.anchor.distance(&b.anchor) as u128;
    let new_distance = a.pos.distance(&b.pos) as u128;
    let t = threshold as u128;
    old_distance > 0 && new_distance > 0 && (new_distance > old_distance + t || old_distance
        > new_distance + t)
}

/// Whether the two touches have moved the same way, their mean travel
/// exceeding `threshold`.
fn is_moving_together(a: &Track, b: &Track, threshold: u32) -> (together: bool)
    ensures
        together == moving_together(*a, *b, threshold),
{
    let da = a.travelled();
    let db = b.travelled();
    let t = threshold as u128;
    proof {
        assert(0 <= t * t <= 0xFFFF_FFFF * 0xFFFF_FFFF) by (nonlinear_arith)
            requires
                0 <= t <= 0xFFFF_FFFF,
        ;
    }
    da.dot(&db) > 0 && da.sum_length_squared(&db) > 4 * (t * t)
}

/// The zoom that leads from the anchors of two touches to where they are.
fn make_zoom(a: &Track, b: &Track) -> (intent: InputIntent)
    ensures
        intent == zoom_intent(*a, *b),
{
    InputIntent::ZoomDelta {
        new_distance: a.pos.distance(&b.pos),
        old_distance: a.anchor.distance(&b.anchor),
        center: a.pos.midpoint(&b.pos),
    }
}

/// A list that holds `intent` alone.
fn single(intent: InputIntent) -> (intents: Vec<InputIntent>)
    ensures
        intents@ == seq![intent],
{
    let mut intents: Vec<InputIntent> = Vec::new();
    intents.push(intent);
    assert(intents@ =~= seq![intent]);
    intents
}

/// One step of a dragging touch.
fn advance_drag(track: &Track, p: Point) -> (next: (Track, Vec<InputIntent>))
    ensures
        next.0 == drag_moved(*track, p).0,
        next.1@ == drag_moved(*track, p).1,
{
    if p.x == track.anchor.x && p.y == track.anchor.y {
        (track.move_to(p), Vec::new())
    } else {
        let delta = track.anchor.delta_to(&p);
        (Track { id: track.id, anchor: p, pos: p }, single(InputIntent::DragDelta { delta }))
    }
}

/// The pair of tracks after the touch `sample.id` among them was sampled.
fn advance_pair(first: &Track, second: &Track, sample: &TouchPoint) -> (pair: (Track, Track))
    ensures
        pair == pair_moved(*first, *second, *sample),
{
    if sample.id == first.id {
        (first.move_to(sample.position), *second)
    } else {
        (*first, second.move_to(sample.position))
    }
}

/// The track of the pair that stays when the touch `id` is lifted.
fn stay_behind(first: &Track, second: &Track, id: u64) -> (track: Track)
    ensures
        track == remaining(*first, *second, id),
{
    if id == first.id {
        second.rebase()
    } else {
        first.rebase()
    }
}

/// Two uncommitted fingers at the end of a round.
fn advance_two_finger(config: &GestureConfig, a: &Track, b: &Track) -> (next: (
    Gesture,
    Vec<InputIntent>,
))
    ensures
        next.0 == two_finger_moved(*config, *a, *b).0,
        next.1@ == two_finger_moved(*config, *a, *b).1,
{
    if a.anchor.distance(&b.anchor) == 0 && a.pos.distance(&b.pos) > 0 {
        (
            Gesture::TrackingTwoFinger {
                first: a.rebase(),
                second: b.rebase(),
                waiting: Waiting::ForBoth,
            },
            Vec::new(),
        )
    } else if has_spread_changed(a, b, config.pinch_threshold) {
        (
            Gesture::TrackingPinch { first: a.rebase(), second: b.rebase() },
            single(make_zoom(a, b)),
        )
    } else if is_moving_together(a, b, config.move_threshold) {
        let delta = a.travelled().mean_with(&b.travelled());
        (
            Gesture::TrackingScroll { first: a.rebase(), second: b.rebase() },
            single(InputIntent::ScrollDelta { delta }),
        )
    } else {
        (
            Gesture::TrackingTwoFinger { first: *a, second: *b, waiting: Waiting::ForBoth },
            Vec::new(),
        )
    }
}

/// Two scrolling fingers after one of them moved.
fn advance_scroll(a: &Track, b: &Track) -> (next: (Gesture, Vec<InputIntent>))
    ensures
        next.0 == scroll_moved(*a, *b).0,
        next.1@ == scroll_moved(*a, *b).1,
{
    let delta = a.travelled().mean_with(&b.travelled());
    if delta.is_zero() {
        (Gesture::TrackingScroll { first: *a, second: *b }, Vec::new())
    } else {
        (
            Gesture::TrackingScroll { first: a.rebase(), second: b.rebase() },
            single(InputIntent::ScrollDelta { delta }),
        )
    }
}

/// Two pinching fingers after one of them moved.
fn advance_pinch(a: &Track, b: &Track) -> (next: (Gesture, Vec<InputIntent>))
    ensures
        next.0 == pinch_moved(*a, *b).0,
        next.1@ == pinch_moved(*a, *b).1,
{
    let old_distance = a.anchor.distance(&b.anchor);
    let new_distance = a.pos.distance(&b.pos);
    if old_distance > 0 && new_distance > 0 && old_distance != new_distance {
        (
            Gesture::TrackingPinch { first: a.rebase(), second: b.rebase() },
            single(make_zoom(a, b)),
        )
    } else {
        (Gesture::TrackingPinch { first: *a, second: *b }, Vec::new())
    }
}

impl Gesture {
    /// Whether the touch `id` is one of the active touches.
    pub fn is_tracking(&self, id: u64) -> (active: bool)
        ensures
            active == self.tracks(id),
    {
        match self {
            Gesture::Idle => false,
            Gesture::TrackingSingle { track, .. } => track.id == id,
            Gesture::TrackingDrag { track } => track.id == id,
            Gesture::TrackingStylus { track } => track.id == id,
            Gesture::TrackingTwoFinger { first, second, .. } => first.id == id || second.id == id,
            Gesture::TrackingScroll { first, second } => first.id == id || second.id == id,
            Gesture::TrackingPinch { first, second } => first.id == id || second.id == id,
        }
    }

    /// The identities of the active touches, in the order in which the
    /// touches began.
    pub fn active_touches(&self) -> (ids: Vec<u64>)
        ensures
            ids@ == self.touch_ids(),
    {
        let mut ids: Vec<u64> = Vec::new();
        match self {
            Gesture::Idle => {},
            Gesture::TrackingSingle { track, .. } => {
                ids.push(track.id);
            },
            Gesture::TrackingDrag { track } => {
                ids.push(track.id);
            },
            Gesture::TrackingStylus { track } => {
                ids.push(track.id);
            },
            Gesture::TrackingTwoFinger { first, second, .. } => {
                ids.push(first.id);
                ids.push(second.id);
            },
            Gesture::TrackingScroll { first, second } => {
                ids.push(first.id);
                ids.push(second.id);
            },
            Gesture::TrackingPinch { first, second } => {
                ids.push(first.id);
                ids.push(second.id);
            },
        }
        assert(ids@ =~= self.touch_ids());
        ids
    }

    /// Whether no touch is tracked.
    pub fn is_idle(&self) -> (idle: bool)
        ensures
            idle == (*self == Gesture::Idle),
    {
        match self {
            Gesture::Idle => true,
            _ => false,
        }
    }

    /// The state after a touch began.
    fn begin(&self, sample: &TouchPoint) -> (next: Gesture)
        ensures
            next == self.after_began(*sample),
    {
        match self {
            Gesture::Idle => {
                if sample.pressure.is_some() {
                    Gesture::TrackingStylus { track: Track::fresh(sample) }
                } else {
                    Gesture::TrackingSingle {
                        track: Track::fresh(sample),
                        began_at: sample.timestamp,
                    }
                }
            },
            Gesture::TrackingSingle { track, .. } => {
                if sample.pressure.is_none() && sample.id != track.id {
                    Gesture::TrackingTwoFinger {
                        first: track.rebase(),
                        second: Track::fresh(sample),
                        waiting: Waiting::ForBoth,
                    }
                } else {
                    *self
                }
            },
            Gesture::TrackingDrag { track } => {
                if sample.pressure.is_none() && sample.id != track.id {
                    Gesture::TrackingTwoFinger {
                        first: track.rebase(),
                        second: Track::fresh(sample),
                        waiting: Waiting::ForBoth,
                    }
                } else {
                    *self
                }
            },
            _ => *self,
        }
    }

    /// The state and the intents after an active touch moved.
    fn advance(&self, config: &GestureConfig, sample: &TouchPoint) -> (next: (
        Gesture,
        Vec<InputIntent>,
    ))
        ensures
            next.0 == self.after_moved(*config, *sample).0,
            next.1@ == self.after_moved(*config, *sample).1,
    {
        match self {
            Gesture::Idle => (*self, Vec::new()),
            Gesture::TrackingSingle { track, began_at } => {
                if is_beyond(&track.anchor, &sample.position, config.move_threshold) {
                    let (moved, intents) = advance_drag(track, sample.position);
                    (Gesture::TrackingDrag { track: moved }, intents)
                } else {
                    (
                        Gesture::TrackingSingle {
                            track: track.move_to(sample.position),
                            began_at: *began_at,
                        },
                        Vec::new(),
                    )
                }
            },
            Gesture::TrackingDrag { track } => {
                let (moved, intents) = advance_drag(track, sample.position);
                (Gesture::TrackingDrag { track: moved }, intents)
            },
            Gesture::TrackingStylus { track } => {
                let (moved, intents) = advance_drag(track, sample.position);
                (Gesture::TrackingStylus { track: moved }, intents)
            },
            Gesture::TrackingTwoFinger { first, second, waiting } => {
                let (a, b) = advance_pair(first, second, sample);
                let complete = match waiting {
                    Waiting::ForBoth => false,
                    Waiting::ForFirst => sample.id == first.id,
                    Waiting::ForSecond => sample.id != first.id,
                };
                if complete {
                    advance_two_finger(config, &a, &b)
                } else {
                    let still = match waiting {
                        Waiting::ForBoth => if sample.id == first.id {
                            Waiting::ForSecond
                        } else {
                            Waiting::ForFirst
                        },
                        _ => *waiting,
                    };
                    (Gesture::TrackingTwoFinger { first: a, second: b, waiting: still }, Vec::new())
                }
            },
            Gesture::TrackingScroll { first, second } => {
                let (a, b) = advance_pair(first, second, sample);
                advance_scroll(&a, &b)
            },
            Gesture::TrackingPinch { first, second } => {
                let (a, b) = advance_pair(first, second, sample);
                advance_pinch(&a, &b)
            },
        }
    }

    /// The state and the intents after an active touch was lifted.
    fn end(&self, config: &GestureConfig, sample: &TouchPoint) -> (next: (
        Gesture,
        Vec<InputIntent>,
    ))
        ensures
            next.0 == self.after_ended(*config, *sample).0,
            next.1@ == self.after_ended(*config, *sample).1,
    {
        match self {
            Gesture::TrackingSingle { track, began_at } => {
                if !is_beyond(&track.anchor, &sample.position, config.move_threshold)
                    && *began_at <= sample.timestamp && sample.timestamp - *began_at
                    <= config.tap_window_ms {
                    (Gesture::Idle, single(InputIntent::Click { position: track.anchor }))
                } else {
                    (Gesture::Idle, Vec::new())
                }
            },
            Gesture::TrackingTwoFinger { first, second, .. } => (
                Gesture::TrackingDrag { track: stay_behind(first, second, sample.id) },
                Vec::new(),
            ),
            Gesture::TrackingScroll { first, second } => (
                Gesture::TrackingDrag { track: stay_behind(first, second, sample.id) },
                Vec::new(),
            ),
            Gesture::TrackingPinch { first, second } => (
                Gesture::TrackingDrag { track: stay_behind(first, second, sample.id) },
                Vec::new(),
            ),
            _ => (Gesture::Idle, Vec::new()),
        }
    }
}

/// The gesture recognizer of one touch surface.
#[derive(Clone, Copy, Debug)]
pub struct GestureState {
    config: GestureConfig,
    gesture: Gesture,
}

impl GestureState {
    /// The thresholds the recognizer works with.
    pub closed spec fn config(&self) -> GestureConfig {
        self.config
    }

    /// The state the machine is in.
    pub closed spec fn gesture(&self) -> Gesture {
        self.gesture
    }

    /// An idle recognizer with the default thresholds.
    pub fn new() -> (state: GestureState)
        ensures
            state.gesture() == Gesture::Idle,
            state.config() == (GestureConfig {
                move_threshold: DEFAULT_MOVE_THRESHOLD,
                pinch_threshold: DEFAULT_PINCH_THRESHOLD,
                tap_window_ms: DEFAULT_TAP_WINDOW_MS,
            }),
    {
        GestureState {
            config: GestureConfig {
                move_threshold: DEFAULT_MOVE_THRESHOLD,
                pinch_threshold: DEFAULT_PINCH_THRESHOLD,
                tap_window_ms: DEFAULT_TAP_WINDOW_MS,
            },
            gesture: Gesture::Idle,
        }
    }

    /// An idle recognizer with the given thresholds.
    pub fn with_config(config: GestureConfig) -> (state: GestureState)
        ensures
            state.gesture() == Gesture::Idle,
            state.config() == config,
    {
        GestureState { config, gesture: Gesture::Idle }
    }

    /// The thresholds the recognizer works with.
    pub fn thresholds(&self) -> (config: GestureConfig)
        ensures
            config == self.config(),
    {
        self.config
    }

    /// The state the machine is in.
    pub fn current(&self) -> (gesture: Gesture)
        ensures
            gesture == self.gesture(),
    {
        self.gesture
    }

    /// Feeds one touch sample to the machine and returns the intents it
    /// yields, in order.
    ///
    /// A move, a lift or a cancellation of a touch that is not active is
    /// refused as `UnknownTouchIdentity` and leaves the machine as it was.
    pub fn handle_touch(&mut self, sample: &TouchPoint) -> (outcome: Result<
        Vec<InputIntent>,
        CoreError,
    >)
        ensures
            final(self).config() == old(self).config(),
            final(self).gesture() == step(old(self).config(), old(self).gesture(), *sample).0,
            outcome is Err <==> is_unknown(old(self).gesture(), *sample),
            outcome matches Err(e) ==> e == CoreError::UnknownTouchIdentity
                && final(self).gesture() == old(self).gesture(),
            outcome matches Ok(intents) ==> intents@ == step(
                old(self).config(),
                old(self).gesture(),
                *sample,
            ).1,
    {
        let began = match sample.phase {
            TouchPhase::Began => true,
            _ => false,
        };
        if !began && !self.gesture.is_tracking(sample.id) {
            return Err(CoreError::UnknownTouchIdentity);
        }
        let (next, intents) = match sample.phase {
            TouchPhase::Began => (self.gesture.begin(sample), Vec::new()),
            TouchPhase::Moved => self.gesture.advance(&self.config, sample),
            TouchPhase::Ended => self.gesture.end(&self.config, sample),
            TouchPhase::Cancelled => (Gesture::Idle, Vec::new()),
        };
        self.gesture = next;
        Ok(intents)
    }

    /// Returns the machine to idle and releases every touch.
    pub fn reset(&mut self)
        ensures
            final(self).config() == old(self).config(),
            final(self).gesture() == Gesture::Idle,
    {
        self.gesture = Gesture::Idle;
    }
}

impl Default for GestureState {
    fn default() -> (state: GestureState)
        ensures
            state.gesture() == Gesture::Idle,
            state.config() == (GestureConfig {
                move_threshold: DEFAULT_MOVE_THRESHOLD,
                pinch_threshold: DEFAULT_PINCH_THRESHOLD,
                tap_window_ms: DEFAULT_TAP_WINDOW_MS,
            }),
    {
        GestureState::new()
    }
}

} // verus!
