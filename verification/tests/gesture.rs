use app_core::error::CoreError;
use app_core::input::geometry::{isqrt, Delta, Point};
use app_core::input::gesture::{Gesture, GestureConfig, GestureState, Track, Waiting};
use app_core::input::intent::InputIntent;
use app_core::input::touch::{TouchPhase, TouchPoint};

fn p(x: i32, y: i32) -> Point {
    Point { x, y }
}

fn finger(id: u64, x: i32, y: i32, t: u64, phase: TouchPhase) -> TouchPoint {
    TouchPoint::finger(id, p(x, y), t, phase)
}

fn pen(id: u64, x: i32, y: i32, t: u64, phase: TouchPhase) -> TouchPoint {
    TouchPoint::stylus(id, p(x, y), t, 500, phase)
}

fn machine() -> GestureState {
    GestureState::with_config(GestureConfig {
        move_threshold: 10,
        pinch_threshold: 8,
        tap_window_ms: 300,
    })
}

fn feed(m: &mut GestureState, samples: &[TouchPoint]) -> Vec<InputIntent> {
    let mut all = Vec::new();
    for s in samples {
        all.extend(m.handle_touch(s).unwrap());
    }
    all
}

fn drag_sum(intents: &[InputIntent]) -> (i64, i64) {
    let mut sum = (0, 0);
    for i in intents {
        if let InputIntent::DragDelta { delta } = i {
            sum.0 += delta.dx;
            sum.1 += delta.dy;
        }
    }
    sum
}

#[test]
fn new_machine_is_idle_with_default_thresholds() {
    let m = GestureState::new();
    assert_eq!(m.current(), Gesture::Idle);
    assert!(m.current().is_idle());
    assert_eq!(
        m.thresholds(),
        GestureConfig { move_threshold: 10, pinch_threshold: 8, tap_window_ms: 300 }
    );
    assert_eq!(GestureState::default().current(), Gesture::Idle);
    assert!(m.current().active_touches().is_empty());
}

#[test]
fn tap_yields_one_click_and_returns_to_idle() {
    let mut m = machine();
    let intents = feed(
        &mut m,
        &[finger(1, 100, 200, 1000, TouchPhase::Began), finger(1, 103, 198, 1100, TouchPhase::Ended)],
    );
    assert_eq!(intents, vec![InputIntent::Click { position: p(100, 200) }]);
    assert_eq!(m.current(), Gesture::Idle);
}

#[test]
fn tap_at_the_edge_of_threshold_and_window_still_clicks() {
    let mut m = machine();
    let intents = feed(
        &mut m,
        &[finger(1, 0, 0, 1000, TouchPhase::Began), finger(1, 6, 8, 1300, TouchPhase::Ended)],
    );
    assert_eq!(intents, vec![InputIntent::Click { position: p(0, 0) }]);
}

#[test]
fn slow_lift_is_no_click() {
    let mut m = machine();
    let intents = feed(
        &mut m,
        &[finger(1, 0, 0, 1000, TouchPhase::Began), finger(1, 0, 0, 1301, TouchPhase::Ended)],
    );
    assert_eq!(intents, vec![]);
    assert_eq!(m.current(), Gesture::Idle);
}

#[test]
fn lift_with_an_earlier_timestamp_is_no_click() {
    let mut m = machine();
    let intents = feed(
        &mut m,
        &[finger(1, 0, 0, 1000, TouchPhase::Began), finger(1, 0, 0, 999, TouchPhase::Ended)],
    );
    assert_eq!(intents, vec![]);
}

#[test]
fn lift_beyond_threshold_is_no_click() {
    let mut m = machine();
    let intents = feed(
        &mut m,
        &[finger(1, 0, 0, 1000, TouchPhase::Began), finger(1, 11, 0, 1010, TouchPhase::Ended)],
    );
    assert_eq!(intents, vec![]);
    assert_eq!(m.current(), Gesture::Idle);
}

#[test]
fn jitter_below_threshold_yields_nothing() {
    let mut m = machine();
    let intents = feed(
        &mut m,
        &[
            finger(1, 0, 0, 1000, TouchPhase::Began),
            finger(1, 3, 3, 1010, TouchPhase::Moved),
            finger(1, 10, 0, 1020, TouchPhase::Moved),
        ],
    );
    assert_eq!(intents, vec![]);
    assert_eq!(
        m.current(),
        Gesture::TrackingSingle {
            track: Track { id: 1, anchor: p(0, 0), pos: p(10, 0) },
            began_at: 1000
        }
    );
}

#[test]
fn drag_yields_deltas_that_sum_to_the_displacement_and_no_click() {
    let mut m = machine();
    let intents = feed(
        &mut m,
        &[
            finger(1, 10, 10, 1000, TouchPhase::Began),
            finger(1, 60, 10, 1050, TouchPhase::Moved),
            finger(1, 60, 10, 1060, TouchPhase::Ended),
        ],
    );
    assert_eq!(intents, vec![InputIntent::DragDelta { delta: Delta { dx: 50, dy: 0 } }]);
    assert_eq!(drag_sum(&intents), (50, 0));
    assert!(!intents.iter().any(|i| matches!(i, InputIntent::Click { .. })));
    assert_eq!(m.current(), Gesture::Idle);
}

#[test]
fn drag_in_several_steps_sums_to_the_displacement() {
    let mut m = machine();
    let intents = feed(
        &mut m,
        &[
            finger(1, 0, 0, 1000, TouchPhase::Began),
            finger(1, 5, 0, 1010, TouchPhase::Moved),
            finger(1, 20, 0, 1020, TouchPhase::Moved),
            finger(1, 20, 0, 1030, TouchPhase::Moved),
            finger(1, 35, -5, 1040, TouchPhase::Moved),
            finger(1, 50, 0, 1050, TouchPhase::Moved),
            finger(1, 50, 0, 1060, TouchPhase::Ended),
        ],
    );
    assert_eq!(
        intents,
        vec![
            InputIntent::DragDelta { delta: Delta { dx: 20, dy: 0 } },
            InputIntent::DragDelta { delta: Delta { dx: 15, dy: -5 } },
            InputIntent::DragDelta { delta: Delta { dx: 15, dy: 5 } },
        ]
    );
    assert_eq!(drag_sum(&intents), (50, 0));
}

#[test]
fn drag_across_the_whole_coordinate_range_does_not_overflow() {
    let mut m = machine();
    let intents = feed(
        &mut m,
        &[
            finger(1, i32::MIN, i32::MIN, 0, TouchPhase::Began),
            finger(1, i32::MAX, i32::MAX, 1, TouchPhase::Moved),
        ],
    );
    assert_eq!(
        intents,
        vec![InputIntent::DragDelta { delta: Delta { dx: 4_294_967_295, dy: 4_294_967_295 } }]
    );
}

#[test]
fn pinch_to_twice_the_distance_zooms_by_two() {
    let mut m = machine();
    let intents = feed(
        &mut m,
        &[
            finger(1, 100, 100, 1000, TouchPhase::Began),
            finger(2, 200, 100, 1001, TouchPhase::Began),
            finger(1, 50, 100, 1010, TouchPhase::Moved),
            finger(2, 250, 100, 1011, TouchPhase::Moved),
        ],
    );
    let mut scale = 1.0f64;
    for i in &intents {
        match i {
            InputIntent::ZoomDelta { new_distance, old_distance, .. } => {
                assert!(*old_distance > 0);
                scale *= *new_distance as f64 / *old_distance as f64;
            }
            other => panic!("unexpected intent {:?}", other),
        }
    }
    assert!((scale - 2.0).abs() < 1e-9);
    assert_eq!(
        intents,
        vec![InputIntent::ZoomDelta { new_distance: 200, old_distance: 100, center: p(150, 100) }]
    );
    assert!(matches!(m.current(), Gesture::TrackingPinch { .. }));
}

#[test]
fn pinch_in_one_move_carries_the_ratio_two() {
    let mut m = machine();
    let intents = feed(
        &mut m,
        &[
            finger(1, 0, 0, 1000, TouchPhase::Began),
            finger(2, 30, 40, 1001, TouchPhase::Began),
            finger(2, 60, 80, 1010, TouchPhase::Moved),
            finger(1, 0, 0, 1010, TouchPhase::Moved),
        ],
    );
    assert_eq!(
        intents,
        vec![InputIntent::ZoomDelta { new_distance: 100, old_distance: 50, center: p(30, 40) }]
    );
}

#[test]
fn pinch_below_threshold_yields_nothing() {
    let mut m = machine();
    let intents = feed(
        &mut m,
        &[
            finger(1, 0, 0, 1000, TouchPhase::Began),
            finger(2, 100, 0, 1001, TouchPhase::Began),
            finger(2, 108, 0, 1010, TouchPhase::Moved),
            finger(1, 0, 0, 1010, TouchPhase::Moved),
        ],
    );
    assert_eq!(intents, vec![]);
    assert_eq!(
        m.current(),
        Gesture::TrackingTwoFinger {
            first: Track { id: 1, anchor: p(0, 0), pos: p(0, 0) },
            second: Track { id: 2, anchor: p(100, 0), pos: p(108, 0) },
            waiting: Waiting::ForBoth,
        }
    );
}

#[test]
fn pinch_inwards_zooms_out() {
    let mut m = machine();
    let intents = feed(
        &mut m,
        &[
            finger(1, 0, 0, 1000, TouchPhase::Began),
            finger(2, 100, 0, 1001, TouchPhase::Began),
            finger(1, 0, 0, 1010, TouchPhase::Moved),
            finger(2, 50, 0, 1010, TouchPhase::Moved),
            finger(2, 49, 0, 1020, TouchPhase::Moved),
            finger(2, 49, 0, 1030, TouchPhase::Moved),
        ],
    );
    assert_eq!(
        intents,
        vec![
            InputIntent::ZoomDelta { new_distance: 50, old_distance: 100, center: p(25, 0) },
            InputIntent::ZoomDelta { new_distance: 49, old_distance: 50, center: p(24, 0) },
        ]
    );
}

#[test]
fn fingers_that_meet_yield_no_zoom_of_zero() {
    let mut m = machine();
    let intents = feed(
        &mut m,
        &[
            finger(1, 0, 0, 1000, TouchPhase::Began),
            finger(2, 100, 0, 1001, TouchPhase::Began),
            finger(2, 0, 0, 1010, TouchPhase::Moved),
            finger(1, 0, 0, 1010, TouchPhase::Moved),
        ],
    );
    assert_eq!(intents, vec![]);
}

#[test]
fn fingers_that_begin_on_one_spot_take_their_first_spread_as_baseline() {
    let mut m = machine();
    let intents = feed(
        &mut m,
        &[
            finger(1, 0, 0, 1000, TouchPhase::Began),
            finger(2, 0, 0, 1001, TouchPhase::Began),
            finger(1, 0, 0, 1010, TouchPhase::Moved),
            finger(2, 40, 0, 1010, TouchPhase::Moved),
            finger(1, 0, 0, 1020, TouchPhase::Moved),
            finger(2, 80, 0, 1020, TouchPhase::Moved),
        ],
    );
    assert_eq!(
        intents,
        vec![InputIntent::ZoomDelta { new_distance: 80, old_distance: 40, center: p(40, 0) }]
    );
}

#[test]
fn two_fingers_moving_together_scroll() {
    let mut m = machine();
    let intents = feed(
        &mut m,
        &[
            finger(1, 0, 0, 1000, TouchPhase::Began),
            finger(2, 100, 0, 1001, TouchPhase::Began),
            finger(1, 0, 30, 1010, TouchPhase::Moved),
            finger(2, 100, 30, 1011, TouchPhase::Moved),
            finger(1, 0, 40, 1020, TouchPhase::Moved),
            finger(2, 100, 40, 1021, TouchPhase::Moved),
        ],
    );
    assert_eq!(
        intents,
        vec![
            InputIntent::ScrollDelta { delta: Delta { dx: 0, dy: 30 } },
            InputIntent::ScrollDelta { delta: Delta { dx: 0, dy: 5 } },
            InputIntent::ScrollDelta { delta: Delta { dx: 0, dy: 5 } },
        ]
    );
    assert!(matches!(m.current(), Gesture::TrackingScroll { .. }));
}

#[test]
fn one_finger_moving_beside_a_resting_one_is_no_scroll() {
    let mut m = machine();
    let intents = feed(
        &mut m,
        &[
            finger(1, 0, 0, 1000, TouchPhase::Began),
            finger(2, 1000, 0, 1001, TouchPhase::Began),
            finger(1, 0, 30, 1010, TouchPhase::Moved),
            finger(2, 1000, 0, 1010, TouchPhase::Moved),
        ],
    );
    assert_eq!(intents, vec![]);
    assert!(matches!(m.current(), Gesture::TrackingTwoFinger { .. }));
}

#[test]
fn scroll_rounds_the_mean_towards_zero() {
    let mut m = machine();
    let intents = feed(
        &mut m,
        &[
            finger(1, 0, 0, 1000, TouchPhase::Began),
            finger(2, 100, 0, 1001, TouchPhase::Began),
            finger(1, 0, -30, 1010, TouchPhase::Moved),
            finger(2, 100, -31, 1011, TouchPhase::Moved),
            finger(1, 0, -31, 1012, TouchPhase::Moved),
            finger(1, 0, -33, 1013, TouchPhase::Moved),
        ],
    );
    assert_eq!(
        intents,
        vec![
            InputIntent::ScrollDelta { delta: Delta { dx: 0, dy: -30 } },
            InputIntent::ScrollDelta { delta: Delta { dx: 0, dy: -1 } },
        ]
    );
}

#[test]
fn second_finger_supersedes_a_drag() {
    let mut m = machine();
    let intents = feed(
        &mut m,
        &[
            finger(1, 0, 0, 1000, TouchPhase::Began),
            finger(1, 20, 0, 1010, TouchPhase::Moved),
            finger(2, 100, 0, 1020, TouchPhase::Began),
        ],
    );
    assert_eq!(intents, vec![InputIntent::DragDelta { delta: Delta { dx: 20, dy: 0 } }]);
    assert_eq!(
        m.current(),
        Gesture::TrackingTwoFinger {
            first: Track { id: 1, anchor: p(20, 0), pos: p(20, 0) },
            second: Track { id: 2, anchor: p(100, 0), pos: p(100, 0) },
            waiting: Waiting::ForBoth,
        }
    );
    assert_eq!(m.current().active_touches(), vec![1, 2]);
}

#[test]
fn lifting_one_of_two_fingers_leaves_a_drag_and_no_click() {
    let mut m = machine();
    let intents = feed(
        &mut m,
        &[
            finger(1, 0, 0, 1000, TouchPhase::Began),
            finger(2, 100, 0, 1001, TouchPhase::Began),
            finger(1, 0, 0, 1010, TouchPhase::Ended),
            finger(2, 100, 7, 1020, TouchPhase::Moved),
            finger(2, 100, 7, 1030, TouchPhase::Ended),
        ],
    );
    assert_eq!(intents, vec![InputIntent::DragDelta { delta: Delta { dx: 0, dy: 7 } }]);
    assert_eq!(m.current(), Gesture::Idle);
}

#[test]
fn third_finger_is_not_tracked() {
    let mut m = machine();
    feed(
        &mut m,
        &[finger(1, 0, 0, 1000, TouchPhase::Began), finger(2, 100, 0, 1001, TouchPhase::Began)],
    );
    let before = m.current();
    assert_eq!(m.handle_touch(&finger(3, 50, 50, 1002, TouchPhase::Began)), Ok(vec![]));
    assert_eq!(m.current(), before);
    assert_eq!(
        m.handle_touch(&finger(3, 60, 60, 1003, TouchPhase::Moved)),
        Err(CoreError::UnknownTouchIdentity)
    );
    assert_eq!(m.current(), before);
}

#[test]
fn repeated_begin_of_an_active_touch_changes_nothing() {
    let mut m = machine();
    feed(&mut m, &[finger(1, 0, 0, 1000, TouchPhase::Began)]);
    let before = m.current();
    assert_eq!(m.handle_touch(&finger(1, 50, 50, 1500, TouchPhase::Began)), Ok(vec![]));
    assert_eq!(m.current(), before);
}

#[test]
fn ended_without_began_is_ignored() {
    let mut m = machine();
    assert_eq!(
        m.handle_touch(&finger(7, 0, 0, 1000, TouchPhase::Ended)),
        Err(CoreError::UnknownTouchIdentity)
    );
    assert_eq!(m.current(), Gesture::Idle);
    feed(&mut m, &[finger(1, 5, 5, 1000, TouchPhase::Began)]);
    let before = m.current();
    for phase in [TouchPhase::Moved, TouchPhase::Ended, TouchPhase::Cancelled] {
        assert_eq!(
            m.handle_touch(&finger(7, 500, 500, 1001, phase)),
            Err(CoreError::UnknownTouchIdentity)
        );
        assert_eq!(m.current(), before);
        assert_eq!(m.current().active_touches(), vec![1]);
    }
    // the tracked finger is unharmed
    assert_eq!(
        m.handle_touch(&finger(1, 5, 5, 1100, TouchPhase::Ended)),
        Ok(vec![InputIntent::Click { position: p(5, 5) }])
    );
}

#[test]
fn cancel_returns_to_idle_from_every_state() {
    let starts: Vec<Vec<TouchPoint>> = vec![
        vec![finger(1, 0, 0, 0, TouchPhase::Began)],
        vec![finger(1, 0, 0, 0, TouchPhase::Began), finger(1, 50, 0, 1, TouchPhase::Moved)],
        vec![finger(1, 0, 0, 0, TouchPhase::Began), finger(2, 100, 0, 1, TouchPhase::Began)],
        vec![
            finger(1, 0, 0, 0, TouchPhase::Began),
            finger(2, 100, 0, 1, TouchPhase::Began),
            finger(1, 0, 0, 2, TouchPhase::Moved),
            finger(2, 200, 0, 2, TouchPhase::Moved),
        ],
        vec![
            finger(1, 0, 0, 0, TouchPhase::Began),
            finger(2, 100, 0, 1, TouchPhase::Began),
            finger(1, 0, 30, 2, TouchPhase::Moved),
            finger(2, 100, 30, 3, TouchPhase::Moved),
        ],
        vec![pen(1, 0, 0, 0, TouchPhase::Began)],
    ];
    for start in starts {
        let mut m = machine();
        feed(&mut m, &start);
        assert!(!m.current().is_idle());
        assert_eq!(m.handle_touch(&finger(1, 0, 0, 9, TouchPhase::Cancelled)), Ok(vec![]));
        assert_eq!(m.current(), Gesture::Idle);
        assert!(m.current().active_touches().is_empty());
    }
}

#[test]
fn stylus_always_drags() {
    let mut m = machine();
    let intents = feed(
        &mut m,
        &[
            pen(9, 0, 0, 1000, TouchPhase::Began),
            pen(9, 1, 0, 1001, TouchPhase::Moved),
            pen(9, 1, 0, 1002, TouchPhase::Moved),
            pen(9, 3, -2, 1003, TouchPhase::Moved),
            pen(9, 3, -2, 1004, TouchPhase::Ended),
        ],
    );
    assert_eq!(
        intents,
        vec![
            InputIntent::DragDelta { delta: Delta { dx: 1, dy: 0 } },
            InputIntent::DragDelta { delta: Delta { dx: 2, dy: -2 } },
        ]
    );
    assert_eq!(m.current(), Gesture::Idle);
}

#[test]
fn stylus_and_fingers_do_not_mix() {
    let mut m = machine();
    feed(&mut m, &[pen(9, 0, 0, 1000, TouchPhase::Began)]);
    let before = m.current();
    assert_eq!(m.handle_touch(&finger(1, 50, 50, 1001, TouchPhase::Began)), Ok(vec![]));
    assert_eq!(m.current(), before);

    let mut m = machine();
    feed(&mut m, &[finger(1, 0, 0, 1000, TouchPhase::Began)]);
    let before = m.current();
    assert_eq!(m.handle_touch(&pen(9, 50, 50, 1001, TouchPhase::Began)), Ok(vec![]));
    assert_eq!(m.current(), before);
}

#[test]
fn reset_releases_every_touch() {
    let mut m = machine();
    feed(
        &mut m,
        &[finger(1, 0, 0, 1000, TouchPhase::Began), finger(2, 100, 0, 1001, TouchPhase::Began)],
    );
    m.reset();
    assert_eq!(m.current(), Gesture::Idle);
    assert_eq!(m.thresholds().move_threshold, 10);
}

#[test]
fn zero_thresholds_commit_at_once() {
    let mut m = GestureState::with_config(GestureConfig {
        move_threshold: 0,
        pinch_threshold: 0,
        tap_window_ms: 0,
    });
    let intents = feed(
        &mut m,
        &[finger(1, 0, 0, 5, TouchPhase::Began), finger(1, 0, 0, 5, TouchPhase::Ended)],
    );
    assert_eq!(intents, vec![InputIntent::Click { position: p(0, 0) }]);
    let intents = feed(
        &mut m,
        &[finger(1, 0, 0, 5, TouchPhase::Began), finger(1, 1, 0, 6, TouchPhase::Moved)],
    );
    assert_eq!(intents, vec![InputIntent::DragDelta { delta: Delta { dx: 1, dy: 0 } }]);
}

#[test]
fn integer_square_roots() {
    assert_eq!(isqrt(0), 0);
    assert_eq!(isqrt(1), 1);
    assert_eq!(isqrt(3), 1);
    assert_eq!(isqrt(4), 2);
    assert_eq!(isqrt(24), 4);
    assert_eq!(isqrt(25), 5);
    assert_eq!(isqrt(1_000_000), 1000);
    assert_eq!(isqrt(999_999), 999);
    assert_eq!(isqrt(u64::MAX as u128), 4_294_967_295);
    assert_eq!(isqrt(1u128 << 64), 4_294_967_296);
    assert_eq!(isqrt(u128::MAX), u64::MAX);
}

#[test]
fn point_geometry() {
    assert_eq!(p(0, 0).distance_squared(&p(3, 4)), 25);
    assert_eq!(p(0, 0).distance(&p(3, 4)), 5);
    assert_eq!(p(0, 0).distance(&p(1, 1)), 1);
    assert_eq!(p(-3, -4).distance(&p(0, 0)), 5);
    assert_eq!(p(i32::MIN, i32::MIN).distance_squared(&p(i32::MAX, i32::MAX)), 2 * 4_294_967_295u128.pow(2));
    assert_eq!(p(i32::MIN, i32::MIN).distance(&p(i32::MAX, i32::MAX)), 6_074_000_998);
    assert_eq!(p(1, 2).delta_to(&p(4, -2)), Delta { dx: 3, dy: -4 });
    assert_eq!(p(0, 0).midpoint(&p(10, 4)), p(5, 2));
    assert_eq!(p(0, 0).midpoint(&p(1, 1)), p(0, 0));
    assert_eq!(p(-1, -1).midpoint(&p(0, 0)), p(-1, -1));
    assert_eq!(p(i32::MAX, i32::MIN).midpoint(&p(i32::MAX, i32::MIN)), p(i32::MAX, i32::MIN));
}

#[test]
fn delta_arithmetic() {
    let a = Delta { dx: 3, dy: -3 };
    let b = Delta { dx: 2, dy: -2 };
    assert_eq!(a.mean_with(&b), Delta { dx: 2, dy: -2 });
    assert_eq!(a.dot(&b), 12);
    assert_eq!(a.dot(&Delta { dx: -1, dy: 0 }), -3);
    assert_eq!(a.sum_length_squared(&b), 50);
    assert!(Delta { dx: 0, dy: 0 }.is_zero());
    assert!(!Delta { dx: 0, dy: 1 }.is_zero());
    assert_eq!(Delta { dx: -1, dy: 1 }.mean_with(&Delta { dx: 0, dy: 0 }), Delta { dx: 0, dy: 0 });
}

#[test]
fn parallel_moves_along_the_axis_scroll_in_either_order() {
    for order in [[1u64, 2], [2, 1]] {
        let mut m = machine();
        feed(
            &mut m,
            &[finger(1, 0, 0, 1000, TouchPhase::Began), finger(2, 100, 0, 1001, TouchPhase::Began)],
        );
        let place = |id: u64| if id == 1 { 12 } else { 112 };
        let first = m.handle_touch(&finger(order[0], place(order[0]), 0, 1010, TouchPhase::Moved));
        assert_eq!(first, Ok(vec![]));
        assert!(matches!(m.current(), Gesture::TrackingTwoFinger { .. }));
        let second = m.handle_touch(&finger(order[1], place(order[1]), 0, 1011, TouchPhase::Moved));
        assert_eq!(second, Ok(vec![InputIntent::ScrollDelta { delta: Delta { dx: 12, dy: 0 } }]));
        assert_eq!(
            m.current(),
            Gesture::TrackingScroll {
                first: Track { id: 1, anchor: p(12, 0), pos: p(12, 0) },
                second: Track { id: 2, anchor: p(112, 0), pos: p(112, 0) },
            }
        );
    }
}

#[test]
fn one_finger_alone_commits_nothing() {
    let mut m = machine();
    let intents = feed(
        &mut m,
        &[
            finger(1, 0, 0, 1000, TouchPhase::Began),
            finger(2, 100, 0, 1001, TouchPhase::Began),
            finger(2, 200, 0, 1010, TouchPhase::Moved),
            finger(2, 300, 50, 1020, TouchPhase::Moved),
        ],
    );
    assert_eq!(intents, vec![]);
    assert_eq!(
        m.current(),
        Gesture::TrackingTwoFinger {
            first: Track { id: 1, anchor: p(0, 0), pos: p(0, 0) },
            second: Track { id: 2, anchor: p(100, 0), pos: p(300, 50) },
            waiting: Waiting::ForFirst,
        }
    );
    // the other finger's sample completes the round, and the pair commits
    assert_eq!(
        m.handle_touch(&finger(1, 0, 0, 1030, TouchPhase::Moved)),
        Ok(vec![InputIntent::ZoomDelta {
            new_distance: 304,
            old_distance: 100,
            center: p(150, 25)
        }])
    );
}

#[test]
fn uncommitted_pair_is_compared_once_per_round() {
    let mut m = machine();
    // both fingers creep the same way in steps of nine: no round gives a pinch
    let intents = feed(
        &mut m,
        &[
            finger(1, 0, 0, 1000, TouchPhase::Began),
            finger(2, 100, 0, 1001, TouchPhase::Began),
            finger(1, 9, 0, 1010, TouchPhase::Moved),
            finger(2, 109, 0, 1011, TouchPhase::Moved),
            finger(1, 18, 0, 1020, TouchPhase::Moved),
            finger(2, 118, 0, 1021, TouchPhase::Moved),
        ],
    );
    assert_eq!(intents, vec![InputIntent::ScrollDelta { delta: Delta { dx: 18, dy: 0 } }]);
    assert!(matches!(m.current(), Gesture::TrackingScroll { .. }));
}
