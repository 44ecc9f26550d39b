//! Mouse and trackpad input.
//!
//! A pointer device reports relative motion and button changes. It is
//! mapped onto the touch alphabet of the gesture recognizer: the pointer is
//! one finger with a reserved identity that touches the surface while the
//! primary button is held. Wheel deltas need no disambiguation and pass
//! through as scroll intents.

use vstd::prelude::*;

use crate::input::geometry::{Delta, Point};
use crate::input::intent::InputIntent;
use crate::input::touch::{TouchPhase, TouchPoint};

verus! {

/// The touch identity that stands for the pointer device.
pub const POINTER_TOUCH_ID: u64 = 0xFFFF_FFFF_FFFF_FFFF;

/// The button that acts as the finger.
pub const PRIMARY_BUTTON: u8 = 0;

/// Where the pointer is and whether its primary button is held.
#[derive(Clone, Copy, Debug, PartialEq, Eq, Structural)]
pub struct PointerState {
    pub position: Point,
    pub pressed: bool,
}

/// A coordinate moved by `by`, kept inside the range of coordinates.
pub open spec fn shifted(coordinate: i32, by: i32) -> i32 {
    if coordinate + by > i32::MAX {
        i32::MAX
    } else if coordinate + by < i32::MIN {
        i32::MIN
    } else {
        (coordinate + by) as i32
    }
}

/// The touch sample that the pointer gives in `phase`.
pub open spec fn pointer_sample(position: Point, timestamp: u64, phase: TouchPhase) -> TouchPoint {
    TouchPoint { id: POINTER_TOUCH_ID, position, timestamp, pressure: None, phase }
}

/// The pointer after it moved by (`dx`, `dy`).
pub open spec fn after_mouse_move(state: PointerState, dx: i32, dy: i32) -> PointerState {
    PointerState {
        position: Point { x: shifted(state.position.x, dx), y: shifted(state.position.y, dy) },
        pressed: state.pressed,
    }
}

/// Whether a change of `button` to `down` changes what the pointer touches.
pub open spec fn button_acts(state: PointerState, button: u8, down: bool) -> bool {
    button == PRIMARY_BUTTON && down != state.pressed
}

fn shift(coordinate: i32, by: i32) -> (moved: i32)
    ensures
        moved == shifted(coordinate, by),
{
    let sum: i64 = coordinate as i64 + by as i64;
    if sum > i32::MAX as i64 {
        i32::MAX
    } else if sum < i32::MIN as i64 {
        i32::MIN
    } else {
        sum as i32
    }
}

impl PointerState {
    /// A pointer at the origin with no button held.
    pub fn new() -> (state: PointerState)
        ensures
            state == (PointerState { position: Point { x: 0, y: 0 }, pressed: false }),
    {
        PointerState { position: Point { x: 0, y: 0 }, pressed: false }
    }

    /// A pointer at `position` with no button held.
    pub fn at(position: Point) -> (state: PointerState)
        ensures
            state == (PointerState { position, pressed: false }),
    {
        PointerState { position, pressed: false }
    }
}

/// Moves the pointer by (`dx`, `dy`), stopping at the edge of the coordinate
/// range. While the primary button is held this is a move of the pointer's
/// touch; otherwise the pointer hovers and there is no sample.
pub fn mouse_move(state: &mut PointerState, dx: i32, dy: i32, timestamp: u64) -> (sample: Option<
    TouchPoint,
>)
    ensures
        *final(state) == after_mouse_move(*old(state), dx, dy),
        sample == (if old(state).pressed {
            Some(pointer_sample(final(state).position, timestamp, TouchPhase::Moved))
        } else {
            None
        }),
{
    state.position = Point { x: shift(state.position.x, dx), y: shift(state.position.y, dy) };
    if state.pressed {
        Some(
            TouchPoint {
                id: POINTER_TOUCH_ID,
                position: state.position,
                timestamp,
                pressure: None,
                phase: TouchPhase::Moved,
            },
        )
    } else {
        None
    }
}

/// Takes a button change. Pressing the primary button begins the pointer's
/// touch where the pointer is, and releasing it lifts that touch. Other
/// buttons, and changes that repeat what is already so, give no sample and
/// change nothing.
pub fn mouse_button(state: &mut PointerState, button: u8, down: bool, timestamp: u64) -> (sample:
    Option<TouchPoint>)
    ensures
        final(state).position == old(state).position,
        final(state).pressed == (if button == PRIMARY_BUTTON {
            down
        } else {
            old(state).pressed
        }),
        sample == (if button_acts(*old(state), button, down) {
            Some(
                pointer_sample(
                    old(state).position,
                    timestamp,
                    if down {
                        TouchPhase::Began
                    } else {
                        TouchPhase::Ended
                    },
                ),
            )
        } else {
            None
        }),
{
    if button != PRIMARY_BUTTON || down == state.pressed {
        return None;
    }
    state.pressed = down;
    let phase = if down {
        TouchPhase::Began
    } else {
        TouchPhase::Ended
    };
    Some(
        TouchPoint {
            id: POINTER_TOUCH_ID,
            position: state.position,
            timestamp,
            pressure: None,
            phase,
        },
    )
}

/// Passes a wheel or trackpad scroll through as one `ScrollDelta` intent.
pub fn scroll(dx: i32, dy: i32) -> (intent: InputIntent)
    ensures
        intent == (InputIntent::ScrollDelta { delta: Delta { dx: dx as i64, dy: dy as i64 } }),
{
    InputIntent::ScrollDelta { delta: Delta { dx: dx as i64, dy: dy as i64 } }
}

} // verus!
