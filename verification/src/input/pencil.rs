//! Stylus input.
//!
//! A stylus reports where it is and how hard it presses. It is mapped onto
//! the touch alphabet of the gesture recognizer as one touch with a reserved
//! identity that carries its pressure: the recognizer gives such a touch a
//! track of its own.

use vstd::prelude::*;

use crate::input::geometry::Point;
use crate::input::touch::{TouchPhase, TouchPoint};

verus! {

/// The touch identity that stands for the stylus.
pub const STYLUS_TOUCH_ID: u64 = 0xFFFF_FFFF_FFFF_FFFE;

/// Whether the stylus is on the surface.
#[derive(Clone, Copy, Debug, PartialEq, Eq, Structural)]
pub struct StylusState {
    pub in_contact: bool,
}

/// The touch sample that the stylus gives in `phase`.
pub open spec fn stylus_sample(
    position: Point,
    pressure: u32,
    timestamp: u64,
    phase: TouchPhase,
) -> TouchPoint {
    TouchPoint { id: STYLUS_TOUCH_ID, position, timestamp, pressure: Some(pressure), phase }
}

/// The sample that a stylus report gives, if any: a stylus that presses
/// begins or moves its touch, one that no longer presses lifts it, and one
/// that hovers gives nothing.
pub open spec fn stylus_report(
    state: StylusState,
    position: Point,
    pressure: u32,
    timestamp: u64,
) -> Option<TouchPoint> {
    if pressure > 0 {
        Some(
            stylus_sample(
                position,
                pressure,
                timestamp,
                if state.in_contact {
                    TouchPhase::Moved
                } else {
                    TouchPhase::Began
                },
            ),
        )
    } else if state.in_contact {
        Some(stylus_sample(position, pressure, timestamp, TouchPhase::Ended))
    } else {
        None
    }
}

impl StylusState {
    /// A stylus that is off the surface.
    pub fn new() -> (state: StylusState)
        ensures
            state == (StylusState { in_contact: false }),
    {
        StylusState { in_contact: false }
    }
}

/// Takes one report of the stylus at (`x`, `y`) pressing with `pressure`,
/// and gives the touch sample it amounts to. The stylus is in contact
/// afterwards exactly if it presses.
pub fn stylus_event(
    state: &mut StylusState,
    x: i32,
    y: i32,
    pressure: u32,
    timestamp: u64,
) -> (sample: Option<TouchPoint>)
    ensures
        final(state).in_contact == (pressure > 0),
        sample == stylus_report(*old(state), Point { x, y }, pressure, timestamp),
{
    let position = Point { x, y };
    let was_in_contact = state.in_contact;
    state.in_contact = pressure > 0;
    if pressure > 0 {
        let phase = if was_in_contact {
            TouchPhase::Moved
        } else {
            TouchPhase::Began
        };
        Some(
            TouchPoint {
                id: STYLUS_TOUCH_ID,
                position,
                timestamp,
                pressure: Some(pressure),
                phase,
            },
        )
    } else if was_in_contact {
        Some(
            TouchPoint {
                id: STYLUS_TOUCH_ID,
                position,
                timestamp,
                pressure: Some(pressure),
                phase: TouchPhase::Ended,
            },
        )
    } else {
        None
    }
}

} // verus!
