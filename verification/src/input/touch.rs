//! Raw touch samples, as the host delivers them.

use vstd::prelude::*;

use crate::input::geometry::Point;

verus! {

/// Where a touch stands in its life.
#[derive(Clone, Copy, Debug, PartialEq, Eq, Structural)]
pub enum TouchPhase {
    /// First contact.
    Began,
    /// The contact moved.
    Moved,
    /// The contact was lifted.
    Ended,
    /// The platform took the contact away.
    Cancelled,
}

/// One sample of one finger or stylus.
#[derive(Clone, Copy, Debug, PartialEq, Eq)]
pub struct TouchPoint {
    /// Stable for the whole life of the contact.
    pub id: u64,
    /// Where the contact is, in surface-local units.
    pub position: Point,
    /// When the sample was taken, in milliseconds of the host's clock.
    pub timestamp: u64,
    /// How hard a stylus presses; absent for a finger.
    pub pressure: Option<u32>,
    pub phase: TouchPhase,
}

impl TouchPoint {
    /// A sample of a finger.
    pub fn finger(id: u64, position: Point, timestamp: u64, phase: TouchPhase) -> (sample:
        TouchPoint)
        ensures
            sample == (TouchPoint { id, position, timestamp, pressure: None, phase }),
    {
        TouchPoint { id, position, timestamp, pressure: None, phase }
    }

    /// A sample of a stylus that presses with `pressure`.
    pub fn stylus(
        id: u64,
        position: Point,
        timestamp: u64,
        pressure: u32,
        phase: TouchPhase,
    ) -> (sample: TouchPoint)
        ensures
            sample == (TouchPoint { id, position, timestamp, pressure: Some(pressure), phase }),
    {
        TouchPoint { id, position, timestamp, pressure: Some(pressure), phase }
    }

    /// Whether the sample comes from a stylus.
    pub fn is_stylus(&self) -> (stylus: bool)
        ensures
            stylus == self.pressure is Some,
    {
        self.pressure.is_some()
    }
}

} // verus!
