//! The error taxonomy shared by the cache and the gesture recognizer.

use vstd::prelude::*;

verus! {

/// Everything that can go wrong in the core.
///
/// Only `InvalidBudget` stops a caller from proceeding; the others describe
/// a request that was absorbed without changing what the core holds.
#[derive(Clone, Copy, Debug, PartialEq, Eq, Structural)]
pub enum CoreError {
    /// A single entry is larger than the limit of the tier it was offered to.
    CapacityExceeded,
    /// The host reported that a read or a write on the disk tier failed.
    IoFailure,
    /// A touch sample named an identity that is not being tracked.
    UnknownTouchIdentity,
    /// A cache budget with a zero limit.
    InvalidBudget,
}

impl CoreError {
    /// A short human-readable description, for hosts that log.
    pub fn message(&self) -> (text: &'static str)
        ensures
            text@ == (match *self {
                CoreError::CapacityExceeded => "entry larger than tier limit"@,
                CoreError::IoFailure => "disk tier i/o failed"@,
                CoreError::UnknownTouchIdentity => "unknown touch identity"@,
                CoreError::InvalidBudget => "cache limits must be positive"@,
            }),
    {
        match self {
            CoreError::CapacityExceeded => "entry larger than tier limit",
            CoreError::IoFailure => "disk tier i/o failed",
            CoreError::UnknownTouchIdentity => "unknown touch identity",
            CoreError::InvalidBudget => "cache limits must be positive",
        }
    }
}

} // verus!
