//! Input handling: the gesture recognizer for touch, and the passthroughs
//! for keyboard, pointer and stylus.

use vstd::prelude::*;

pub use gesture::GestureState;

pub mod geometry;
pub mod gesture;
pub mod intent;
pub mod keyboard;
pub mod laws;
pub mod pencil;
pub mod pointer;
pub mod touch;

verus! {

} // verus!
