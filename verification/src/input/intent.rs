//! Input intents: the discrete actions that the remote session receives.

use vstd::prelude::*;

use crate::input::geometry::{Delta, Point};

verus! {

/// One recognized user action.
#[derive(Debug, PartialEq, Eq)]
pub enum InputIntent {
    /// A click at `position`.
    Click { position: Point },
    /// Scroll by `delta`.
    ScrollDelta { delta: Delta },
    /// Zoom about `center` by the factor `new_distance / old_distance`;
    /// `old_distance` is never zero.
    ZoomDelta { new_distance: u64, old_distance: u64, center: Point },
    /// Drag by `delta`.
    DragDelta { delta: Delta },
    /// A key went down or up.
    KeyEvent { keycode: u32, down: bool },
    /// Text was entered; one Unicode scalar value per character.
    TextInput { codepoints: Vec<u32> },
}

impl InputIntent {
    /// Whether `other` says the same as `self`: the same intent, with text of
    /// the same scalar values.
    pub open spec fn same_as(self, other: InputIntent) -> bool {
        match self {
            InputIntent::TextInput { codepoints } => other matches InputIntent::TextInput {
                codepoints: others,
            } && others@ == codepoints@,
            _ => other == self,
        }
    }
}

impl Clone for InputIntent {
    fn clone(&self) -> (copy: InputIntent)
        ensures
            self.same_as(copy),
    {
        match self {
            InputIntent::Click { position } => InputIntent::Click { position: *position },
            InputIntent::ScrollDelta { delta } => InputIntent::ScrollDelta { delta: *delta },
            InputIntent::ZoomDelta { new_distance, old_distance, center } => InputIntent::ZoomDelta {
                new_distance: *new_distance,
                old_distance: *old_distance,
                center: *center,
            },
            InputIntent::DragDelta { delta } => InputIntent::DragDelta { delta: *delta },
            InputIntent::KeyEvent { keycode, down } => InputIntent::KeyEvent {
                keycode: *keycode,
                down: *down,
            },
            InputIntent::TextInput { codepoints } => {
                let copied = codepoints.clone();
                assert(copied@ =~= codepoints@);
                InputIntent::TextInput { codepoints: copied }
            },
        }
    }
}

} // verus!
