//! Keyboard input. Keys and text need no disambiguation: each sample is
//! passed through as one intent.

use vstd::prelude::*;

use crate::input::intent::InputIntent;

verus! {

/// The Unicode scalar values of the characters of a text, in order.
pub open spec fn codepoints_of(text: Seq<char>) -> Seq<u32> {
    text.map_values(|c: char| c as u32)
}

/// Passes entered text through as one `TextInput` intent that holds the
/// scalar value of every character of `s`, in order.
pub fn handle_text_input(s: &str) -> (intent: InputIntent)
    ensures
        intent matches InputIntent::TextInput { codepoints } && codepoints@ == codepoints_of(s@),
{
    let mut codepoints: Vec<u32> = Vec::new();
    for c in it: s.chars()
        invariant
            it.seq() == s@,
            codepoints@ == codepoints_of(s@.take(it.index() as int)),
    {
        codepoints.push(c as u32);
        assert(s@.take(it.index() + 1) =~= s@.take(it.index() as int).push(c));
        assert(codepoints@ =~= codepoints_of(s@.take(it.index() + 1)));
    }
    assert(s@.take(s@.len() as int) =~= s@);
    InputIntent::TextInput { codepoints }
}

/// Passes a key press or release through as one `KeyEvent` intent.
pub fn handle_keycode(code: u32, down: bool) -> (intent: InputIntent)
    ensures
        intent == (InputIntent::KeyEvent { keycode: code, down }),
{
    InputIntent::KeyEvent { keycode: code, down }
}

} // verus!
