use vstd::prelude::*;

use crate::event::Event;

verus! {

/// The event a pressed key stands for, if any.
pub open spec fn spec_handle_keys(user_input: char) -> Option<Event> {
    match user_input {
        'h' => Some(Event::Movement((-1i32, 0i32))),
        'j' => Some(Event::Movement((0i32, 1i32))),
        'k' => Some(Event::Movement((0i32, -1i32))),
        'l' => Some(Event::Movement((1i32, 0i32))),
        'q' => Some(Event::Quit),
        _ => None,
    }
}

/// Turns a pressed character key into the game event it orders: `hjkl` move
/// one cell, `q` quits, and any other key is ignored.
pub fn handle_keys(user_input: char) -> (e: Option<Event>)
    ensures
        e == spec_handle_keys(user_input),
{
    match user_input {
        'h' => Some(Event::Movement((-1, 0))),
        'j' => Some(Event::Movement((0, 1))),
        'k' => Some(Event::Movement((0, -1))),
        'l' => Some(Event::Movement((1, 0))),
        'q' => Some(Event::Quit),
        _ => None,
    }
}

} // verus!
