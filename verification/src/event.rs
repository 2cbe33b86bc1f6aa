use vstd::prelude::*;

verus! {

/// The four directions a movement order can take.
#[derive(Debug, PartialEq, Eq, Structural, Clone, Copy)]
pub enum Direction {
    Up,
    Down,
    Left,
    Right,
}

/// A game event distilled from raw input: a movement by a delta, or quit.
#[derive(Debug, PartialEq, Eq, Clone, Copy)]
pub enum Event {
    Movement((i32, i32)),
    Quit,
}

} // verus!
