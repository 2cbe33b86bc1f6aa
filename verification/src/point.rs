use vstd::prelude::*;

verus! {

/// A Point value is just a named struct for a location within the 2D space
/// that roguelikes take place within.
#[derive(Debug, PartialEq, Eq, Structural, PartialOrd, Ord, Clone, Copy, Hash)]
pub struct Point {
    /// The x coordinate.
    pub x: i32,
    /// The y coordinate.
    pub y: i32,
}

impl Point {
    /// Constructs a new Point with the x and y coordinates specified.
    pub fn new(nx: i32, ny: i32) -> (p: Point)
        ensures
            p == (Point { x: nx, y: ny }),
    {
        Point { x: nx, y: ny }
    }

    /// Produces the point that is offset from this point by the delta x and
    /// delta y values specified.
    pub fn offset(self, dx: i32, dy: i32) -> (p: Point)
        requires
            i32::MIN <= self.x + dx <= i32::MAX,
            i32::MIN <= self.y + dy <= i32::MAX,
        ensures
            p == (Point { x: (self.x + dx) as i32, y: (self.y + dy) as i32 }),
    {
        Point { x: self.x + dx, y: self.y + dy }
    }

    /// The x coordinate of the Point.
    pub fn x(self) -> (r: i32)
        ensures
            r == self.x,
    {
        self.x
    }

    /// The y coordinate of the Point.
    pub fn y(self) -> (r: i32)
        ensures
            r == self.y,
    {
        self.y
    }
}

} // verus!
