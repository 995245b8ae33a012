use vstd::prelude::*;

verus! {

/// One of the four axis-aligned directions an entity can face or move in.
#[derive(Clone, Copy, Debug, PartialEq, Eq, Structural)]
pub enum Direction {
    Up,
    Down,
    Left,
    Right,
}

impl Direction {
    /// Horizontal component of this direction's unit vector.
    pub open spec fn spec_dx(self) -> int {
        match self {
            Direction::Up => 0,
            Direction::Down => 0,
            Direction::Left => -1,
            Direction::Right => 1,
        }
    }

    /// Vertical component of this direction's unit vector.
    ///
    /// The vertical axis grows downward, as in screen coordinates.
    pub open spec fn spec_dy(self) -> int {
        match self {
            Direction::Up => -1,
            Direction::Down => 1,
            Direction::Left => 0,
            Direction::Right => 0,
        }
    }

    /// The unit vector pointing in this direction.
    pub fn into_point(self) -> (p: crate::geometry::Point)
        ensures
            p.x == self.spec_dx(),
            p.y == self.spec_dy(),
    {
        match self {
            Direction::Up => crate::geometry::Point { x: 0, y: -1 },
            Direction::Down => crate::geometry::Point { x: 0, y: 1 },
            Direction::Left => crate::geometry::Point { x: -1, y: 0 },
            Direction::Right => crate::geometry::Point { x: 1, y: 0 },
        }
    }
}

} // verus!
