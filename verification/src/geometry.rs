use vstd::prelude::*;

verus! {

/// A point in world or screen coordinates.
#[derive(Clone, Copy, Debug, PartialEq, Eq, Structural)]
pub struct Point {
    pub x: i32,
    pub y: i32,
}

/// An axis-aligned rectangle; `x` and `y` are its top-left corner.
///
/// The center-based helpers use truncating halves of the width and height, so
/// a round trip through `from_center` and `center` preserves the center point.
#[derive(Clone, Copy, Debug, PartialEq, Eq, Structural)]
pub struct Rect {
    pub x: i32,
    pub y: i32,
    pub width: u32,
    pub height: u32,
}

impl Rect {
    /// Center abscissa, as an unbounded integer.
    pub open spec fn spec_center_x(self) -> int {
        self.x + self.width / 2
    }

    /// Center ordinate, as an unbounded integer.
    pub open spec fn spec_center_y(self) -> int {
        self.y + self.height / 2
    }

    /// The rectangle of the given size whose center is `(cx, cy)`,
    /// as unbounded integers.
    pub open spec fn spec_from_center(cx: int, cy: int, width: u32, height: u32) -> Rect
        recommends
            i32::MIN <= cx - width / 2 <= i32::MAX,
            i32::MIN <= cy - height / 2 <= i32::MAX,
    {
        Rect {
            x: (cx - width / 2) as i32,
            y: (cy - height / 2) as i32,
            width,
            height,
        }
    }

    pub fn new(x: i32, y: i32, width: u32, height: u32) -> (r: Rect)
        ensures
            r == (Rect { x, y, width, height }),
    {
        Rect { x, y, width, height }
    }

    pub fn from_center(cx: i32, cy: i32, width: u32, height: u32) -> (r: Rect)
        requires
            i32::MIN <= cx - width / 2,
            i32::MIN <= cy - height / 2,
        ensures
            r == Rect::spec_from_center(cx as int, cy as int, width, height),
            r.spec_center_x() == cx,
            r.spec_center_y() == cy,
    {
        Rect {
            x: cx - (width / 2) as i32,
            y: cy - (height / 2) as i32,
            width,
            height,
        }
    }

    pub fn center(&self) -> (p: Point)
        requires
            self.spec_center_x() <= i32::MAX,
            self.spec_center_y() <= i32::MAX,
        ensures
            p.x == self.spec_center_x(),
            p.y == self.spec_center_y(),
    {
        Point {
            x: self.x + (self.width / 2) as i32,
            y: self.y + (self.height / 2) as i32,
        }
    }

    /// Moves the rectangle by the given amounts along each axis.
    pub fn offset(&mut self, dx: i32, dy: i32)
        requires
            i32::MIN <= old(self).x + dx <= i32::MAX,
            i32::MIN <= old(self).y + dy <= i32::MAX,
        ensures
            final(self).x == old(self).x + dx,
            final(self).y == old(self).y + dy,
            final(self).width == old(self).width,
            final(self).height == old(self).height,
    {
        self.x = self.x + dx;
        self.y = self.y + dy;
    }
}

} // verus!
