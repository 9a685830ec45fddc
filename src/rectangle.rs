use vstd::prelude::*;

verus! {

/// An axis-aligned rectangle given by its upper left corner and its size.
#[derive(Copy, Clone, Debug, PartialEq, Eq, Structural)]
pub struct Rectangle {
    x: i32,
    y: i32,
    width: u32,
    height: u32,
}

impl Rectangle {
    /// Horizontal coordinate of the upper left corner.
    pub closed spec fn left(self) -> int {
        self.x as int
    }

    /// Vertical coordinate of the upper left corner.
    pub closed spec fn top(self) -> int {
        self.y as int
    }

    /// Horizontal coordinate of the right border: `x + width`.
    pub closed spec fn right_edge(self) -> int {
        self.x + self.width
    }

    /// Vertical coordinate of the bottom border: `y + height`.
    pub closed spec fn bottom_edge(self) -> int {
        self.y + self.height
    }

    /// Gets the x coordinate of the right hand border.
    fn right(&self) -> (r: i64)
        ensures
            r == self.right_edge(),
    {
        self.x as i64 + self.width as i64
    }

    /// Gets the y coordinate of the bottom border.
    fn bottom(&self) -> (r: i64)
        ensures
            r == self.bottom_edge(),
    {
        self.y as i64 + self.height as i64
    }

    /// Creates a new rectangle from its upper left corner and its size.
    pub fn new(x: i32, y: i32, width: u32, height: u32) -> (r: Rectangle)
        ensures
            r.left() == x,
            r.top() == y,
            r.right_edge() == x + width,
            r.bottom_edge() == y + height,
    {
        Rectangle { x, y, width, height }
    }

    /// Checks if the given point lies within the rectangle, borders included.
    pub fn is_inside(&self, x: i32, y: i32) -> (r: bool)
        ensures
            r == (self.left() <= x <= self.right_edge() && self.top() <= y <= self.bottom_edge()),
    {
        let horizontal = x >= self.x && x as i64 <= self.right();
        let vertical = y >= self.y && y as i64 <= self.bottom();
        horizontal && vertical
    }

    /// Checks if the two rectangles share an area of non-zero size.
    pub fn overlaps(&self, other: &Rectangle) -> (r: bool)
        ensures
            r == !(other.left() >= self.right_edge() || other.right_edge() <= self.left()
                || other.top() >= self.bottom_edge() || other.bottom_edge() <= self.top()),
    {
        !(other.x as i64 >= self.right() || other.right() <= self.x as i64 || other.y as i64
            >= self.bottom() || other.bottom() <= self.y as i64)
    }
}

} // verus!
