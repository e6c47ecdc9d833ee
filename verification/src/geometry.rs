//! Cell rectangles.

use vstd::prelude::*;

verus! {

/// A rectangle of terminal cells.
#[derive(Debug, Clone, Copy, PartialEq, Eq, Structural, Default)]
pub struct Rect {
    pub x: u16,
    pub y: u16,
    pub width: u16,
    pub height: u16,
}

impl Rect {
    /// The cell `(x, y)` lies inside the rectangle.
    pub open spec fn has(self, x: int, y: int) -> bool {
        &&& self.x <= x < self.x + self.width
        &&& self.y <= y < self.y + self.height
    }

    pub fn contains(&self, x: u16, y: u16) -> (inside: bool)
        ensures
            inside == self.has(x as int, y as int),
    {
        self.x <= x && x - self.x < self.width && self.y <= y && y - self.y < self.height
    }

    /// The number of cells.
    pub open spec fn size(self) -> int {
        self.width * self.height
    }

    pub fn cells(&self) -> (cells: u32)
        ensures
            cells == self.size(),
    {
        let width: u32 = self.width as u32;
        let height: u32 = self.height as u32;
        assert(width * height <= 0xffff * 0xffff) by (nonlinear_arith)
            requires
                width <= 0xffff,
                height <= 0xffff,
        ;
        width * height
    }

    /// The far edges can be computed.
    pub open spec fn fits(self) -> bool {
        self.x + self.width <= u16::MAX && self.y + self.height <= u16::MAX
    }
}

} // verus!
