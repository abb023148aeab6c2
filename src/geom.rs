use vstd::prelude::*;

verus! {

/// A pixel coordinate (column `x`, row `y`).
#[derive(Clone, Copy, Debug, PartialEq, Eq, Structural)]
pub struct Vec2u {
    pub x: usize,
    pub y: usize,
}

/// A width and height in pixels.
#[derive(Clone, Copy, Debug, PartialEq, Eq, Structural)]
pub struct Extent2u {
    pub w: usize,
    pub h: usize,
}

/// A half-open pixel rectangle: `min` is inside, `max` is one past the last
/// column and row.
#[derive(Clone, Copy, Debug, PartialEq, Eq, Structural)]
pub struct Aabru {
    pub min: Vec2u,
    pub max: Vec2u,
}

impl Vec2u {
    pub fn new(x: usize, y: usize) -> (r: Vec2u)
        ensures
            r.x == x,
            r.y == y,
    {
        Vec2u { x, y }
    }
}

impl Extent2u {
    pub fn new(w: usize, h: usize) -> (r: Extent2u)
        ensures
            r.w == w,
            r.h == h,
    {
        Extent2u { w, h }
    }

    /// Number of pixels covered.
    pub open spec fn area(self) -> int {
        self.w * self.h
    }
}

impl Aabru {
    /// `min` does not lie past `max` on either axis.
    pub open spec fn wf(self) -> bool {
        self.min.x <= self.max.x && self.min.y <= self.max.y
    }

    pub open spec fn spec_size(self) -> Extent2u {
        Extent2u { w: (self.max.x - self.min.x) as usize, h: (self.max.y - self.min.y) as usize }
    }

    /// Whether pixel `(x, y)` lies in the rectangle.
    pub open spec fn contains(self, x: int, y: int) -> bool {
        self.min.x <= x < self.max.x && self.min.y <= y < self.max.y
    }

    /// The rectangle's width and height.
    pub fn size(&self) -> (r: Extent2u)
        requires
            self.wf(),
        ensures
            r == self.spec_size(),
    {
        Extent2u { w: self.max.x - self.min.x, h: self.max.y - self.min.y }
    }
}

} // verus!
