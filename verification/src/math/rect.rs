use vstd::prelude::*;

verus! {

/// A point of the grid, or any other pair of unsigned coordinates.
#[derive(Clone, Copy, Debug, PartialEq, Eq, Structural)]
pub struct UVec2 {
    pub x: u32,
    pub y: u32,
}

impl UVec2 {
    pub fn new(x: u32, y: u32) -> (v: Self)
        ensures
            v == (UVec2 { x, y }),
    {
        UVec2 { x, y }
    }
}

/// An axis-aligned rectangle of grid cells; both corners belong to it.
#[derive(Clone, Copy, Debug, PartialEq, Eq, Structural)]
pub struct WRect {
    pub min: UVec2,
    pub max: UVec2,
}

impl WRect {
    /// The rectangle's corners are in order: it holds at least one cell.
    pub open spec fn is_ordered(self) -> bool {
        self.min.x <= self.max.x && self.min.y <= self.max.y
    }

    /// The cell in the middle of the rectangle, rounded towards its minimum.
    pub open spec fn spec_center(self) -> UVec2 {
        UVec2 {
            x: ((self.min.x + self.max.x) / 2) as u32,
            y: ((self.min.y + self.max.y) / 2) as u32,
        }
    }

    /// Number of columns the rectangle covers.
    pub open spec fn spec_width(self) -> int {
        self.max.x - self.min.x + 1
    }

    /// Number of rows the rectangle covers.
    pub open spec fn spec_height(self) -> int {
        self.max.y - self.min.y + 1
    }

    /// x1 and y1 are part of the wall
    pub fn new(x0: u32, y0: u32, x1: u32, y1: u32) -> (r: Self)
        ensures
            r.min == (UVec2 { x: x0, y: y0 }),
            r.max == (UVec2 { x: x1, y: y1 }),
    {
        WRect { min: UVec2 { x: x0, y: y0 }, max: UVec2 { x: x1, y: y1 } }
    }

    pub fn center(&self) -> (c: UVec2)
        requires
            self.min.x + self.max.x <= u32::MAX,
            self.min.y + self.max.y <= u32::MAX,
        ensures
            c == self.spec_center(),
    {
        UVec2 { x: (self.min.x + self.max.x) / 2, y: (self.min.y + self.max.y) / 2 }
    }

    pub fn width(&self) -> (w: u32)
        requires
            self.min.x <= self.max.x,
            self.max.x - self.min.x < u32::MAX,
        ensures
            w == self.spec_width(),
    {
        self.max.x - self.min.x + 1
    }

    pub fn height(&self) -> (h: u32)
        requires
            self.min.y <= self.max.y,
            self.max.y - self.min.y < u32::MAX,
        ensures
            h == self.spec_height(),
    {
        self.max.y - self.min.y + 1
    }
}

/// The center of an ordered rectangle lies inside it.
pub proof fn lemma_center_inside(r: WRect)
    requires
        r.is_ordered(),
    ensures
        r.min.x <= r.spec_center().x <= r.max.x,
        r.min.y <= r.spec_center().y <= r.max.y,
{
}

} // verus!
