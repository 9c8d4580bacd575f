//! Points, sizes and rectangles in the logical coordinate space.
//!
//! Coordinates are kept within `MAX_EXTENT` of the origin so that the
//! arithmetic of centers, borders and layout never overflows `i32`.

use vstd::prelude::*;

verus! {

/// Largest magnitude a coordinate or an edge length may have.
pub const MAX_EXTENT: i32 = 1048576;

#[derive(Clone, Copy, PartialEq, Eq, Structural, Debug)]
pub struct Point {
    pub x: i32,
    pub y: i32,
}

#[derive(Clone, Copy, PartialEq, Eq, Structural, Debug)]
pub struct Size {
    pub w: i32,
    pub h: i32,
}

#[derive(Clone, Copy, PartialEq, Eq, Structural, Debug)]
pub struct Rect {
    pub loc: Point,
    pub size: Size,
}

impl Point {
    pub open spec fn wf(self) -> bool {
        &&& -MAX_EXTENT <= self.x <= MAX_EXTENT
        &&& -MAX_EXTENT <= self.y <= MAX_EXTENT
    }

    pub fn new(x: i32, y: i32) -> (r: Point)
        ensures
            r.x == x,
            r.y == y,
    {
        Point { x, y }
    }
}

impl Size {
    pub open spec fn wf(self) -> bool {
        &&& 0 <= self.w <= MAX_EXTENT
        &&& 0 <= self.h <= MAX_EXTENT
    }

    pub fn new(w: i32, h: i32) -> (r: Size)
        ensures
            r.w == w,
            r.h == h,
    {
        Size { w, h }
    }
}

impl Rect {
    pub open spec fn wf(self) -> bool {
        &&& self.loc.wf()
        &&& self.size.wf()
    }

    /// Area as an unbounded integer, so sums of areas need no overflow care.
    pub open spec fn spec_area(self) -> int {
        self.size.w * self.size.h
    }

    pub open spec fn spec_center(self) -> Point {
        Point {
            x: (self.loc.x + self.size.w / 2) as i32,
            y: (self.loc.y + self.size.h / 2) as i32,
        }
    }

    pub open spec fn spec_contains(self, p: Point) -> bool {
        &&& self.loc.x <= p.x < self.loc.x + self.size.w
        &&& self.loc.y <= p.y < self.loc.y + self.size.h
    }

    pub fn new(x: i32, y: i32, w: i32, h: i32) -> (r: Rect)
        ensures
            r == (Rect { loc: Point { x, y }, size: Size { w, h } }),
    {
        Rect { loc: Point { x, y }, size: Size { w, h } }
    }

    /// Center of the rectangle, rounded towards the origin edge.
    pub fn center(&self) -> (r: Point)
        requires
            self.wf(),
        ensures
            r == self.spec_center(),
    {
        Point { x: self.loc.x + self.size.w / 2, y: self.loc.y + self.size.h / 2 }
    }

    pub fn contains(&self, p: Point) -> (r: bool)
        requires
            i32::MIN <= self.loc.x + self.size.w <= i32::MAX,
            i32::MIN <= self.loc.y + self.size.h <= i32::MAX,
        ensures
            r == self.spec_contains(p),
    {
        self.loc.x <= p.x && p.x < self.loc.x + self.size.w && self.loc.y <= p.y && p.y
            < self.loc.y + self.size.h
    }

    /// The rectangle grown by `t` on every side, as a window border is.
    pub open spec fn spec_expand(self, t: i32) -> Rect {
        Rect {
            loc: Point { x: (self.loc.x - t) as i32, y: (self.loc.y - t) as i32 },
            size: Size { w: (self.size.w + 2 * t) as i32, h: (self.size.h + 2 * t) as i32 },
        }
    }

    pub fn expand(&self, t: i32) -> (r: Rect)
        requires
            self.wf(),
            0 <= t <= MAX_EXTENT,
        ensures
            r == self.spec_expand(t),
    {
        Rect {
            loc: Point { x: self.loc.x - t, y: self.loc.y - t },
            size: Size { w: self.size.w + 2 * t, h: self.size.h + 2 * t },
        }
    }
}

/// Keep a pointer position on the output: each coordinate clamped between
/// zero and the output's extent.
pub fn clamp_coords(pos: Point, max: Size) -> (r: Point)
    requires
        max.wf(),
    ensures
        r.x == (if pos.x < 0 {
            0int
        } else if pos.x > max.w {
            max.w as int
        } else {
            pos.x as int
        }),
        r.y == (if pos.y < 0 {
            0int
        } else if pos.y > max.h {
            max.h as int
        } else {
            pos.y as int
        }),
        r.wf(),
{
    let x = if pos.x < 0 {
        0
    } else if pos.x > max.w {
        max.w
    } else {
        pos.x
    };
    let y = if pos.y < 0 {
        0
    } else if pos.y > max.h {
        max.h
    } else {
        pos.y
    };
    Point { x, y }
}

} // verus!
