//! Interactive pointer grabs: moving and resizing a window with the mouse.
//!
//! While a grab is active the pointer's normal focus routing is suppressed
//! and every motion is turned into a new window rectangle here, bypassing
//! the layout engine.  A resize clamps both edges to a minimum length so
//! the geometry can never degenerate.

use vstd::prelude::*;

use crate::geometry::{Point, Rect, Size};

verus! {

/// The shortest edge a resize may leave, in logical units.
pub const MIN_RESIZE_EDGE: i32 = 100;

/// Which edge or corner of the window the resize drags.
#[derive(Clone, Copy, PartialEq, Eq, Structural, Debug)]
pub enum ResizeEdge {
    Left,
    Top,
    Right,
    Bottom,
    TopLeft,
    TopRight,
    BottomLeft,
    BottomRight,
}

/// Whether dragging this edge moves the window's origin along.
pub open spec fn spec_edge_moves_origin(edges: ResizeEdge) -> bool {
    match edges {
        ResizeEdge::Left | ResizeEdge::Top | ResizeEdge::TopLeft | ResizeEdge::BottomLeft => true,
        _ => false,
    }
}

/// Only a drag on a left or top edge relocates the window.
pub fn edge_moves_origin(edges: ResizeEdge) -> (r: bool)
    ensures
        r == spec_edge_moves_origin(edges),
{
    match edges {
        ResizeEdge::Left | ResizeEdge::Top | ResizeEdge::TopLeft | ResizeEdge::BottomLeft => true,
        _ => false,
    }
}

/// The rectangle a resize aims at before the minimum-edge clamp: the
/// dragged edges follow the pointer delta, the others stay.
pub open spec fn resize_target(start_geo: Rect, edges: ResizeEdge, dx: int, dy: int) -> Rect {
    let x = start_geo.loc.x as int;
    let y = start_geo.loc.y as int;
    let w = start_geo.size.w as int;
    let h = start_geo.size.h as int;
    let (nx, nw) = match edges {
        ResizeEdge::Left | ResizeEdge::TopLeft | ResizeEdge::BottomLeft => (x + dx, w - dx),
        ResizeEdge::Right | ResizeEdge::TopRight | ResizeEdge::BottomRight => (x, w + dx),
        _ => (x, w),
    };
    let (ny, nh) = match edges {
        ResizeEdge::Top | ResizeEdge::TopLeft | ResizeEdge::TopRight => (y + dy, h - dy),
        ResizeEdge::Bottom | ResizeEdge::BottomLeft | ResizeEdge::BottomRight => (y, h + dy),
        _ => (y, h),
    };
    Rect {
        loc: Point { x: nx as i32, y: ny as i32 },
        size: Size { w: nw as i32, h: nh as i32 },
    }
}

/// An interactive move: the pointer and window locations at grab start.
#[derive(Clone, Copy, PartialEq, Eq, Structural, Debug)]
pub struct MovePointerGrab {
    pub start_location: Point,
    pub window: u64,
    pub start_loc: Point,
}

impl MovePointerGrab {
    /// Where the window goes for the pointer at `location`: its start
    /// location shifted by how far the pointer travelled since grab start.
    pub fn motion(&self, location: Point) -> (r: Point)
        requires
            self.start_location.wf(),
            self.start_loc.wf(),
            location.wf(),
        ensures
            r.x == self.start_loc.x + (location.x - self.start_location.x),
            r.y == self.start_loc.y + (location.y - self.start_location.y),
    {
        let dx = location.x - self.start_location.x;
        let dy = location.y - self.start_location.y;
        Point { x: self.start_loc.x + dx, y: self.start_loc.y + dy }
    }
}

/// Where a window grabbed for a mouse move starts: centered under the
/// pointer.
pub fn move_grab_start_loc(pointer: Point, window_geo: Rect) -> (r: Point)
    requires
        pointer.wf(),
        window_geo.wf(),
    ensures
        r.x == pointer.x - window_geo.size.w / 2,
        r.y == pointer.y - window_geo.size.h / 2,
{
    Point { x: pointer.x - window_geo.size.w / 2, y: pointer.y - window_geo.size.h / 2 }
}

/// An interactive resize: the grab-start pointer location, the dragged
/// edges, the window's geometry at grab start, and the last size the
/// client was asked for.
#[derive(Clone, Copy, PartialEq, Eq, Structural, Debug)]
pub struct ResizePointerGrub {
    pub start_location: Point,
    pub window: u64,
    pub edges: ResizeEdge,
    pub start_geo: Rect,
    pub last_window_size: Size,
}

impl ResizePointerGrub {
    /// The location and size for the pointer at `location`: the dragged
    /// edges follow the pointer, and both edge lengths are clamped to the
    /// minimum.  The new size is remembered as the last one requested.
    pub fn motion(&mut self, location: Point) -> (r: (Point, Size))
        requires
            old(self).start_location.wf(),
            old(self).start_geo.wf(),
            location.wf(),
        ensures
            ({
                let target = resize_target(
                    old(self).start_geo,
                    old(self).edges,
                    location.x - old(self).start_location.x,
                    location.y - old(self).start_location.y,
                );
                &&& r.0 == target.loc
                &&& r.1.w == (if target.size.w >= MIN_RESIZE_EDGE {
                    target.size.w as int
                } else {
                    MIN_RESIZE_EDGE as int
                })
                &&& r.1.h == (if target.size.h >= MIN_RESIZE_EDGE {
                    target.size.h as int
                } else {
                    MIN_RESIZE_EDGE as int
                })
            }),
            r.1.w >= MIN_RESIZE_EDGE,
            r.1.h >= MIN_RESIZE_EDGE,
            final(self).last_window_size == r.1,
            final(self).start_location == old(self).start_location,
            final(self).window == old(self).window,
            final(self).edges == old(self).edges,
            final(self).start_geo == old(self).start_geo,
    {
        let dx = location.x - self.start_location.x;
        let dy = location.y - self.start_location.y;

        let mut new_loc = self.start_geo.loc;
        let mut new_size = self.start_geo.size;

        match self.edges {
            ResizeEdge::Left => {
                new_size.w = new_size.w - dx;
                new_loc.x = new_loc.x + dx;
            },
            ResizeEdge::Top => {
                new_size.h = new_size.h - dy;
                new_loc.y = new_loc.y + dy;
            },
            ResizeEdge::Right => {
                new_size.w = new_size.w + dx;
            },
            ResizeEdge::Bottom => {
                new_size.h = new_size.h + dy;
            },
            ResizeEdge::TopRight => {
                new_size.h = new_size.h - dy;
                new_loc.y = new_loc.y + dy;
                new_size.w = new_size.w + dx;
            },
            ResizeEdge::TopLeft => {
                new_size.h = new_size.h - dy;
                new_loc.y = new_loc.y + dy;
                new_size.w = new_size.w - dx;
                new_loc.x = new_loc.x + dx;
            },
            ResizeEdge::BottomLeft => {
                new_size.h = new_size.h + dy;
                new_size.w = new_size.w - dx;
                new_loc.x = new_loc.x + dx;
            },
            ResizeEdge::BottomRight => {
                new_size.h = new_size.h + dy;
                new_size.w = new_size.w + dx;
            },
        }

        // Prevent zero or negative sizes.
        if new_size.w < MIN_RESIZE_EDGE {
            new_size.w = MIN_RESIZE_EDGE;
        }
        if new_size.h < MIN_RESIZE_EDGE {
            new_size.h = MIN_RESIZE_EDGE;
        }

        self.last_window_size = new_size;
        (new_loc, new_size)
    }
}

/// A grab ends on a button event once no grab-initiating buttons remain
/// pressed.
pub fn grab_ends(pressed_buttons: usize) -> (r: bool)
    ensures
        r == (pressed_buttons == 0),
{
    pressed_buttons == 0
}

} // verus!
