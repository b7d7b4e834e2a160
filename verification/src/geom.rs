//! Geometry primitives: coordinates, sizes and rectangles.

use vstd::prelude::*;

verus! {

/// An `(x, y)` position, in pixels from the window origin.
#[derive(Clone, Copy, Debug, PartialEq, Eq, Structural)]
pub struct Coord {
    pub x: i32,
    pub y: i32,
}

impl Coord {
    /// The origin.
    pub fn zero() -> (r: Coord)
        ensures
            r == (Coord { x: 0, y: 0 }),
    {
        Coord { x: 0, y: 0 }
    }
}

/// A two-dimensional extent. Components are non-negative by type.
#[derive(Clone, Copy, Debug, PartialEq, Eq, Structural)]
pub struct Size {
    pub w: u32,
    pub h: u32,
}

impl Size {
    /// The zero size.
    pub fn zero() -> (r: Size)
        ensures
            r == (Size { w: 0, h: 0 }),
    {
        Size { w: 0, h: 0 }
    }
}

/// A rectangular region: position of the top-left corner plus extent.
#[derive(Clone, Copy, Debug, PartialEq, Eq, Structural)]
pub struct Rect {
    pub pos: Coord,
    pub size: Size,
}

impl Rect {
    /// A rectangle is well formed when it lies in the window's
    /// coordinate quadrant and its far corner is still representable,
    /// so edge arithmetic cannot overflow.
    pub open spec fn wf(&self) -> bool {
        &&& 0 <= self.pos.x
        &&& 0 <= self.pos.y
        &&& self.pos.x + self.size.w <= i32::MAX
        &&& self.pos.y + self.size.h <= i32::MAX
    }

    /// Whether `coord` lies inside the rectangle.
    pub open spec fn contains_spec(&self, coord: Coord) -> bool {
        &&& self.pos.x <= coord.x < self.pos.x + self.size.w
        &&& self.pos.y <= coord.y < self.pos.y + self.size.h
    }

    /// The zero rectangle.
    pub fn zero() -> (r: Rect)
        ensures
            r == (Rect { pos: Coord { x: 0, y: 0 }, size: Size { w: 0, h: 0 } }),
            r.wf(),
    {
        Rect { pos: Coord { x: 0, y: 0 }, size: Size { w: 0, h: 0 } }
    }

    /// Hit test: is `coord` inside this rectangle?
    pub fn contains(&self, coord: Coord) -> (r: bool)
        ensures
            r == self.contains_spec(coord),
    {
        let dx: i64 = coord.x as i64 - self.pos.x as i64;
        let dy: i64 = coord.y as i64 - self.pos.y as i64;
        self.pos.x <= coord.x && dx < self.size.w as i64 && self.pos.y <= coord.y
            && dy < self.size.h as i64
    }
}

/// Saturating `i32` subtraction, as a spec value.
pub open spec fn sat_sub_i32_spec(a: int, b: int) -> int {
    if a - b > i32::MAX {
        i32::MAX as int
    } else if a - b < i32::MIN {
        i32::MIN as int
    } else {
        a - b
    }
}

/// Saturating `i32` subtraction.
pub fn sat_sub_i32(a: i32, b: i32) -> (r: i32)
    ensures
        r as int == sat_sub_i32_spec(a as int, b as int),
{
    let d: i64 = a as i64 - b as i64;
    if d > i32::MAX as i64 {
        i32::MAX
    } else if d < i32::MIN as i64 {
        i32::MIN
    } else {
        d as i32
    }
}

/// Componentwise saturating subtraction of coordinates.
pub fn coord_sub_sat(a: Coord, b: Coord) -> (r: Coord)
    ensures
        r.x as int == sat_sub_i32_spec(a.x as int, b.x as int),
        r.y as int == sat_sub_i32_spec(a.y as int, b.y as int),
{
    Coord { x: sat_sub_i32(a.x, b.x), y: sat_sub_i32(a.y, b.y) }
}

} // verus!
