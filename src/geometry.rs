use vstd::prelude::*;

verus! {

/// Number of app units in one device pixel.
pub const AU_PER_PX: i32 = 60;

/// A length in app units (sixtieths of a pixel).
#[derive(Clone, Copy, Debug, PartialEq, Eq, Structural)]
pub struct Au(pub i32);

/// A point in app units.
#[derive(Clone, Copy, Debug, PartialEq, Eq, Structural)]
pub struct AuPoint {
    pub x: Au,
    pub y: Au,
}

/// A rectangle in app units.
#[derive(Clone, Copy, Debug, PartialEq, Eq, Structural)]
pub struct AuRect {
    pub origin: AuPoint,
    pub width: Au,
    pub height: Au,
}

/// A rectangle in whole device pixels.
#[derive(Clone, Copy, Debug, PartialEq, Eq, Structural)]
pub struct PxRect {
    pub x: i32,
    pub y: i32,
    pub width: i32,
    pub height: i32,
}

/// A rectangle in screen space (device pixels), as tiles are addressed.
#[derive(Clone, Copy, Debug, PartialEq, Eq, Structural)]
pub struct ScreenRect {
    pub x: usize,
    pub y: usize,
    pub width: usize,
    pub height: usize,
}

/// A rectangle in page space; each coordinate is the bit pattern of a 32-bit
/// float, carried through unchanged.
#[derive(Clone, Copy, Debug, PartialEq, Eq, Structural)]
pub struct PageRect {
    pub x: u32,
    pub y: u32,
    pub width: u32,
    pub height: u32,
}

/// `a / 60` rounded to the nearest integer, halves away from zero.
pub open spec fn nearest_px(a: int) -> int {
    if a >= 0 {
        (a + 30) / 60
    } else {
        -((-a + 30) / 60)
    }
}

impl Au {
    /// The nearest whole number of device pixels.
    pub fn to_nearest_px(self) -> (r: i32)
        ensures
            r as int == nearest_px(self.0 as int),
    {
        let a = self.0 as i64;
        let r = if a >= 0 {
            (a + 30) / 60
        } else {
            -((-a + 30) / 60)
        };
        r as i32
    }
}

/// Sum of two points, wrapping as app-unit arithmetic does.
pub open spec fn point_add(p: AuPoint, q: AuPoint) -> AuPoint {
    AuPoint { x: Au(p.x.0.wrapping_add(q.x.0)), y: Au(p.y.0.wrapping_add(q.y.0)) }
}

impl AuPoint {
    /// The origin.
    pub fn zero() -> (r: AuPoint)
        ensures
            r == (AuPoint { x: Au(0), y: Au(0) }),
    {
        AuPoint { x: Au(0), y: Au(0) }
    }

    /// Component-wise sum.
    pub fn add(self, other: AuPoint) -> (r: AuPoint)
        ensures
            r == point_add(self, other),
    {
        AuPoint { x: Au(self.x.0.wrapping_add(other.x.0)), y: Au(self.y.0.wrapping_add(other.y.0)) }
    }
}

} // verus!
