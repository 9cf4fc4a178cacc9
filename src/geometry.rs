//! Integer geometry: sizes, points, rectangles, insets and box constraints.
//!
//! Lengths are whole pixels held in `u32`. An unbounded maximum (the
//! "infinite" constraint of a scrolling or flexing axis) is `None`.

use vstd::prelude::*;

verus! {

/// Clamps a non-negative mathematical integer into the range of a length.
pub open spec fn sat(x: int) -> u32 {
    if x > u32::MAX as int {
        u32::MAX
    } else if x < 0 {
        0
    } else {
        x as u32
    }
}

pub open spec fn max_int(a: int, b: int) -> int {
    if a >= b { a } else { b }
}

/// A width and a height.
#[derive(Clone, Copy, Debug, PartialEq, Eq, Structural)]
pub struct Size {
    pub width: u32,
    pub height: u32,
}

/// A position, relative to the origin of the enclosing widget.
#[derive(Clone, Copy, Debug, PartialEq, Eq, Structural)]
pub struct Point {
    pub x: u32,
    pub y: u32,
}

/// An axis-aligned rectangle given by its origin and size.
#[derive(Clone, Copy, Debug, PartialEq, Eq, Structural)]
pub struct Rect {
    pub origin: Point,
    pub size: Size,
}

/// Space kept free on each side of a child.
#[derive(Clone, Copy, Debug, PartialEq, Eq, Structural)]
pub struct Insets {
    pub left: u32,
    pub top: u32,
    pub right: u32,
    pub bottom: u32,
}

/// The range of sizes a widget may take during layout. A maximum of `None`
/// leaves that axis unbounded.
#[derive(Clone, Copy, Debug, PartialEq, Eq, Structural)]
pub struct BoxConstraints {
    pub min: Size,
    pub max_width: Option<u32>,
    pub max_height: Option<u32>,
}

/// The fraction of the free space that lies before a child, on each axis,
/// in thousandths: `(0, 0)` is the top left corner, `(1000, 1000)` the bottom
/// right one.
#[derive(Clone, Copy, Debug, PartialEq, Eq, Structural)]
pub struct UnitPoint {
    pub x: u32,
    pub y: u32,
}

/// The denominator of the coordinates of a `UnitPoint`.
pub const UNIT: u32 = 1000;

impl Size {
    pub fn zero() -> (r: Size)
        ensures
            r.width == 0,
            r.height == 0,
    {
        Size { width: 0, height: 0 }
    }

    pub fn new(width: u32, height: u32) -> (r: Size)
        ensures
            r.width == width,
            r.height == height,
    {
        Size { width, height }
    }
}

impl Point {
    pub fn origin() -> (r: Point)
        ensures
            r.x == 0,
            r.y == 0,
    {
        Point { x: 0, y: 0 }
    }

    pub fn new(x: u32, y: u32) -> (r: Point)
        ensures
            r.x == x,
            r.y == y,
    {
        Point { x, y }
    }
}

impl Rect {
    pub fn from_origin_size(origin: Point, size: Size) -> (r: Rect)
        ensures
            r.origin == origin,
            r.size == size,
    {
        Rect { origin, size }
    }

    /// Whether the rectangle covers the point: the left and top edges are
    /// inside, the right and bottom ones outside.
    pub open spec fn spec_contains(self, p: Point) -> bool {
        &&& self.origin.x <= p.x
        &&& p.x < self.origin.x + self.size.width
        &&& self.origin.y <= p.y
        &&& p.y < self.origin.y + self.size.height
    }

    pub fn contains(&self, p: Point) -> (r: bool)
        ensures
            r == self.spec_contains(p),
    {
        self.origin.x <= p.x && (p.x as u64) < self.origin.x as u64 + self.size.width as u64
            && self.origin.y <= p.y && (p.y as u64) < self.origin.y as u64
            + self.size.height as u64
    }
}

impl Insets {
    /// The same inset on all four sides.
    pub fn uniform(d: u32) -> (r: Insets)
        ensures
            r == (Insets { left: d, top: d, right: d, bottom: d }),
    {
        Insets { left: d, top: d, right: d, bottom: d }
    }

    pub fn new(left: u32, top: u32, right: u32, bottom: u32) -> (r: Insets)
        ensures
            r == (Insets { left, top, right, bottom }),
    {
        Insets { left, top, right, bottom }
    }

    pub open spec fn hpad(self) -> int {
        self.left + self.right
    }

    pub open spec fn vpad(self) -> int {
        self.top + self.bottom
    }
}

impl UnitPoint {
    /// The top left corner.
    pub fn top_left() -> (r: UnitPoint)
        ensures
            r == (UnitPoint { x: 0, y: 0 }),
    {
        UnitPoint { x: 0, y: 0 }
    }

    /// The middle of the top edge.
    pub fn top() -> (r: UnitPoint)
        ensures
            r == (UnitPoint { x: 500, y: 0 }),
    {
        UnitPoint { x: 500, y: 0 }
    }

    /// The middle of the left edge.
    pub fn left() -> (r: UnitPoint)
        ensures
            r == (UnitPoint { x: 0, y: 500 }),
    {
        UnitPoint { x: 0, y: 500 }
    }

    /// The centre.
    pub fn center() -> (r: UnitPoint)
        ensures
            r == (UnitPoint { x: 500, y: 500 }),
    {
        UnitPoint { x: 500, y: 500 }
    }

    /// The middle of the right edge.
    pub fn right() -> (r: UnitPoint)
        ensures
            r == (UnitPoint { x: 1000, y: 500 }),
    {
        UnitPoint { x: 1000, y: 500 }
    }

    /// The middle of the bottom edge.
    pub fn bottom() -> (r: UnitPoint)
        ensures
            r == (UnitPoint { x: 500, y: 1000 }),
    {
        UnitPoint { x: 500, y: 1000 }
    }

    pub open spec fn wf(self) -> bool {
        self.x <= UNIT && self.y <= UNIT
    }

    /// The offset of a child that leaves `extra` free space around it.
    pub open spec fn spec_resolve(self, extra: Size) -> Point {
        Point {
            x: (extra.width * self.x / (UNIT as int)) as u32,
            y: (extra.height * self.y / (UNIT as int)) as u32,
        }
    }

    pub fn resolve(&self, extra: Size) -> (r: Point)
        requires
            self.wf(),
        ensures
            r == self.spec_resolve(extra),
            r.x <= extra.width,
            r.y <= extra.height,
    {
        proof {
            assert(extra.width * self.x <= u32::MAX * u32::MAX) by (nonlinear_arith)
                requires
                    extra.width <= u32::MAX,
                    self.x <= u32::MAX,
            ;
            assert(extra.height * self.y <= u32::MAX * u32::MAX) by (nonlinear_arith)
                requires
                    extra.height <= u32::MAX,
                    self.y <= u32::MAX,
            ;
            assert(extra.width * self.x <= extra.width * UNIT) by (nonlinear_arith)
                requires
                    self.x <= UNIT,
            ;
            assert(extra.height * self.y <= extra.height * UNIT) by (nonlinear_arith)
                requires
                    self.y <= UNIT,
            ;
            assert(extra.width * self.x / (UNIT as int) <= extra.width) by (nonlinear_arith)
                requires
                    extra.width * self.x <= extra.width * UNIT,
            ;
            assert(extra.height * self.y / (UNIT as int) <= extra.height) by (nonlinear_arith)
                requires
                    extra.height * self.y <= extra.height * UNIT,
            ;
        }
        let x = extra.width as u64 * self.x as u64 / UNIT as u64;
        let y = extra.height as u64 * self.y as u64 / UNIT as u64;
        Point { x: x as u32, y: y as u32 }
    }
}

/// Clamps a length into `[lo, hi]`, `hi` being absent when unbounded.
pub open spec fn clamp_len(v: u32, lo: u32, hi: Option<u32>) -> u32 {
    let up = if v >= lo { v } else { lo };
    match hi {
        Some(h) => if up <= h { up } else { h },
        None => up,
    }
}

fn clamp_length(v: u32, lo: u32, hi: Option<u32>) -> (r: u32)
    ensures
        r == clamp_len(v, lo, hi),
{
    let up = if v >= lo { v } else { lo };
    match hi {
        Some(h) => if up <= h { up } else { h },
        None => up,
    }
}

/// Subtracts `d` from a bound, keeping an unbounded axis unbounded.
pub open spec fn shrink_bound(b: Option<u32>, d: int) -> Option<u32> {
    match b {
        Some(m) => Some(sat(m - d)),
        None => None,
    }
}

impl BoxConstraints {
    /// Minimum below maximum on each bounded axis.
    pub open spec fn wf(self) -> bool {
        &&& (self.max_width matches Some(m) ==> self.min.width <= m)
        &&& (self.max_height matches Some(m) ==> self.min.height <= m)
    }

    /// Constraints that admit exactly one size.
    pub open spec fn spec_tight(s: Size) -> BoxConstraints {
        BoxConstraints { min: s, max_width: Some(s.width), max_height: Some(s.height) }
    }

    pub fn tight(s: Size) -> (r: BoxConstraints)
        ensures
            r == Self::spec_tight(s),
            r.wf(),
    {
        BoxConstraints { min: s, max_width: Some(s.width), max_height: Some(s.height) }
    }

    pub fn new(min: Size, max_width: Option<u32>, max_height: Option<u32>) -> (r: BoxConstraints)
        ensures
            r == (BoxConstraints { min, max_width, max_height }),
    {
        BoxConstraints { min, max_width, max_height }
    }

    /// The same maxima, with no minimum.
    pub open spec fn spec_loosen(self) -> BoxConstraints {
        BoxConstraints { min: Size { width: 0, height: 0 }, ..self }
    }

    pub fn loosen(&self) -> (r: BoxConstraints)
        ensures
            r == self.spec_loosen(),
            r.wf(),
    {
        BoxConstraints { min: Size { width: 0, height: 0 }, ..*self }
    }

    /// Both bounds lowered by `(dw, dh)`, stopping at zero.
    pub open spec fn spec_shrink(self, dw: int, dh: int) -> BoxConstraints {
        BoxConstraints {
            min: Size { width: sat(self.min.width - dw), height: sat(self.min.height - dh) },
            max_width: shrink_bound(self.max_width, dw),
            max_height: shrink_bound(self.max_height, dh),
        }
    }

    pub fn shrink(&self, dw: u32, dh: u32) -> (r: BoxConstraints)
        requires
            self.wf(),
        ensures
            r == self.spec_shrink(dw as int, dh as int),
            r.wf(),
    {
        let max_width = match self.max_width {
            Some(m) => Some(m.saturating_sub(dw)),
            None => None,
        };
        let max_height = match self.max_height {
            Some(m) => Some(m.saturating_sub(dh)),
            None => None,
        };
        BoxConstraints {
            min: Size {
                width: self.min.width.saturating_sub(dw),
                height: self.min.height.saturating_sub(dh),
            },
            max_width,
            max_height,
        }
    }

    /// The size within the constraints that is closest to `s`.
    pub open spec fn spec_constrain(self, s: Size) -> Size {
        Size {
            width: clamp_len(s.width, self.min.width, self.max_width),
            height: clamp_len(s.height, self.min.height, self.max_height),
        }
    }

    pub fn constrain(&self, s: Size) -> (r: Size)
        ensures
            r == self.spec_constrain(s),
    {
        Size {
            width: clamp_length(s.width, self.min.width, self.max_width),
            height: clamp_length(s.height, self.min.height, self.max_height),
        }
    }

    pub fn is_width_bounded(&self) -> (r: bool)
        ensures
            r == self.max_width.is_some(),
    {
        self.max_width.is_some()
    }

    pub fn is_height_bounded(&self) -> (r: bool)
        ensures
            r == self.max_height.is_some(),
    {
        self.max_height.is_some()
    }
}

} // verus!
