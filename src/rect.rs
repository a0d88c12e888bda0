//! Axis-aligned rectangles on the grid.
use vstd::prelude::*;
use crate::point::Point;

verus! {

/// A rectangle from corner `min` to corner `max`, with `width = max.x - min.x` and
/// `height = max.y - min.y`.
#[derive(Clone, Copy, PartialEq, Eq, Structural, Debug)]
pub struct Rect {
    pub min: Point,
    pub max: Point,
    pub width: i32,
    pub height: i32,
}

/// The smaller of two integers.
pub open spec fn min_spec(a: int, b: int) -> int {
    if a <= b {
        a
    } else {
        b
    }
}

/// The larger of two integers.
pub open spec fn max_spec(a: int, b: int) -> int {
    if a >= b {
        a
    } else {
        b
    }
}

/// Integer division by two, rounding toward zero.
pub open spec fn half_toward_zero(s: int) -> int {
    if s >= 0 {
        s / 2
    } else {
        -((-s) / 2)
    }
}

/// What `Rect::new(a, b)` builds: the corners in either order give the same
/// rectangle, with `min` the componentwise smaller and `max` the componentwise larger.
pub open spec fn rect_spec(a: Point, b: Point) -> Rect {
    let lo = Point { x: min_spec(a.x as int, b.x as int) as i32, y: min_spec(a.y as int, b.y as int) as i32 };
    let hi = Point { x: max_spec(a.x as int, b.x as int) as i32, y: max_spec(a.y as int, b.y as int) as i32 };
    Rect { min: lo, max: hi, width: (hi.x - lo.x) as i32, height: (hi.y - lo.y) as i32 }
}

/// The sizes of the rectangle spanned by `a` and `b` fit `i32`.
pub open spec fn rect_fits(a: Point, b: Point) -> bool {
    &&& max_spec(a.x as int, b.x as int) - min_spec(a.x as int, b.x as int) <= i32::MAX
    &&& max_spec(a.y as int, b.y as int) - min_spec(a.y as int, b.y as int) <= i32::MAX
}

fn min_i32(a: i32, b: i32) -> (r: i32)
    ensures
        r == min_spec(a as int, b as int),
{
    if a <= b {
        a
    } else {
        b
    }
}

fn max_i32(a: i32, b: i32) -> (r: i32)
    ensures
        r == max_spec(a as int, b as int),
{
    if a >= b {
        a
    } else {
        b
    }
}

impl Rect {
    /// The rectangle spanned by two opposite corners, given in either order.
    pub fn new(a: Point, b: Point) -> (r: Rect)
        requires
            rect_fits(a, b),
        ensures
            r == rect_spec(a, b),
    {
        let lo = Point { x: min_i32(a.x, b.x), y: min_i32(a.y, b.y) };
        let hi = Point { x: max_i32(a.x, b.x), y: max_i32(a.y, b.y) };
        let width = hi.x - lo.x;
        let height = hi.y - lo.y;
        Rect { min: lo, max: hi, width, height }
    }

    /// The rectangle with corner `(x, y)` and the given size.
    pub fn new_xywh(x: i32, y: i32, width: i32, height: i32) -> (r: Rect)
        requires
            i32::MIN <= x + width <= i32::MAX,
            i32::MIN <= y + height <= i32::MAX,
            rect_fits(Point { x, y }, Point { x: (x + width) as i32, y: (y + height) as i32 }),
        ensures
            r == rect_spec(Point { x, y }, Point { x: (x + width) as i32, y: (y + height) as i32 }),
    {
        Rect::new(Point { x, y }, Point { x: x + width, y: y + height })
    }

    /// The rectangle with corner `min` and size `dimensions` (width, height).
    pub fn new_with_size(min: Point, dimensions: (u32, u32)) -> (r: Rect)
        requires
            min.x + dimensions.0 <= i32::MAX,
            min.y + dimensions.1 <= i32::MAX,
            dimensions.0 <= i32::MAX,
            dimensions.1 <= i32::MAX,
        ensures
            r == rect_spec(min, Point { x: (min.x + dimensions.0) as i32, y: (min.y + dimensions.1) as i32 }),
            r.width == dimensions.0,
            r.height == dimensions.1,
    {
        let max = Point { x: (min.x as i64 + dimensions.0 as i64) as i32, y: (min.y as i64 + dimensions.1 as i64) as i32 };
        Rect::new(min, max)
    }

    /// The width, `max.x - min.x`.
    pub fn width(&self) -> (w: i32)
        ensures
            w == self.width,
    {
        self.width
    }

    /// The height, `max.y - min.y`.
    pub fn height(&self) -> (h: i32)
        ensures
            h == self.height,
    {
        self.height
    }

    /// The corner `min`.
    pub fn min(&self) -> (p: Point)
        ensures
            p == self.min,
    {
        self.min
    }

    /// The corner `max`.
    pub fn max(&self) -> (p: Point)
        ensures
            p == self.max,
    {
        self.max
    }

    /// Whether the spans along both axes are equal.
    pub fn is_square(&self) -> (r: bool)
        ensures
            r == (self.max.x - self.min.x == self.max.y - self.min.y),
    {
        (self.max.x as i64 - self.min.x as i64) == (self.max.y as i64 - self.min.y as i64)
    }

    /// The midpoint of the two corners, halved toward zero.
    pub fn center(&self) -> (p: Point)
        ensures
            p.x == half_toward_zero(self.min.x + self.max.x),
            p.y == half_toward_zero(self.min.y + self.max.y),
    {
        let sx = self.min.x as i64 + self.max.x as i64;
        let sy = self.min.y as i64 + self.max.y as i64;
        let x = if sx >= 0 {
            sx / 2
        } else {
            -((-sx) / 2)
        };
        let y = if sy >= 0 {
            sy / 2
        } else {
            -((-sy) / 2)
        };
        Point { x: x as i32, y: y as i32 }
    }

    /// The smaller `x` of the two corners.
    pub fn left(&self) -> (v: i32)
        ensures
            v == min_spec(self.min.x as int, self.max.x as int),
    {
        min_i32(self.min.x, self.max.x)
    }

    /// The larger `x` of the two corners.
    pub fn right(&self) -> (v: i32)
        ensures
            v == max_spec(self.min.x as int, self.max.x as int),
    {
        max_i32(self.min.x, self.max.x)
    }

    /// The larger `y` of the two corners.
    pub fn top(&self) -> (v: i32)
        ensures
            v == max_spec(self.min.y as int, self.max.y as int),
    {
        max_i32(self.min.y, self.max.y)
    }

    /// The smaller `y` of the two corners.
    pub fn bottom(&self) -> (v: i32)
        ensures
            v == min_spec(self.min.y as int, self.max.y as int),
    {
        min_i32(self.min.y, self.max.y)
    }

    /// Whether the two rectangles overlap or touch, edges included.
    pub fn intersects(&self, other: Rect) -> (r: bool)
        ensures
            r == (self.min.x <= other.max.x && self.max.x >= other.min.x && self.min.y
                <= other.max.y && self.max.y >= other.min.y),
    {
        self.min.x <= other.max.x && self.max.x >= other.min.x && self.min.y <= other.max.y
            && self.max.y >= other.min.y
    }
}

/// The order of the two corners does not matter.
pub proof fn lemma_rect_corner_order(a: Point, b: Point)
    ensures
        rect_spec(a, b) == rect_spec(b, a),
        rect_fits(a, b) == rect_fits(b, a),
{
}

} // verus!
