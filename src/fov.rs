//! Symmetric shadowcasting field of view on a grid of opaque and transparent cells.
//!
//! Slopes are exact fractions: 64-bit numerators and denominators whose
//! cross-products are taken in 128 bits, so no comparison rounds or overflows
//! for any `i32` radius.
use vstd::prelude::*;
use crate::point::{Point, dist2};
use crate::direction::{Direction, has_flag, NORTH, SOUTH, EAST, WEST};

verus! {

broadcast use vstd::seq_lib::group_seq_properties;

/// An exact rational number; the denominator is positive.
#[derive(Clone, Copy, PartialEq, Eq, Structural, Debug)]
pub struct Fraction {
    pub numerator: i64,
    pub denominator: i64,
}

/// `a >= b` as rationals with positive denominators.
pub open spec fn frac_ge(a: Fraction, b: Fraction) -> bool {
    a.numerator * b.denominator >= b.numerator * a.denominator
}

/// `a <= b` as rationals with positive denominators.
pub open spec fn frac_le(a: Fraction, b: Fraction) -> bool {
    a.numerator * b.denominator <= b.numerator * a.denominator
}

proof fn lemma_i64_product(a: i64, b: i64)
    ensures
        -0x4000_0000_0000_0000_0000_0000_0000_0000 <= a * b <= 0x4000_0000_0000_0000_0000_0000_0000_0000,
{
    let x = a as int;
    let y = b as int;
    assert(-0x4000_0000_0000_0000_0000_0000_0000_0000 <= x * y <= 0x4000_0000_0000_0000_0000_0000_0000_0000) by (nonlinear_arith)
        requires
            -0x8000_0000_0000_0000 <= x <= 0x8000_0000_0000_0000,
            -0x8000_0000_0000_0000 <= y <= 0x8000_0000_0000_0000,
    ;
}

impl Fraction {
    /// Makes `numerator / denominator`.
    pub fn new(numerator: i64, denominator: i64) -> (f: Fraction)
        requires
            denominator > 0,
        ensures
            f.numerator == numerator,
            f.denominator == denominator,
    {
        Fraction { numerator, denominator }
    }

    /// Whether `self >= other`, by cross-multiplication.
    pub fn greater_equal(self, other: Fraction) -> (r: bool)
        ensures
            r == frac_ge(self, other),
    {
        proof {
            lemma_i64_product(self.numerator, other.denominator);
            lemma_i64_product(other.numerator, self.denominator);
        }
        (self.numerator as i128) * (other.denominator as i128) >= (other.numerator as i128) * (
        self.denominator as i128)
    }

    /// Whether `self <= other`, by cross-multiplication.
    pub fn less_equal(self, other: Fraction) -> (r: bool)
        ensures
            r == frac_le(self, other),
    {
        proof {
            lemma_i64_product(self.numerator, other.denominator);
            lemma_i64_product(other.numerator, self.denominator);
        }
        (self.numerator as i128) * (other.denominator as i128) <= (other.numerator as i128) * (
        self.denominator as i128)
    }
}

/// Floor division by a positive divisor (rounds toward negative infinity).
pub fn floor_div(a: i128, b: i128) -> (r: i128)
    requires
        b > 0,
        a > i128::MIN / 2,
        b < i128::MAX / 2,
    ensures
        r as int == a as int / b as int,
        a >= 0 ==> 0 <= r <= a,
        a < 0 ==> a <= r < 0,
{
    if a >= 0 {
        let q = a / b;
        proof {
            assert(q <= a) by (nonlinear_arith)
                requires
                    q == a as int / b as int,
                    b > 0,
                    a >= 0,
            ;
        }
        q
    } else {
        let m = -a + b - 1;
        let q = m / b;
        proof {
            let ai = a as int;
            let bi = b as int;
            let qi = q as int;
            assert(ai / bi == -qi && 0 < qi <= -ai) by (nonlinear_arith)
                requires
                    qi == (-ai + bi - 1) / bi,
                    bi > 0,
                    ai < 0,
            ;
        }
        -q
    }
}

/// Ceiling of `a / b` over the integers, for `b > 0`.
pub open spec fn ceil_div(a: int, b: int) -> int {
    -((-a) / b)
}

/// Ceiling division by a positive divisor (rounds toward positive infinity).
pub fn ceil_div_exec(a: i128, b: i128) -> (r: i128)
    requires
        b > 0,
        a < i128::MAX / 2,
        a > i128::MIN / 2,
        b < i128::MAX / 2,
    ensures
        r as int == ceil_div(a as int, b as int),
{
    let q = floor_div(-a, b);
    -q
}

/// One of the four cardinal half-planes scanned from the origin.
#[derive(Clone, Copy, PartialEq, Eq, Structural, Debug)]
pub enum Cardinal {
    North,
    South,
    East,
    West,
}

/// The cell at `(depth, column)` of the scan facing `cardinal`, as integers.
pub open spec fn transform_spec(cardinal: Cardinal, origin: Point, depth: int, col: int) -> (
    int,
    int,
) {
    match cardinal {
        Cardinal::North => (origin.x + col, origin.y - depth),
        Cardinal::South => (origin.x + col, origin.y + depth),
        Cardinal::East => (origin.x + depth, origin.y + col),
        Cardinal::West => (origin.x - depth, origin.y + col),
    }
}

/// Maps the canonical (depth, column) coordinates of one cardinal scan to the grid.
#[derive(Clone, Copy, Debug)]
pub struct Quadrant {
    pub cardinal: Cardinal,
}

impl Quadrant {
    /// The absolute cell at `(depth, col)`, for any cell inside `i32` range.
    pub fn transform(self, origin: Point, depth: i64, col: i64) -> (p: Point)
        requires
            i32::MIN <= transform_spec(self.cardinal, origin, depth as int, col as int).0
                <= i32::MAX,
            i32::MIN <= transform_spec(self.cardinal, origin, depth as int, col as int).1
                <= i32::MAX,
        ensures
            (p.x as int, p.y as int) == transform_spec(
                self.cardinal,
                origin,
                depth as int,
                col as int,
            ),
    {
        match self.cardinal {
            Cardinal::North => Point { x: (origin.x as i64 + col) as i32, y: (origin.y as i64
                - depth) as i32 },
            Cardinal::South => Point { x: (origin.x as i64 + col) as i32, y: (origin.y as i64
                + depth) as i32 },
            Cardinal::East => Point { x: (origin.x as i64 + depth) as i32, y: (origin.y as i64
                + col) as i32 },
            Cardinal::West => Point { x: (origin.x as i64 - depth) as i32, y: (origin.y as i64
                + col) as i32 },
        }
    }
}

/// The largest depth a scan may reach; rows never go deeper than the radius.
pub const MAX_DEPTH: i64 = 0x8000_0000;

/// One depth slice of a scan: the slope interval `[start_slope, end_slope]` at `depth`.
#[derive(Clone, Copy, PartialEq, Eq, Structural, Debug)]
pub struct Row {
    pub depth: i64,
    pub start_slope: Fraction,
    pub end_slope: Fraction,
}

/// The largest `|numerator * depth|` for which rounding stays within 64 bits.
pub const PRODUCT_BOUND: i64 = 0x7FFF_FFFE_0000_0002;

/// Rounding `f` at `depth` is defined and its column fits `i64`: a positive
/// denominator and `|numerator * depth|` at most `PRODUCT_BOUND`.
pub open spec fn round_ok(f: Fraction, depth: int) -> bool {
    &&& f.denominator > 0
    &&& -PRODUCT_BOUND <= f.numerator * depth <= PRODUCT_BOUND
}

/// The row's depth is at least 1 and both of its slopes can be rounded at it.
pub open spec fn columns_ok(r: Row) -> bool {
    &&& r.depth >= 1
    &&& round_ok(r.start_slope, r.depth as int)
    &&& round_ok(r.end_slope, r.depth as int)
}

proof fn lemma_round_range(p: int, m: int, q: int)
    requires
        m >= 1,
        q == (2 * p + m) / (2 * m),
    ensures
        -(if p >= 0 { p } else { -p }) - 1 <= q <= (if p >= 0 { p } else { -p }) + 1,
{
    let a = if p >= 0 { p } else { -p };
    assert(q * (2 * m) <= 2 * p + m < (q + 1) * (2 * m)) by (nonlinear_arith)
        requires
            m >= 1,
            q == (2 * p + m) / (2 * m),
    ;
    if q > a + 1 {
        assert(q * (2 * m) >= (a + 2) * (2 * m)) by (nonlinear_arith)
            requires
                q >= a + 2,
                m >= 1,
        ;
        assert((a + 2) * (2 * m) >= 2 * a + 4 * m) by (nonlinear_arith)
            requires
                a >= 0,
                m >= 1,
        ;
    }
    if q < -a - 1 {
        assert((q + 1) * (2 * m) <= (-a - 1) * (2 * m)) by (nonlinear_arith)
            requires
                q + 1 <= -a - 1,
                m >= 1,
        ;
        assert((-a - 1) * (2 * m) <= -2 * a - 2 * m) by (nonlinear_arith)
            requires
                a >= 0,
                m >= 1,
        ;
    }
}

/// The scan's rows can be rounded: a slope within `[-1, 1]` at a depth below
/// `MAX_DEPTH`.
proof fn lemma_scan_round_ok(f: Fraction, depth: int)
    requires
        slope_ok(f),
        1 <= depth < MAX_DEPTH,
    ensures
        round_ok(f, depth),
{
    let n = f.numerator as int;
    let m = f.denominator as int;
    assert(-PRODUCT_BOUND <= n * depth <= PRODUCT_BOUND) by (nonlinear_arith)
        requires
            -m <= n <= m,
            0 < m <= 0xFFFF_FFFE,
            1 <= depth <= 0x7FFF_FFFF,
    ;
}

/// A slope lies within `[-1, 1]` with a positive denominator bounded for the arithmetic.
pub open spec fn slope_ok(f: Fraction) -> bool {
    &&& 0 < f.denominator <= 2 * MAX_DEPTH - 2
    &&& -f.denominator <= f.numerator <= f.denominator
}

/// The row's depth and slopes are within the bounds the scan keeps.
pub open spec fn row_ok(r: Row) -> bool {
    &&& 1 <= r.depth <= MAX_DEPTH
    &&& slope_ok(r.start_slope)
    &&& slope_ok(r.end_slope)
}

/// `floor(f * depth + 1/2)`: the first column a slope admits.
pub open spec fn round_ties_up_spec(f: Fraction, depth: int) -> int {
    (2 * (f.numerator * depth) + f.denominator) / (2 * f.denominator)
}

/// `ceil(f * depth - 1/2)`: the last column a slope admits.
pub open spec fn round_ties_down_spec(f: Fraction, depth: int) -> int {
    ceil_div(2 * (f.numerator * depth) - f.denominator, 2 * f.denominator)
}

/// The slope `(2 col - 1) / (2 depth)` through the near edge of a tile.
pub open spec fn slope_spec(col: int, depth: int) -> Fraction {
    Fraction { numerator: (2 * col - 1) as i64, denominator: (2 * depth) as i64 }
}

/// The tile centre `col / depth` lies within the row's slopes.
pub open spec fn symmetric_spec(r: Row, col: int) -> bool {
    let c = Fraction { numerator: col as i64, denominator: r.depth };
    frac_ge(c, r.start_slope) && frac_le(c, r.end_slope)
}

/// The tile's near edge lies within the row's slopes.
pub open spec fn wall_visible_spec(r: Row, col: int) -> bool {
    let s = slope_spec(col, r.depth as int);
    frac_ge(s, r.start_slope) && frac_le(s, r.end_slope)
}

/// The same slopes one depth further.
pub open spec fn next_spec(r: Row) -> Row {
    Row { depth: (r.depth + 1) as i64, ..r }
}

proof fn lemma_round_bounds(r: Row)
    requires
        row_ok(r),
    ensures
        -r.depth <= round_ties_up_spec(r.start_slope, r.depth as int),
        round_ties_down_spec(r.end_slope, r.depth as int) <= r.depth,
{
    let d = r.depth as int;
    let n = r.start_slope.numerator as int;
    let m = r.start_slope.denominator as int;
    assert((2 * (n * d) + m) / (2 * m) >= -d) by (nonlinear_arith)
        requires
            -m <= n,
            m > 0,
            d >= 1,
    {
        assert(2 * (n * d) + m >= (-d) * (2 * m)) by (nonlinear_arith)
            requires
                -m <= n,
                m > 0,
                d >= 1,
        ;
    }
    let n2 = r.end_slope.numerator as int;
    let m2 = r.end_slope.denominator as int;
    assert((-(2 * (n2 * d) - m2)) / (2 * m2) >= -d) by (nonlinear_arith)
        requires
            n2 <= m2,
            m2 > 0,
            d >= 1,
    {
        assert(-(2 * (n2 * d) - m2) >= (-d) * (2 * m2)) by (nonlinear_arith)
            requires
                n2 <= m2,
                m2 > 0,
                d >= 1,
        ;
    }
}

impl Row {
    /// A row at `depth` spanning `[start_slope, end_slope]`.
    pub fn new(depth: i64, start_slope: Fraction, end_slope: Fraction) -> (r: Row)
        ensures
            r.depth == depth,
            r.start_slope == start_slope,
            r.end_slope == end_slope,
    {
        Row { depth, start_slope, end_slope }
    }

    /// The same slopes one depth further.
    pub fn next(&self) -> (r: Row)
        requires
            self.depth < i64::MAX,
        ensures
            r == next_spec(*self),
    {
        Row { depth: self.depth + 1, start_slope: self.start_slope, end_slope: self.end_slope }
    }

    /// `floor(frac * depth + 1/2)`, with floor (not truncating) division.
    pub fn round_ties_up_frac(frac: Fraction, depth: i64) -> (c: i64)
        requires
            round_ok(frac, depth as int),
        ensures
            c == round_ties_up_spec(frac, depth as int),
    {
        proof {
            lemma_i64_product(frac.numerator, depth);
        }
        let prod: i128 = (frac.numerator as i128) * (depth as i128);
        let num: i128 = 2 * prod + frac.denominator as i128;
        let den: i128 = frac.denominator as i128 * 2;
        let q = floor_div(num, den);
        proof {
            lemma_round_range(frac.numerator * depth, frac.denominator as int, q as int);
        }
        q as i64
    }

    /// `ceil(frac * depth - 1/2)`, with ceiling division.
    pub fn round_ties_down_frac(frac: Fraction, depth: i64) -> (c: i64)
        requires
            round_ok(frac, depth as int),
        ensures
            c == round_ties_down_spec(frac, depth as int),
    {
        proof {
            lemma_i64_product(frac.numerator, depth);
        }
        let prod: i128 = (frac.numerator as i128) * (depth as i128);
        let num: i128 = 2 * prod - frac.denominator as i128;
        let den: i128 = frac.denominator as i128 * 2;
        let q = ceil_div_exec(num, den);
        proof {
            let p = frac.numerator * depth;
            assert(-(2 * p - frac.denominator) == 2 * (-p) + frac.denominator);
            lemma_round_range(-p, frac.denominator as int, -q);
        }
        q as i64
    }

    /// The first column of the row.
    pub fn min_col(&self) -> (c: i64)
        requires
            columns_ok(*self),
        ensures
            c == round_ties_up_spec(self.start_slope, self.depth as int),
    {
        Row::round_ties_up_frac(self.start_slope, self.depth)
    }

    /// The last column of the row.
    pub fn max_col(&self) -> (c: i64)
        requires
            columns_ok(*self),
        ensures
            c == round_ties_down_spec(self.end_slope, self.depth as int),
    {
        Row::round_ties_down_frac(self.end_slope, self.depth)
    }

    /// The columns of the row, in order: from `min_col` to `max_col` inclusive.
    pub fn tiles(&self) -> (cols: Vec<i64>)
        requires
            columns_ok(*self),
        ensures
            cols@.len() == if round_ties_down_spec(self.end_slope, self.depth as int)
                >= round_ties_up_spec(self.start_slope, self.depth as int) {
                round_ties_down_spec(self.end_slope, self.depth as int) - round_ties_up_spec(
                    self.start_slope,
                    self.depth as int,
                ) + 1
            } else {
                0
            },
            forall|i: int|
                0 <= i < cols@.len() ==> #[trigger] cols@[i] == round_ties_up_spec(
                    self.start_slope,
                    self.depth as int,
                ) + i,
    {
        let lo = self.min_col();
        let hi = self.max_col();
        proof {
            let p = self.end_slope.numerator * self.depth;
            let m = self.end_slope.denominator as int;
            assert(-(2 * p - m) == 2 * (-p) + m);
            lemma_round_range(-p, m, (2 * (-p) + m) / (2 * m));
        }
        let mut cols: Vec<i64> = Vec::new();
        let mut c: i64 = lo;
        while c <= hi
            invariant
                lo <= c <= hi + 1 || (c == lo && lo > hi),
                hi < i64::MAX,
                cols@.len() == c - lo,
                forall|i: int| 0 <= i < cols@.len() ==> #[trigger] cols@[i] == lo + i,
            decreases hi + 1 - c,
        {
            cols.push(c);
            c = c + 1;
        }
        cols
    }

    /// The slope `(2 col - 1) / (2 depth)` through the near edge of the tile.
    pub fn slope(col: i64, depth: i64) -> (f: Fraction)
        requires
            -MAX_DEPTH <= col <= MAX_DEPTH,
            1 <= depth <= MAX_DEPTH,
        ensures
            f == slope_spec(col as int, depth as int),
            f.numerator == 2 * col - 1,
            f.denominator == 2 * depth,
    {
        Fraction { numerator: 2 * col - 1, denominator: 2 * depth }
    }

    /// Whether a transparent tile at `col` is visible: its centre lies within the slopes.
    pub fn is_symmetric(&self, col: i64) -> (r: bool)
        ensures
            r == symmetric_spec(*self, col as int),
    {
        let c = Fraction { numerator: col, denominator: self.depth };
        c.greater_equal(self.start_slope) && c.less_equal(self.end_slope)
    }

    /// Whether an opaque tile at `col` is visible: its near edge lies within the slopes.
    pub fn is_wall_visible(&self, col: i64) -> (r: bool)
        requires
            -MAX_DEPTH <= col <= MAX_DEPTH,
            1 <= self.depth <= MAX_DEPTH,
        ensures
            r == wall_visible_spec(*self, col as int),
    {
        let s = Row::slope(col, self.depth);
        s.greater_equal(self.start_slope) && s.less_equal(self.end_slope)
    }
}

/// The offset from the origin of the cell at `(depth, column)` facing `cardinal`.
pub open spec fn offset_spec(cardinal: Cardinal, depth: int, col: int) -> (int, int) {
    match cardinal {
        Cardinal::North => (col, -depth),
        Cardinal::South => (col, depth),
        Cardinal::East => (depth, col),
        Cardinal::West => (-depth, col),
    }
}

impl Quadrant {
    /// The offset from the origin of the cell at `(depth, col)`.
    pub fn offset(self, depth: i64, col: i64) -> (d: (i64, i64))
        requires
            -MAX_DEPTH <= depth <= MAX_DEPTH,
            -MAX_DEPTH <= col <= MAX_DEPTH,
        ensures
            (d.0 as int, d.1 as int) == offset_spec(self.cardinal, depth as int, col as int),
    {
        match self.cardinal {
            Cardinal::North => (col, -depth),
            Cardinal::South => (col, depth),
            Cardinal::East => (depth, col),
            Cardinal::West => (-depth, col),
        }
    }
}

/// The opacity that a predicate reports: `true` exactly where it may answer `true`.
pub open spec fn opaque_of<F: Fn(Point) -> bool>(f: F) -> spec_fn(Point) -> bool {
    |p: Point| f.ensures((p,), true)
}

/// The predicate may be asked about every cell within `radius` of `origin` but the
/// origin itself, and gives one answer per cell.
pub open spec fn answers_consistently<F: Fn(Point) -> bool>(f: F, origin: Point, radius: int) -> bool {
    &&& forall|p: Point|
        dist2(p, origin) <= radius * radius && p != origin ==> #[trigger] f.requires((p,))
    &&& forall|p: Point, a: bool, b: bool|
        #[trigger] f.ensures((p,), a) && #[trigger] f.ensures((p,), b) ==> a == b
}

/// Every cell within `radius` of `origin` has coordinates inside `i32`.
pub open spec fn radius_fits(origin: Point, radius: int) -> bool {
    &&& 0 <= radius < MAX_DEPTH
    &&& i32::MIN <= origin.x - radius
    &&& origin.x + radius <= i32::MAX
    &&& i32::MIN <= origin.y - radius
    &&& origin.y + radius <= i32::MAX
}

/// The scan may visit this row: it is well formed and no deeper than the radius.
pub open spec fn scan_live(radius: int, row: Row) -> bool {
    row_ok(row) && row.depth <= radius && radius < MAX_DEPTH
}

/// The cell at `(depth, col)` of a scan as a grid point.
pub open spec fn cell_spec(cardinal: Cardinal, origin: Point, depth: int, col: int) -> Point {
    let t = transform_spec(cardinal, origin, depth, col);
    Point { x: t.0 as i32, y: t.1 as i32 }
}

/// Whether the cell at `(depth, col)` lies within the radius of the origin.
pub open spec fn in_radius(cardinal: Cardinal, depth: int, col: int, radius: int) -> bool {
    let o = offset_spec(cardinal, depth, col);
    o.0 * o.0 + o.1 * o.1 <= radius * radius
}

/// The row that a transparent-to-opaque transition at `col` hands on: one depth
/// further, ending at the near edge of the opaque tile.
pub open spec fn spawned_spec(row: Row, col: int) -> Row {
    Row {
        depth: (row.depth + 1) as i64,
        start_slope: row.start_slope,
        end_slope: slope_spec(col, row.depth as int),
    }
}

/// The cells that scanning `row` marks visible, itself and every row it hands on.
pub open spec fn scan_row_spec(
    origin: Point,
    radius: int,
    cardinal: Cardinal,
    opaque: spec_fn(Point) -> bool,
    row: Row,
) -> Set<Point>
    decreases radius + 1 - row.depth, 1int, 0int,
{
    if !scan_live(radius, row) {
        Set::empty()
    } else {
        scan_cols_spec(
            origin,
            radius,
            cardinal,
            opaque,
            row,
            round_ties_up_spec(row.start_slope, row.depth as int),
            round_ties_down_spec(row.end_slope, row.depth as int),
            None,
        )
    }
}

/// The cells that the rest of a row marks, from column `col` to `hi`, given the
/// opacity of the last tile looked at (`prev`) and the row's current slopes.
pub open spec fn scan_cols_spec(
    origin: Point,
    radius: int,
    cardinal: Cardinal,
    opaque: spec_fn(Point) -> bool,
    row: Row,
    col: int,
    hi: int,
    prev: Option<bool>,
) -> Set<Point>
    decreases radius + 1 - row.depth, 0int, hi + 1 - col,
{
    if !scan_live(radius, row) {
        Set::empty()
    } else if col > hi {
        if prev == Some(false) {
            scan_row_spec(origin, radius, cardinal, opaque, next_spec(row))
        } else {
            Set::empty()
        }
    } else if !in_radius(cardinal, row.depth as int, col, radius) {
        scan_cols_spec(origin, radius, cardinal, opaque, row, col + 1, hi, prev)
    } else {
        let p = cell_spec(cardinal, origin, row.depth as int, col);
        let b = opaque(p);
        let seen: Set<Point> = if (b && wall_visible_spec(row, col)) || (!b && symmetric_spec(
            row,
            col,
        )) {
            set![p]
        } else {
            Set::empty()
        };
        let spawned: Set<Point> = if prev == Some(false) && b {
            scan_row_spec(origin, radius, cardinal, opaque, spawned_spec(row, col))
        } else {
            Set::empty()
        };
        let rest_row = if prev == Some(true) && !b {
            Row { start_slope: slope_spec(col, row.depth as int), ..row }
        } else {
            row
        };
        seen + spawned + scan_cols_spec(
            origin,
            radius,
            cardinal,
            opaque,
            rest_row,
            col + 1,
            hi,
            Some(b),
        )
    }
}

/// The row every cardinal scan starts from: depth 1, slopes `[-1, 1]`.
pub open spec fn first_row() -> Row {
    Row {
        depth: 1,
        start_slope: Fraction { numerator: -1i64, denominator: 1i64 },
        end_slope: Fraction { numerator: 1i64, denominator: 1i64 },
    }
}

/// The cells the scan facing `cardinal` marks.
pub open spec fn quadrant_spec(
    origin: Point,
    radius: int,
    cardinal: Cardinal,
    opaque: spec_fn(Point) -> bool,
) -> Set<Point> {
    scan_row_spec(origin, radius, cardinal, opaque, first_row())
}

/// The field of view: the origin and what the four cardinal scans mark.
pub open spec fn fov_spec(origin: Point, radius: int, opaque: spec_fn(Point) -> bool) -> Set<
    Point,
> {
    set![origin] + quadrant_spec(origin, radius, Cardinal::North, opaque) + quadrant_spec(
        origin,
        radius,
        Cardinal::South,
        opaque,
    ) + quadrant_spec(origin, radius, Cardinal::East, opaque) + quadrant_spec(
        origin,
        radius,
        Cardinal::West,
        opaque,
    )
}

proof fn lemma_square_bound(d: int, r: int)
    requires
        d * d <= r * r,
        r >= 0,
    ensures
        -r <= d <= r,
{
    if d > r {
        assert(d * d > r * r) by (nonlinear_arith)
            requires
                d > r,
                r >= 0,
        ;
    }
    if d < -r {
        assert(d * d > r * r) by (nonlinear_arith)
            requires
                d < -r,
                r >= 0,
        ;
    }
}

proof fn lemma_small_square(x: int)
    requires
        -MAX_DEPTH <= x <= MAX_DEPTH,
    ensures
        0 <= x * x <= 0x4000_0000_0000_0000,
{
    assert(0 <= x * x <= 0x4000_0000_0000_0000) by (nonlinear_arith)
        requires
            -0x8000_0000 <= x <= 0x8000_0000,
    ;
}

/// Scans `row` and every row it hands on, appending each cell marked visible to `out`.
fn scan<F: Fn(Point) -> bool>(
    quadrant: Quadrant,
    origin: Point,
    radius: i64,
    is_blocking: &F,
    row: Row,
    out: &mut Vec<Point>,
)
    requires
        row_ok(row),
        radius_fits(origin, radius as int),
        answers_consistently(*is_blocking, origin, radius as int),
    ensures
        final(out)@.to_set() == old(out)@.to_set() + scan_row_spec(
            origin,
            radius as int,
            quadrant.cardinal,
            opaque_of(*is_blocking),
            row,
        ),
        final(out)@.len() >= old(out)@.len(),
        forall|i: int| 0 <= i < old(out)@.len() ==> final(out)@[i] == old(out)@[i],
        forall|i: int| old(out)@.len() <= i < final(out)@.len() ==> final(out)@[i] != origin,
    decreases radius + 1 - row.depth,
{
    let ghost opq = opaque_of(*is_blocking);
    let ghost card = quadrant.cardinal;
    let ghost out0 = out@;
    if row.depth > radius {
        assert(out@.to_set() =~= out0.to_set() + scan_row_spec(origin, radius as int, card, opq, row));
        return ;
    }
    proof {
        lemma_round_bounds(row);
    }
    proof {
        lemma_scan_round_ok(row.start_slope, row.depth as int);
        lemma_scan_round_ok(row.end_slope, row.depth as int);
    }
    let lo = row.min_col();
    let hi = row.max_col();
    let mut cur = row;
    let mut col: i64 = lo;
    let mut prev: Option<bool> = None;
    assert(out@.to_set() + scan_cols_spec(origin, radius as int, card, opq, cur, col as int, hi as int, prev)
        =~= out0.to_set() + scan_row_spec(origin, radius as int, card, opq, row));
    while col <= hi
        invariant
            row_ok(row),
            row.depth <= radius,
            radius_fits(origin, radius as int),
            answers_consistently(*is_blocking, origin, radius as int),
            opq == opaque_of(*is_blocking),
            card == quadrant.cardinal,
            row_ok(cur),
            cur.depth == row.depth,
            -row.depth <= lo,
            hi <= row.depth,
            lo <= col,
            col <= hi + 1 || col == lo,
            prev.is_some() ==> col > lo,
            out@.to_set() + scan_cols_spec(origin, radius as int, card, opq, cur, col as int, hi as int, prev)
                == out0.to_set() + scan_row_spec(origin, radius as int, card, opq, row),
            out@.len() >= out0.len(),
            forall|i: int| 0 <= i < out0.len() ==> out@[i] == out0[i],
            forall|i: int| out0.len() <= i < out@.len() ==> out@[i] != origin,
        decreases hi + 1 - col,
    {
        let ghost before = out@.to_set();
        let ghost cur0 = cur;
        let ghost prev0 = prev;
        let d = quadrant.offset(cur.depth, col);
        let dx = d.0;
        let dy = d.1;
        proof {
            lemma_small_square(dx as int);
            lemma_small_square(dy as int);
            lemma_small_square(radius as int);
        }
        if (dx as i128) * (dx as i128) + (dy as i128) * (dy as i128) > (radius as i128) * (
        radius as i128) {
            col = col + 1;
        } else {
            proof {
                assert(dx * dx >= 0 && dy * dy >= 0) by (nonlinear_arith);
                lemma_square_bound(dx as int, radius as int);
                lemma_square_bound(dy as int, radius as int);
            }
            let tile = quadrant.transform(origin, cur.depth, col);
            assert(tile == cell_spec(card, origin, cur.depth as int, col as int));
            let b = is_blocking(tile);
            assert(b == opq(tile));
            let vis = if b {
                cur.is_wall_visible(col)
            } else {
                cur.is_symmetric(col)
            };
            if vis {
                out.push(tile);
            }
            match prev {
                Some(true) => {
                    if !b {
                        cur.start_slope = Row::slope(col, cur.depth);
                    }
                },
                Some(false) => {
                    if b {
                        let mut nr = cur.next();
                        nr.end_slope = Row::slope(col, cur.depth);
                        assert(nr == spawned_spec(cur, col as int));
                        scan(quadrant, origin, radius, is_blocking, nr, out);
                    }
                },
                None => {},
            }
            prev = Some(b);
            col = col + 1;
            assert(out@.to_set() + scan_cols_spec(origin, radius as int, card, opq, cur, col as int, hi as int, prev)
                =~= before + scan_cols_spec(origin, radius as int, card, opq, cur0, (col - 1) as int, hi as int, prev0));
        }
    }
    if prev == Some(false) {
        scan(quadrant, origin, radius, is_blocking, cur.next(), out);
    }
    assert(out@.to_set() =~= out0.to_set() + scan_row_spec(origin, radius as int, card, opq, row));
}

/// Every cell that symmetric shadowcasting marks visible from `origin` within
/// `max_radius`, in the order it marks them: the origin first, then the north, south,
/// east and west scans. The origin appears once; a cell on the boundary of two scans
/// may appear twice.
pub fn shadowcast_cells<F: Fn(Point) -> bool>(origin: Point, max_radius: i32, is_blocking: &F) -> (cells: Vec<Point>)
    requires
        radius_fits(origin, max_radius as int),
        answers_consistently(*is_blocking, origin, max_radius as int),
    ensures
        cells@.to_set() == fov_spec(origin, max_radius as int, opaque_of(*is_blocking)),
        cells@.len() >= 1,
        cells@[0] == origin,
        forall|i: int| 1 <= i < cells@.len() ==> cells@[i] != origin,
{
    let mut out: Vec<Point> = Vec::new();
    out.push(origin);
    let ghost opq = opaque_of(*is_blocking);
    let ghost r = max_radius as int;
    let first = Row::new(1, Fraction::new(-1, 1), Fraction::new(1, 1));
    assert(first == first_row());
    assert(out@.to_set() =~= set![origin]);
    scan(Quadrant { cardinal: Cardinal::North }, origin, max_radius as i64, is_blocking, first, &mut out);
    scan(Quadrant { cardinal: Cardinal::South }, origin, max_radius as i64, is_blocking, first, &mut out);
    scan(Quadrant { cardinal: Cardinal::East }, origin, max_radius as i64, is_blocking, first, &mut out);
    scan(Quadrant { cardinal: Cardinal::West }, origin, max_radius as i64, is_blocking, first, &mut out);
    assert(out@.to_set() =~= fov_spec(origin, r, opq));
    out
}

/// Hands every cell of `cells` to `mark_visible`, in order.
fn hand_over<G: FnMut(Point)>(cells: &Vec<Point>, mark_visible: &mut G)
    requires
        forall|p: Point| #[trigger] (*old(mark_visible)).requires((p,)),
    ensures
        forall|p: Point| #[trigger] cells@.contains(p) ==> (*old(mark_visible)).ensures((p,), ()),
{
    let mut i: usize = 0;
    while i < cells.len()
        invariant
            i <= cells@.len(),
            *mark_visible == *old(mark_visible),
            forall|p: Point| #[trigger] (*mark_visible).requires((p,)),
            forall|j: int| 0 <= j < i ==> (*old(mark_visible)).ensures((#[trigger] cells@[j],), ()),
        decreases cells.len() - i,
    {
        (*mark_visible)(cells[i]);
        i = i + 1;
    }
    assert forall|p: Point| #[trigger] cells@.contains(p) implies (*old(mark_visible)).ensures((p,), ()) by {
        let j = choose|j: int| 0 <= j < cells@.len() && cells@[j] == p;
        assert((*old(mark_visible)).ensures((cells@[j],), ()));
    }
}

/// Computes the field of view by symmetric shadowcasting and hands each visible cell
/// to `mark_visible`, in the order of `shadowcast_cells`: the origin exactly once and
/// first; a cell on the boundary of two scans may be handed over twice.
pub fn compute_fov<F: Fn(Point) -> bool, G: FnMut(Point)>(
    origin: Point,
    max_radius: i32,
    is_blocking: &F,
    mark_visible: &mut G,
)
    requires
        radius_fits(origin, max_radius as int),
        answers_consistently(*is_blocking, origin, max_radius as int),
        forall|p: Point| #[trigger] (*old(mark_visible)).requires((p,)),
    ensures
        forall|p: Point|
            #[trigger] fov_spec(origin, max_radius as int, opaque_of(*is_blocking)).contains(p)
                ==> (*old(mark_visible)).ensures((p,), ()),
{
    let cells = shadowcast_cells(origin, max_radius, is_blocking);
    hand_over(&cells, mark_visible);
}

/// Whether `p` occurs in `v`.
pub fn contains_point(v: &Vec<Point>, p: Point) -> (r: bool)
    ensures
        r == v@.contains(p),
{
    let mut i: usize = 0;
    while i < v.len()
        invariant
            i <= v.len(),
            forall|j: int| 0 <= j < i ==> v@[j] != p,
        decreases v.len() - i,
    {
        if v[i] == p {
            assert(v@[i as int] == p);
            return true;
        }
        i = i + 1;
    }
    false
}

/// The cells of `v` without repetition, each kept where it first occurs.
pub fn distinct_points(v: &Vec<Point>) -> (r: Vec<Point>)
    ensures
        r@.to_set() == v@.to_set(),
        r@.no_duplicates(),
{
    let mut out: Vec<Point> = Vec::new();
    let mut i: usize = 0;
    while i < v.len()
        invariant
            i <= v.len(),
            out@.to_set() == v@.subrange(0, i as int).to_set(),
            out@.no_duplicates(),
        decreases v.len() - i,
    {
        assert(v@.subrange(0, i + 1) == v@.subrange(0, i as int).push(v@[i as int]));
        proof {
            v@.subrange(0, i as int).lemma_push_to_set_commute(v@[i as int]);
        }
        if !contains_point(&out, v[i]) {
            out.push(v[i]);
        } else {
            assert(out@.to_set() =~= out@.to_set().insert(v@[i as int]));
        }
        i = i + 1;
    }
    assert(v@.subrange(0, v@.len() as int) == v@);
    out
}

/// The field of view as a set: each visible cell once, in no promised order.
pub fn compute_fov_collecting<F: Fn(Point) -> bool>(origin: Point, max_radius: i32, is_blocking: &F) -> (cells: Vec<Point>)
    requires
        radius_fits(origin, max_radius as int),
        answers_consistently(*is_blocking, origin, max_radius as int),
    ensures
        cells@.to_set() == fov_spec(origin, max_radius as int, opaque_of(*is_blocking)),
        cells@.no_duplicates(),
{
    let marks = shadowcast_cells(origin, max_radius, is_blocking);
    distinct_points(&marks)
}

/// `s` is the integer square root of `x`.
pub open spec fn is_isqrt(x: int, s: int) -> bool {
    0 <= s && s * s <= x && x < (s + 1) * (s + 1)
}

proof fn lemma_newton_step_stays_above(x: int, g: int, s: int)
    requires
        g >= 1,
        s >= 0,
        s * s <= x,
    ensures
        (g + x / g) / 2 >= s,
{
    let q = x / g;
    assert(x < g * (q + 1)) by (nonlinear_arith)
        requires
            q == x / g,
            g >= 1,
    ;
    if g + q < 2 * s {
        assert(g * (q + 1) <= g * (2 * s - g)) by (nonlinear_arith)
            requires
                q + 1 <= 2 * s - g,
                g >= 1,
        ;
        assert(g * (2 * s - g) <= s * s) by (nonlinear_arith);
    }
}

/// Integer square root by Newton's method: the largest `r` with `r * r <= x`, and 0
/// for `x <= 0`.
pub fn isqrt(x: i64) -> (r: i64)
    ensures
        x <= 0 ==> r == 0,
        x > 0 ==> 0 <= r && r * r <= x < (r + 1) * (r + 1),
{
    if x <= 0 {
        return 0;
    }
    if x == 1 {
        return 1;
    }
    proof {
        lemma_sqrt_exists(x as int);
    }
    let ghost s = choose|s: int| is_isqrt(x as int, s);
    let xx = x as i128;
    let mut guess: i128 = xx;
    let mut result: i128 = (guess + 1) / 2;
    proof {
        assert(s <= x) by (nonlinear_arith)
            requires
                s * s <= x,
                s >= 0,
                x >= 2,
        ;
        assert((guess + xx / guess) / 2 == (guess + 1) / 2) by (nonlinear_arith)
            requires
                guess == xx,
                xx >= 2,
        ;
        lemma_newton_step_stays_above(x as int, guess as int, s);
    }
    while result < guess
        invariant
            xx == x,
            x >= 2,
            0 <= s && s * s <= x && x < (s + 1) * (s + 1),
            1 <= guess <= xx,
            s <= guess,
            s <= result,
            result == (guess + xx / guess) / 2,
        decreases guess,
    {
        guess = result;
        proof {
            assert(guess >= 1) by (nonlinear_arith)
                requires
                    s <= guess,
                    s * s <= x,
                    x >= 2,
                    (s + 1) * (s + 1) > x,
                    s >= 0,
            ;
            assert(0 <= xx / guess <= xx) by (nonlinear_arith)
                requires
                    guess >= 1,
                    xx >= 0,
            ;
            lemma_newton_step_stays_above(x as int, guess as int, s);
        }
        result = (guess + xx / guess) / 2;
    }
    proof {
        assert(guess * guess <= x) by (nonlinear_arith)
            requires
                (guess + xx / guess) / 2 >= guess,
                guess >= 1,
                xx == x,
        {
            assert(xx / guess >= guess) by (nonlinear_arith)
                requires
                    (guess + xx / guess) / 2 >= guess,
            ;
            assert(guess * (xx / guess) <= xx) by (nonlinear_arith)
                requires
                    guess >= 1,
                    xx >= 0,
            ;
            assert(guess * guess <= guess * (xx / guess)) by (nonlinear_arith)
                requires
                    xx / guess >= guess,
                    guess >= 1,
            ;
        }
        if guess > s {
            assert(guess * guess >= (s + 1) * (s + 1)) by (nonlinear_arith)
                requires
                    guess >= s + 1,
                    s >= 0,
            ;
        }
    }
    guess as i64
}

proof fn lemma_sqrt_exists(x: int)
    requires
        x >= 0,
    ensures
        exists|s: int| is_isqrt(x, s),
    decreases x,
{
    if x == 0 {
        assert(is_isqrt(0, 0));
    } else {
        lemma_sqrt_exists(x - 1);
        let y = x - 1;
        let t = choose|t: int| is_isqrt(y, t);
        if x < (t + 1) * (t + 1) {
            assert(is_isqrt(x, t));
        } else {
            assert((t + 1) * (t + 1) == x);
            assert(x < (t + 2) * (t + 2)) by (nonlinear_arith)
                requires
                    (t + 1) * (t + 1) == x,
                    t >= 0,
            ;
            assert(is_isqrt(x, t + 1));
        }
    }
}

/// The cells within `radius` of `origin`, boundary included.
pub open spec fn disk_spec(origin: Point, radius: int) -> Set<Point> {
    Set::new(|p: Point| dist2(p, origin) <= radius * radius)
}

/// `a` comes before `b` row by row, then column by column.
pub open spec fn row_major_lt(a: Point, b: Point) -> bool {
    a.y < b.y || (a.y == b.y && a.x < b.x)
}

proof fn lemma_isqrt_range(a: int, t: int, s: int)
    requires
        t >= 0,
        s >= 0,
        s * s <= t < (s + 1) * (s + 1),
    ensures
        (a * a <= t) <==> (-s <= a <= s),
{
    if -s <= a <= s {
        assert(a * a <= s * s) by (nonlinear_arith)
            requires
                -s <= a <= s,
        ;
    } else {
        assert(a * a >= (s + 1) * (s + 1)) by (nonlinear_arith)
            requires
                a > s || a < -s,
                s >= 0,
        ;
    }
}

/// Every cell within `radius` of `origin`, each once, row by row.
pub fn circle_cells(origin: Point, radius: i32) -> (cells: Vec<Point>)
    requires
        radius_fits(origin, radius as int),
    ensures
        cells@.to_set() == disk_spec(origin, radius as int),
        cells@.no_duplicates(),
{
    let ghost r = radius as int;
    let rr: i64 = radius as i64;
    proof {
        lemma_small_square(r);
    }
    let r2: i64 = rr * rr;
    let mut out: Vec<Point> = Vec::new();
    let mut dy: i64 = -rr;
    proof {
        assert forall|p: Point| dist2(p, origin) <= r * r implies -r <= #[trigger] (p.y - origin.y) by {
            assert((p.x - origin.x) * (p.x - origin.x) >= 0) by (nonlinear_arith);
            lemma_square_bound(p.y - origin.y, r);
        }
    }
    while dy <= rr
        invariant
            radius_fits(origin, r),
            rr == r,
            r2 == r * r,
            -r <= dy <= r + 1,
            forall|p: Point|
                #[trigger] out@.contains(p) <==> (dist2(p, origin) <= r * r && p.y - origin.y < dy),
            forall|i: int, j: int|
                0 <= i < j < out@.len() ==> row_major_lt(#[trigger] out@[i], #[trigger] out@[j]),
            forall|i: int| 0 <= i < out@.len() ==> #[trigger] out@[i].y - origin.y < dy,
        decreases r + 1 - dy,
    {
        proof {
            lemma_small_square(dy as int);
        }
        let rest = r2 - dy * dy;
        let max_dx = isqrt(rest);
        proof {
            assert(dy * dy <= r * r) by (nonlinear_arith)
                requires
                    -r <= dy <= r,
            ;
            assert(max_dx <= r) by (nonlinear_arith)
                requires
                    max_dx * max_dx <= r * r,
                    max_dx >= 0,
                    r >= 0,
            ;
        }
        let mut dx: i64 = -max_dx;
        proof {
            assert forall|p: Point|
                p.y - origin.y == dy && dist2(p, origin) <= r * r implies -max_dx <= #[trigger] (p.x - origin.x) <= max_dx by {
                lemma_isqrt_range(p.x - origin.x, rest as int, max_dx as int);
            }
        }
        while dx <= max_dx
            invariant
                radius_fits(origin, r),
                rr == r,
                r2 == r * r,
                -r <= dy <= r,
                rest == r * r - dy * dy,
                rest >= 0,
                0 <= max_dx <= r,
                max_dx * max_dx <= rest < (max_dx + 1) * (max_dx + 1),
                -max_dx <= dx <= max_dx + 1,
                forall|p: Point|
                    #[trigger] out@.contains(p) <==> (dist2(p, origin) <= r * r && (p.y
                        - origin.y < dy || (p.y - origin.y == dy && p.x - origin.x < dx))),
                forall|i: int, j: int|
                    0 <= i < j < out@.len() ==> row_major_lt(#[trigger] out@[i], #[trigger] out@[j]),
                forall|i: int|
                    0 <= i < out@.len() ==> (#[trigger] out@[i].y - origin.y < dy || (out@[i].y
                        - origin.y == dy && out@[i].x - origin.x < dx)),
            decreases max_dx + 1 - dx,
        {
            let q = Point { x: (origin.x as i64 + dx) as i32, y: (origin.y as i64 + dy) as i32 };
            let ghost before = out@;
            proof {
                lemma_isqrt_range(dx as int, rest as int, max_dx as int);
                assert(dist2(q, origin) <= r * r);
                assert forall|p: Point| #[trigger] before.push(q).contains(p) <==> (before.contains(p) || p == q) by {
                    if p == q {
                        assert(before.push(q)[before.len() as int] == q);
                    }
                    if before.push(q).contains(p) {
                        let k = choose|k: int| 0 <= k < before.len() + 1 && before.push(q)[k] == p;
                        if k < before.len() {
                            assert(before[k] == p);
                        }
                    }
                    if before.contains(p) {
                        let k = choose|k: int| 0 <= k < before.len() && before[k] == p;
                        assert(before.push(q)[k] == p);
                    }
                }
                assert forall|p: Point|
                    dist2(p, origin) <= r * r && p.y - origin.y == dy && p.x - origin.x == dx implies p == q by {}
                assert forall|p: Point|
                    p.y - origin.y == dy && dist2(p, origin) <= r * r implies -max_dx <= #[trigger] (p.x - origin.x) <= max_dx by {
                    lemma_isqrt_range(p.x - origin.x, rest as int, max_dx as int);
                }
            }
            out.push(q);
            dx = dx + 1;
        }
        proof {
            assert forall|p: Point|
                p.y - origin.y == dy && dist2(p, origin) <= r * r implies -max_dx <= #[trigger] (p.x - origin.x) <= max_dx by {
                lemma_isqrt_range(p.x - origin.x, rest as int, max_dx as int);
            }
        }
        dy = dy + 1;
    }
    proof {
        assert forall|p: Point| dist2(p, origin) <= r * r implies #[trigger] (p.y - origin.y) <= r by {
            assert((p.x - origin.x) * (p.x - origin.x) >= 0) by (nonlinear_arith);
            lemma_square_bound(p.y - origin.y, r);
        }
        assert forall|i: int, j: int| 0 <= i < out@.len() && 0 <= j < out@.len() && i != j implies out@[i] != out@[j] by {
            if i < j {
                assert(row_major_lt(out@[i], out@[j]));
            } else {
                assert(row_major_lt(out@[j], out@[i]));
            }
        }
    }
    assert(out@.to_set() =~= disk_spec(origin, r));
    out
}

/// Reveals every cell within `radius` of `origin`, ignoring opacity: hands each cell of
/// `circle_cells` to `mark_visible`, once, row by row.
pub fn compute_fov_circle<G: FnMut(Point)>(origin: Point, radius: i32, mark_visible: &mut G)
    requires
        radius_fits(origin, radius as int),
        forall|p: Point| #[trigger] (*old(mark_visible)).requires((p,)),
    ensures
        forall|p: Point|
            #[trigger] disk_spec(origin, radius as int).contains(p) ==> (*old(
                mark_visible,
            )).ensures((p,), ()),
{
    let cells = circle_cells(origin, radius);
    hand_over(&cells, mark_visible);
}

/// The field of view limited to the scans that a direction faces: the origin and the
/// north, south, east and west scans for the direction's north, south, east and west
/// components (north is toward smaller `y`).
pub open spec fn directed_fov_spec(
    origin: Point,
    radius: int,
    opaque: spec_fn(Point) -> bool,
    d: Direction,
) -> Set<Point> {
    set![origin] + (if has_flag(d.bits, NORTH) {
        quadrant_spec(origin, radius, Cardinal::North, opaque)
    } else {
        Set::empty()
    }) + (if has_flag(d.bits, SOUTH) {
        quadrant_spec(origin, radius, Cardinal::South, opaque)
    } else {
        Set::empty()
    }) + (if has_flag(d.bits, EAST) {
        quadrant_spec(origin, radius, Cardinal::East, opaque)
    } else {
        Set::empty()
    }) + (if has_flag(d.bits, WEST) {
        quadrant_spec(origin, radius, Cardinal::West, opaque)
    } else {
        Set::empty()
    })
}

/// The cells that the scans a direction faces mark, origin first.
pub fn shadowcast_cells_toward<F: Fn(Point) -> bool>(
    origin: Point,
    max_radius: i32,
    is_blocking: &F,
    direction: Direction,
) -> (cells: Vec<Point>)
    requires
        radius_fits(origin, max_radius as int),
        answers_consistently(*is_blocking, origin, max_radius as int),
    ensures
        cells@.to_set() == directed_fov_spec(origin, max_radius as int, opaque_of(*is_blocking), direction),
        cells@.len() >= 1,
        cells@[0] == origin,
        forall|i: int| 1 <= i < cells@.len() ==> cells@[i] != origin,
{
    let mut out: Vec<Point> = Vec::new();
    out.push(origin);
    let ghost opq = opaque_of(*is_blocking);
    let ghost r = max_radius as int;
    let first = Row::new(1, Fraction::new(-1, 1), Fraction::new(1, 1));
    assert(first == first_row());
    assert(out@.to_set() =~= set![origin]);
    let ghost s0 = out@.to_set();
    if direction.has_north() {
        scan(Quadrant { cardinal: Cardinal::North }, origin, max_radius as i64, is_blocking, first, &mut out);
    }
    let ghost s1 = out@.to_set();
    assert(s1 =~= s0 + (if has_flag(direction.bits, NORTH) { quadrant_spec(origin, r, Cardinal::North, opq) } else { Set::empty() }));
    if direction.has_south() {
        scan(Quadrant { cardinal: Cardinal::South }, origin, max_radius as i64, is_blocking, first, &mut out);
    }
    let ghost s2 = out@.to_set();
    assert(s2 =~= s1 + (if has_flag(direction.bits, SOUTH) { quadrant_spec(origin, r, Cardinal::South, opq) } else { Set::empty() }));
    if direction.has_east() {
        scan(Quadrant { cardinal: Cardinal::East }, origin, max_radius as i64, is_blocking, first, &mut out);
    }
    let ghost s3 = out@.to_set();
    assert(s3 =~= s2 + (if has_flag(direction.bits, EAST) { quadrant_spec(origin, r, Cardinal::East, opq) } else { Set::empty() }));
    if direction.has_west() {
        scan(Quadrant { cardinal: Cardinal::West }, origin, max_radius as i64, is_blocking, first, &mut out);
    }
    assert(out@.to_set() =~= directed_fov_spec(origin, r, opq, direction));
    out
}

/// The field-of-view strategies callers may select.
#[derive(Clone, Copy, PartialEq, Eq, Structural, Debug)]
pub enum Fov {
    /// The Adams strategy; this library answers it with symmetric shadowcasting, which
    /// meets the same contract.
    Adams,
    /// Symmetric shadowcasting in all four directions.
    Shadowcast,
    /// Symmetric shadowcasting limited to the scans the direction faces.
    ShadowcastDirection(Direction),
}

/// The field of view that a strategy selects.
pub open spec fn fov_select_spec(
    fov: Fov,
    origin: Point,
    radius: int,
    opaque: spec_fn(Point) -> bool,
) -> Set<Point> {
    match fov {
        Fov::ShadowcastDirection(d) => directed_fov_spec(origin, radius, opaque, d),
        _ => fov_spec(origin, radius, opaque),
    }
}

impl Fov {
    /// The visible cells from `origin` within `range`, each once.
    pub fn compute<F: Fn(Point) -> bool>(&self, origin: Point, range: u32, is_blocking: &F) -> (cells: Vec<Point>)
        requires
            range <= i32::MAX,
            radius_fits(origin, range as int),
            answers_consistently(*is_blocking, origin, range as int),
        ensures
            cells@.to_set() == fov_select_spec(*self, origin, range as int, opaque_of(*is_blocking)),
            cells@.no_duplicates(),
    {
        let marks = match self {
            Fov::ShadowcastDirection(d) => shadowcast_cells_toward(origin, range as i32, is_blocking, *d),
            _ => shadowcast_cells(origin, range as i32, is_blocking),
        };
        distinct_points(&marks)
    }

    /// Whether `target` is visible from `origin` within `range`.
    pub fn within_fov<F: Fn(Point) -> bool>(
        &self,
        origin: Point,
        target: Point,
        range: u32,
        is_blocking: &F,
    ) -> (r: bool)
        requires
            range <= i32::MAX,
            radius_fits(origin, range as int),
            answers_consistently(*is_blocking, origin, range as int),
        ensures
            r == fov_select_spec(*self, origin, range as int, opaque_of(*is_blocking)).contains(target),
    {
        let cells = self.compute(origin, range, is_blocking);
        contains_point(&cells, target)
    }
}

} // verus!
