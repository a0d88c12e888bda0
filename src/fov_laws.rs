//! Properties of the shadowcast field of view, proved over its model.
use vstd::prelude::*;
use crate::point::{Point, dist2};
use crate::fov::{
    spawned_spec, slope_spec, Cardinal, Fraction, Row, cell_spec, disk_spec, first_row, fov_spec, in_radius, next_spec,
    offset_spec, quadrant_spec, radius_fits, round_ties_down_spec, round_ties_up_spec,
    scan_cols_spec, scan_live, scan_row_spec, symmetric_spec, transform_spec, MAX_DEPTH,
};

verus! {

/// The row at `depth` with the full slope interval `[-1, 1]`.
pub open spec fn open_row(depth: int) -> Row {
    Row {
        depth: depth as i64,
        start_slope: Fraction { numerator: -1i64, denominator: 1i64 },
        end_slope: Fraction { numerator: 1i64, denominator: 1i64 },
    }
}

/// The cells of the scan facing `cardinal` at depths `lo..=radius`, at any column
/// from `-depth` to `depth` (from `first_col` at depth `lo`), within the radius.
pub open spec fn open_cells(
    origin: Point,
    radius: int,
    cardinal: Cardinal,
    lo: int,
    first_col: int,
) -> Set<Point> {
    Set::new(
        |p: Point|
            exists|d: int, c: int|
                lo <= d <= radius && -d <= c <= d && (d > lo || c >= first_col) && in_radius(
                    cardinal,
                    d,
                    c,
                    radius,
                ) && p == #[trigger] cell_spec(cardinal, origin, d, c),
    )
}

proof fn lemma_open_cols(
    origin: Point,
    radius: int,
    cardinal: Cardinal,
    opaque: spec_fn(Point) -> bool,
    depth: int,
    col: int,
    prev: Option<bool>,
)
    requires
        forall|p: Point| !#[trigger] opaque(p),
        0 <= radius < MAX_DEPTH,
        1 <= depth <= radius,
        -depth <= col <= depth + 1,
        col <= 0 || prev == Some(false),
        prev != Some(true),
    ensures
        scan_cols_spec(origin, radius, cardinal, opaque, open_row(depth), col, depth, prev)
            == open_cells(origin, radius, cardinal, depth, col),
    decreases radius + 1 - depth, depth + 1 - col,
{
    let row = open_row(depth);
    assert(scan_live(radius, row));
    if col > depth {
        lemma_open_rows(origin, radius, cardinal, opaque, depth + 1);
        assert(next_spec(row) == open_row(depth + 1));
        assert forall|p: Point|
            open_cells(origin, radius, cardinal, depth, col).contains(p) <==> open_cells(
                origin,
                radius,
                cardinal,
                depth + 1,
                -(depth + 1),
            ).contains(p) by {
            if open_cells(origin, radius, cardinal, depth, col).contains(p) {
                let (d, c) = choose|d: int, c: int|
                    depth <= d <= radius && -d <= c <= d && (d > depth || c >= col) && in_radius(
                        cardinal,
                        d,
                        c,
                        radius,
                    ) && p == #[trigger] cell_spec(cardinal, origin, d, c);
                assert(d > depth);
            }
        }
        assert(scan_cols_spec(origin, radius, cardinal, opaque, row, col, depth, prev)
            =~= open_cells(origin, radius, cardinal, depth, col));
    } else if !in_radius(cardinal, depth, col, radius) {
        if col == 0 {
            let o = offset_spec(cardinal, depth, 0);
            assert(o.0 * o.0 + o.1 * o.1 == depth * depth) by (nonlinear_arith)
                requires
                    (o.0 == 0 && (o.1 == depth || o.1 == -depth)) || (o.1 == 0 && (o.0 == depth
                        || o.0 == -depth)),
            ;
            assert(depth * depth <= radius * radius) by (nonlinear_arith)
                requires
                    0 <= depth <= radius,
            ;
        }
        lemma_open_cols(origin, radius, cardinal, opaque, depth, col + 1, prev);
        assert forall|p: Point|
            open_cells(origin, radius, cardinal, depth, col).contains(p) <==> open_cells(
                origin,
                radius,
                cardinal,
                depth,
                col + 1,
            ).contains(p) by {
            if open_cells(origin, radius, cardinal, depth, col).contains(p) {
                let (d, c) = choose|d: int, c: int|
                    depth <= d <= radius && -d <= c <= d && (d > depth || c >= col) && in_radius(
                        cardinal,
                        d,
                        c,
                        radius,
                    ) && p == #[trigger] cell_spec(cardinal, origin, d, c);
                assert(d > depth || c >= col + 1);
            }
        }
        assert(scan_cols_spec(origin, radius, cardinal, opaque, row, col, depth, prev)
            =~= open_cells(origin, radius, cardinal, depth, col));
    } else {
        let p0 = cell_spec(cardinal, origin, depth, col);
        assert(!opaque(p0));
        assert(symmetric_spec(row, col));
        lemma_open_cols(origin, radius, cardinal, opaque, depth, col + 1, Some(false));
        assert forall|p: Point|
            open_cells(origin, radius, cardinal, depth, col).contains(p) <==> (p == p0
                || open_cells(origin, radius, cardinal, depth, col + 1).contains(p)) by {
            if open_cells(origin, radius, cardinal, depth, col).contains(p) {
                let (d, c) = choose|d: int, c: int|
                    depth <= d <= radius && -d <= c <= d && (d > depth || c >= col) && in_radius(
                        cardinal,
                        d,
                        c,
                        radius,
                    ) && p == #[trigger] cell_spec(cardinal, origin, d, c);
                if d == depth && c == col {
                    assert(p == p0);
                } else {
                    assert(d > depth || c >= col + 1);
                }
            }
            if p == p0 {
                assert(open_cells(origin, radius, cardinal, depth, col).contains(p)) by {
                    assert(p == cell_spec(cardinal, origin, depth, col));
                }
            }
        }
        assert(scan_cols_spec(origin, radius, cardinal, opaque, row, col, depth, prev)
            =~= open_cells(origin, radius, cardinal, depth, col));
    }
}

proof fn lemma_open_rows(
    origin: Point,
    radius: int,
    cardinal: Cardinal,
    opaque: spec_fn(Point) -> bool,
    depth: int,
)
    requires
        forall|p: Point| !#[trigger] opaque(p),
        0 <= radius < MAX_DEPTH,
        1 <= depth <= radius + 1,
    ensures
        scan_row_spec(origin, radius, cardinal, opaque, open_row(depth)) == open_cells(
            origin,
            radius,
            cardinal,
            depth,
            -depth,
        ),
    decreases radius + 1 - depth, 2 * depth + 2,
{
    let row = open_row(depth);
    if depth > radius {
        assert(open_cells(origin, radius, cardinal, depth, -depth) =~= Set::<Point>::empty());
    } else {
        assert(round_ties_up_spec(row.start_slope, depth) == -depth) by {
            assert(2 * (-1 * depth) + 1 == 2 * (-depth) + 1);
            assert((2 * (-depth) + 1) / 2 == -depth);
        }
        assert(round_ties_down_spec(row.end_slope, depth) == depth) by {
            assert(-(2 * (1 * depth) - 1) == 2 * (-depth) + 1);
            assert((2 * (-depth) + 1) / 2 == -depth);
        }
        lemma_open_cols(origin, radius, cardinal, opaque, depth, -depth, None);
    }
}

/// The origin is always in the field of view, whatever the opacity and radius.
pub proof fn lemma_origin_visible(origin: Point, radius: int, opaque: spec_fn(Point) -> bool)
    ensures
        fov_spec(origin, radius, opaque).contains(origin),
{
}

/// The field of view depends on nothing but the origin, the radius and the opacity of
/// each cell: two opacity predicates that agree on every cell give the same set.
pub proof fn lemma_fov_deterministic(
    origin: Point,
    radius: int,
    opaque_a: spec_fn(Point) -> bool,
    opaque_b: spec_fn(Point) -> bool,
)
    requires
        forall|p: Point| #[trigger] opaque_a(p) == opaque_b(p),
    ensures
        fov_spec(origin, radius, opaque_a) == fov_spec(origin, radius, opaque_b),
{
    assert(opaque_a =~= opaque_b);
}

proof fn lemma_quadrant_in_disk(origin: Point, radius: int, cardinal: Cardinal, p: Point)
    requires
        radius_fits(origin, radius),
        open_cells(origin, radius, cardinal, 1, -1).contains(p),
    ensures
        disk_spec(origin, radius).contains(p),
        p != origin,
{
    let (d, c) = choose|d: int, c: int|
        1 <= d <= radius && -d <= c <= d && (d > 1 || c >= -1) && in_radius(cardinal, d, c, radius)
            && p == #[trigger] cell_spec(cardinal, origin, d, c);
    let t = transform_spec(cardinal, origin, d, c);
    assert(i32::MIN <= t.0 <= i32::MAX && i32::MIN <= t.1 <= i32::MAX);
    assert(p.x == t.0 && p.y == t.1);
}

/// On a map where no cell is opaque, the shadowcast field of view is exactly the disk
/// of cells within the radius: the same set that the unobstructed circle reveals.
pub proof fn lemma_open_map_is_disk(origin: Point, radius: int, opaque: spec_fn(Point) -> bool)
    requires
        radius_fits(origin, radius),
        forall|p: Point| !#[trigger] opaque(p),
    ensures
        fov_spec(origin, radius, opaque) == disk_spec(origin, radius),
{
    let r = radius;
    assert(first_row() == open_row(1));
    if r >= 1 {
        lemma_open_rows(origin, r, Cardinal::North, opaque, 1);
        lemma_open_rows(origin, r, Cardinal::South, opaque, 1);
        lemma_open_rows(origin, r, Cardinal::East, opaque, 1);
        lemma_open_rows(origin, r, Cardinal::West, opaque, 1);
    } else {
        lemma_open_rows(origin, r, Cardinal::North, opaque, 1);
        lemma_open_rows(origin, r, Cardinal::South, opaque, 1);
        lemma_open_rows(origin, r, Cardinal::East, opaque, 1);
        lemma_open_rows(origin, r, Cardinal::West, opaque, 1);
    }
    assert forall|p: Point| fov_spec(origin, r, opaque).contains(p) implies disk_spec(
        origin,
        r,
    ).contains(p) by {
        if p == origin {
            assert(dist2(p, origin) == 0);
        } else if quadrant_spec(origin, r, Cardinal::North, opaque).contains(p) {
            lemma_quadrant_in_disk(origin, r, Cardinal::North, p);
        } else if quadrant_spec(origin, r, Cardinal::South, opaque).contains(p) {
            lemma_quadrant_in_disk(origin, r, Cardinal::South, p);
        } else if quadrant_spec(origin, r, Cardinal::East, opaque).contains(p) {
            lemma_quadrant_in_disk(origin, r, Cardinal::East, p);
        } else {
            lemma_quadrant_in_disk(origin, r, Cardinal::West, p);
        }
    }
    assert forall|p: Point| disk_spec(origin, r).contains(p) implies fov_spec(
        origin,
        r,
        opaque,
    ).contains(p) by {
        let dx = p.x - origin.x;
        let dy = p.y - origin.y;
        assert(dx * dx >= 0 && dy * dy >= 0) by (nonlinear_arith);
        crate::fov_laws::lemma_bound(dx, r, dy);
        crate::fov_laws::lemma_bound(dy, r, dx);
        if p != origin {
            if dy < 0 && -dy >= dx && -dy >= -dx {
                assert(p == cell_spec(Cardinal::North, origin, -dy, dx));
                assert(open_cells(origin, r, Cardinal::North, 1, -1).contains(p));
            } else if dy > 0 && dy >= dx && dy >= -dx {
                assert(p == cell_spec(Cardinal::South, origin, dy, dx));
                assert(open_cells(origin, r, Cardinal::South, 1, -1).contains(p));
            } else if dx > 0 {
                assert(p == cell_spec(Cardinal::East, origin, dx, dy));
                assert(open_cells(origin, r, Cardinal::East, 1, -1).contains(p));
            } else {
                assert(p == cell_spec(Cardinal::West, origin, -dx, dy));
                assert(open_cells(origin, r, Cardinal::West, 1, -1).contains(p));
            }
        }
    }
    assert(fov_spec(origin, r, opaque) =~= disk_spec(origin, r));
}

proof fn lemma_bound(a: int, r: int, b: int)
    requires
        a * a + b * b <= r * r,
        b * b >= 0,
        r >= 0,
    ensures
        -r <= a <= r,
{
    if a > r || a < -r {
        assert(a * a > r * r) by (nonlinear_arith)
            requires
                a > r || a < -r,
                r >= 0,
        ;
    }
}

/// On a map where no cell is opaque, every diagonal cell `(d, d)`, `(-d, d)`,
/// `(d, -d)`, `(-d, -d)` from the origin with `2 d^2 <= radius^2` is visible.
pub proof fn lemma_open_map_diagonals(
    origin: Point,
    radius: int,
    opaque: spec_fn(Point) -> bool,
    d: int,
    p: Point,
)
    requires
        radius_fits(origin, radius),
        forall|q: Point| !#[trigger] opaque(q),
        2 * d * d <= radius * radius,
        p.x - origin.x == d || p.x - origin.x == -d,
        p.y - origin.y == d || p.y - origin.y == -d,
    ensures
        fov_spec(origin, radius, opaque).contains(p),
{
    lemma_open_map_is_disk(origin, radius, opaque);
    assert(dist2(p, origin) == 2 * d * d) by (nonlinear_arith)
        requires
            p.x - origin.x == d || p.x - origin.x == -d,
            p.y - origin.y == d || p.y - origin.y == -d,
    ;
}

/// On a map where no cell is opaque, a larger radius sees everything a smaller one
/// does.
pub proof fn lemma_open_map_radius_monotone(
    origin: Point,
    radius: int,
    opaque: spec_fn(Point) -> bool,
)
    requires
        radius_fits(origin, radius + 1),
        radius >= 0,
        forall|p: Point| !#[trigger] opaque(p),
    ensures
        fov_spec(origin, radius, opaque).subset_of(fov_spec(origin, radius + 1, opaque)),
{
    lemma_open_map_is_disk(origin, radius, opaque);
    lemma_open_map_is_disk(origin, radius + 1, opaque);
    assert(radius * radius <= (radius + 1) * (radius + 1)) by (nonlinear_arith)
        requires
            radius >= 0,
    ;
}

/// On a map where no cell is opaque, `b` is visible from `a` exactly when `a` is
/// visible from `b`.
pub proof fn lemma_open_map_symmetric(
    a: Point,
    b: Point,
    radius: int,
    opaque: spec_fn(Point) -> bool,
)
    requires
        radius_fits(a, radius),
        radius_fits(b, radius),
        forall|p: Point| !#[trigger] opaque(p),
    ensures
        fov_spec(a, radius, opaque).contains(b) == fov_spec(b, radius, opaque).contains(a),
{
    lemma_open_map_is_disk(a, radius, opaque);
    lemma_open_map_is_disk(b, radius, opaque);
    assert(dist2(a, b) == dist2(b, a)) by (nonlinear_arith);
}

proof fn lemma_cell_in_disk(origin: Point, radius: int, cardinal: Cardinal, depth: int, col: int)
    requires
        radius_fits(origin, radius),
        in_radius(cardinal, depth, col, radius),
    ensures
        disk_spec(origin, radius).contains(cell_spec(cardinal, origin, depth, col)),
{
    let o = offset_spec(cardinal, depth, col);
    assert(o.0 * o.0 >= 0 && o.1 * o.1 >= 0) by (nonlinear_arith);
    lemma_bound(o.0, radius, o.1);
    lemma_bound(o.1, radius, o.0);
    let t = transform_spec(cardinal, origin, depth, col);
    assert(t.0 == origin.x + o.0 && t.1 == origin.y + o.1);
    let p = cell_spec(cardinal, origin, depth, col);
    assert(p.x == t.0 && p.y == t.1);
}

proof fn lemma_scan_row_in_disk(
    origin: Point,
    radius: int,
    cardinal: Cardinal,
    opaque: spec_fn(Point) -> bool,
    row: Row,
)
    requires
        radius_fits(origin, radius),
    ensures
        scan_row_spec(origin, radius, cardinal, opaque, row).subset_of(disk_spec(origin, radius)),
    decreases radius + 1 - row.depth, 1int, 0int,
{
    if scan_live(radius, row) {
        lemma_scan_cols_in_disk(
            origin,
            radius,
            cardinal,
            opaque,
            row,
            round_ties_up_spec(row.start_slope, row.depth as int),
            round_ties_down_spec(row.end_slope, row.depth as int),
            None,
        );
    }
}

proof fn lemma_scan_cols_in_disk(
    origin: Point,
    radius: int,
    cardinal: Cardinal,
    opaque: spec_fn(Point) -> bool,
    row: Row,
    col: int,
    hi: int,
    prev: Option<bool>,
)
    requires
        radius_fits(origin, radius),
    ensures
        scan_cols_spec(origin, radius, cardinal, opaque, row, col, hi, prev).subset_of(
            disk_spec(origin, radius),
        ),
    decreases radius + 1 - row.depth, 0int, hi + 1 - col,
{
    if !scan_live(radius, row) {
    } else if col > hi {
        if prev == Some(false) {
            lemma_scan_row_in_disk(origin, radius, cardinal, opaque, next_spec(row));
        }
    } else if !in_radius(cardinal, row.depth as int, col, radius) {
        lemma_scan_cols_in_disk(origin, radius, cardinal, opaque, row, col + 1, hi, prev);
    } else {
        let p = cell_spec(cardinal, origin, row.depth as int, col);
        let b = opaque(p);
        lemma_cell_in_disk(origin, radius, cardinal, row.depth as int, col);
        if prev == Some(false) && b {
            lemma_scan_row_in_disk(origin, radius, cardinal, opaque, spawned_spec(row, col));
        }
        let rest_row = if prev == Some(true) && !b {
            Row { start_slope: slope_spec(col, row.depth as int), ..row }
        } else {
            row
        };
        lemma_scan_cols_in_disk(origin, radius, cardinal, opaque, rest_row, col + 1, hi, Some(b));
    }
}

/// Every cell of the field of view lies within the radius of the origin, whatever the
/// opacity; at radius 0 the origin is the only cell.
pub proof fn lemma_fov_within_radius(origin: Point, radius: int, opaque: spec_fn(Point) -> bool)
    requires
        radius_fits(origin, radius),
    ensures
        fov_spec(origin, radius, opaque).subset_of(disk_spec(origin, radius)),
        radius == 0 ==> fov_spec(origin, radius, opaque) == set![origin],
{
    lemma_scan_row_in_disk(origin, radius, Cardinal::North, opaque, first_row());
    lemma_scan_row_in_disk(origin, radius, Cardinal::South, opaque, first_row());
    lemma_scan_row_in_disk(origin, radius, Cardinal::East, opaque, first_row());
    lemma_scan_row_in_disk(origin, radius, Cardinal::West, opaque, first_row());
    assert(dist2(origin, origin) == 0);
    if radius == 0 {
        assert(fov_spec(origin, radius, opaque) =~= set![origin]);
    }
}

} // verus!
