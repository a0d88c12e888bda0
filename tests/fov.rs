use runeforge::fov::{
    circle_cells, compute_fov, compute_fov_circle, compute_fov_collecting, isqrt, shadowcast_cells,
    Fov, Fraction, Row,
};
use runeforge::direction::{Direction, NORTH, EAST};
use runeforge::point::Point;
use std::collections::HashSet;

fn as_set(v: &[Point]) -> HashSet<(i32, i32)> {
    v.iter().map(|p| (p.x, p.y)).collect()
}

#[test]
fn test_fov_empty_room() {
    let origin = Point::new(5, 5);
    let mut visible = Vec::new();
    compute_fov(origin, 5, &|_| false, &mut |p| visible.push(p));
    assert!(visible.contains(&origin));
    assert!(visible.len() > 10);
}

#[test]
fn test_fov_with_wall() {
    let origin = Point::new(5, 5);
    let wall = Point::new(7, 7);
    let behind_wall = Point::new(9, 9);
    let mut visible = Vec::new();
    compute_fov(origin, 10, &|p| p == wall, &mut |p| visible.push(p));
    assert!(visible.contains(&origin));
    assert!(visible.contains(&wall));
    assert!(!visible.contains(&behind_wall));
    assert!(visible.contains(&Point::new(6, 5)));
    assert!(visible.contains(&Point::new(5, 6)));
}

#[test]
fn test_fov_circle() {
    let origin = Point::new(0, 0);
    let mut visible = Vec::new();
    compute_fov_circle(origin, 3, &mut |p| visible.push(p));
    assert!(visible.contains(&origin));
    assert!(visible.contains(&Point::new(1, 0)));
    assert!(visible.contains(&Point::new(0, 1)));
    assert!(visible.contains(&Point::new(3, 0)));
}

#[test]
fn test_fraction_comparison() {
    let half = Fraction::new(1, 2);
    let quarter = Fraction::new(1, 4);
    assert!(half.greater_equal(quarter));
    assert!(!quarter.greater_equal(half) || quarter == half);
}

#[test]
fn test_row_tiles() {
    let row = Row::new(5, Fraction::new(-1, 1), Fraction::new(1, 1));
    let tiles: Vec<_> = row.tiles();
    assert!(!tiles.is_empty());
    assert!(tiles.contains(&0));
}

#[test]
fn test_isqrt() {
    assert_eq!(isqrt(0), 0);
    assert_eq!(isqrt(1), 1);
    assert_eq!(isqrt(4), 2);
    assert_eq!(isqrt(9), 3);
    assert_eq!(isqrt(10), 3);
    assert_eq!(isqrt(15), 3);
    assert_eq!(isqrt(16), 4);
    assert_eq!(isqrt(100), 10);
}

#[test]
fn test_fov_circle_bounds() {
    let origin = Point::new(0, 0);
    let radius = 5;
    let mut visible = Vec::new();
    compute_fov_circle(origin, radius, &mut |p| visible.push(p));
    for p in &visible {
        let dist_sq = (p.x - origin.x).pow(2) + (p.y - origin.y).pow(2);
        assert!(dist_sq <= radius * radius, "Point {:?} is outside radius {}", p, radius);
    }
    assert!(visible.contains(&Point::new(5, 0)));
    assert!(visible.contains(&Point::new(-5, 0)));
    assert!(visible.contains(&Point::new(0, 5)));
    assert!(visible.contains(&Point::new(0, -5)));
}

#[test]
fn test_fov_diagonal_visible_empty_room() {
    let origin = Point::new(0, 0);
    let radius = 8;
    let mut visible = HashSet::new();
    compute_fov(origin, radius, &|_| false, &mut |p| {
        visible.insert(p);
    });
    let radius_sq = radius * radius;
    let mut d = 1;
    while d * d * 2 <= radius_sq {
        assert!(visible.contains(&Point::new(d, d)));
        assert!(visible.contains(&Point::new(-d, d)));
        assert!(visible.contains(&Point::new(d, -d)));
        assert!(visible.contains(&Point::new(-d, -d)));
        d += 1;
    }
}

#[test]
fn shadowcast() {
    let pos = Point::new(5, 5);
    let visible = Fov::Shadowcast.compute(pos, 4, &|_| false);
    assert_eq!(visible.len(), 49);
}

#[test]
fn adams() {
    let pos = Point::new(5, 5);
    let visible = Fov::Adams.compute(pos, 4, &|_| false);
    assert_eq!(visible.len(), 49);
}

#[test]
fn open_room_radius_four_is_forty_nine_cells() {
    let cells = compute_fov_collecting(Point::new(0, 0), 4, &|_| false);
    assert_eq!(cells.len(), 49);
    assert_eq!(as_set(&cells).len(), 49);
}

#[test]
fn origin_visible_at_radius_zero_and_when_enclosed() {
    let o = Point::new(3, -2);
    let cells = compute_fov_collecting(o, 0, &|_| true);
    assert_eq!(cells, vec![o]);
    let walled = compute_fov_collecting(o, 6, &|p: Point| p != o);
    assert!(walled.contains(&o));
    let marks = shadowcast_cells(o, 6, &|p: Point| p != o);
    assert_eq!(marks[0], o);
    assert_eq!(marks.iter().filter(|p| **p == o).count(), 1);
}

#[test]
fn enclosed_origin_sees_the_walls_its_edge_slopes_reach() {
    let o = Point::new(0, 0);
    let cells = as_set(&compute_fov_collecting(o, 6, &|p: Point| p != o));
    let mut expected = HashSet::new();
    for dx in -1..=1 {
        for dy in -1..=1 {
            expected.insert((dx, dy));
        }
    }
    expected.remove(&(-1, -1));
    assert_eq!(cells, expected);
}

#[test]
fn circle_matches_shadowcast_on_open_map() {
    for r in [5, 10, 20] {
        let o = Point::new(2, -3);
        let circle = circle_cells(o, r);
        let fov = compute_fov_collecting(o, r, &|_| false);
        assert_eq!(as_set(&circle), as_set(&fov), "radius {}", r);
        assert_eq!(as_set(&circle).len(), circle.len());
    }
}

#[test]
fn circle_of_radius_one_is_a_plus() {
    let cells = as_set(&circle_cells(Point::new(0, 0), 1));
    let expected: HashSet<(i32, i32)> = [(0, 0), (1, 0), (-1, 0), (0, 1), (0, -1)].into_iter().collect();
    assert_eq!(cells, expected);
}

#[test]
fn wall_occlusion_scenario() {
    let origin = Point::new(5, 5);
    let wall = Point::new(7, 7);
    for r in [10, 12, 15] {
        let cells = compute_fov_collecting(origin, r, &|p: Point| p == wall);
        assert!(cells.contains(&wall));
        assert!(!cells.contains(&Point::new(9, 9)));
        assert!(cells.contains(&Point::new(6, 5)));
        assert!(cells.contains(&Point::new(5, 6)));
    }
}

#[test]
fn repeated_calls_give_equal_sets() {
    let blocked = |p: Point| (p.x * 7 + p.y * 3) % 5 == 0;
    let a = as_set(&compute_fov_collecting(Point::new(1, 1), 9, &blocked));
    let b = as_set(&compute_fov_collecting(Point::new(1, 1), 9, &blocked));
    assert_eq!(a, b);
}

#[test]
fn symmetric_between_two_open_cells_on_a_pillar_map() {
    let pillars = |p: Point| p.x % 4 == 0 && p.y % 3 == 0 && !(p.x == 0 && p.y == 0);
    let a = Point::new(1, 1);
    let b = Point::new(6, 4);
    let from_a = compute_fov_collecting(a, 10, &pillars);
    let from_b = compute_fov_collecting(b, 10, &pillars);
    assert_eq!(from_a.contains(&b), from_b.contains(&a));
}

#[test]
fn larger_radius_sees_at_least_as_much_on_a_fixed_map() {
    let map = |p: Point| (p.x == 3 && p.y > -2) || (p.y == -4 && p.x < 1);
    for r in 0..12 {
        let small = as_set(&compute_fov_collecting(Point::new(0, 0), r, &map));
        let large = as_set(&compute_fov_collecting(Point::new(0, 0), r + 1, &map));
        assert!(small.is_subset(&large), "radius {}", r);
    }
}

#[test]
fn directed_scan_sees_only_its_half_planes() {
    let o = Point::new(0, 0);
    let north = Fov::ShadowcastDirection(Direction::new(NORTH)).compute(o, 3, &|_| false);
    assert!(north.contains(&Point::new(0, -3)));
    assert!(!north.contains(&Point::new(0, 3)));
    assert!(!north.contains(&Point::new(2, 0)));
    let ne = Fov::ShadowcastDirection(Direction::new(NORTH | EAST)).compute(o, 3, &|_| false);
    assert!(ne.contains(&Point::new(3, 0)));
    assert!(ne.contains(&Point::new(0, -3)));
    assert!(!ne.contains(&Point::new(-3, 0)));
    assert!(Fov::Shadowcast.within_fov(o, Point::new(2, 2), 3, &|_| false));
    assert!(!Fov::Shadowcast.within_fov(o, Point::new(3, 3), 3, &|_| false));
}

#[test]
fn row_columns_round_half_toward_the_centre() {
    let row = Row::new(2, Fraction::new(-1, 2), Fraction::new(1, 2));
    assert_eq!(Row::round_ties_up_frac(Fraction::new(-1, 2), 2), -1);
    assert_eq!(Row::round_ties_down_frac(Fraction::new(1, 2), 2), 1);
    assert_eq!(Row::round_ties_up_frac(Fraction::new(-3, 4), 2), -1);
    assert_eq!(Row::round_ties_up_frac(Fraction::new(1, 4), 2), 1);
    assert_eq!(Row::round_ties_down_frac(Fraction::new(1, 4), 2), 0);
    assert_eq!(row.tiles(), vec![-1, 0, 1]);
    assert_eq!(Row::slope(3, 4), Fraction::new(5, 8));
    assert!(row.is_symmetric(1));
    assert!(!row.is_symmetric(2));
    assert!(row.is_wall_visible(1));
    assert!(!row.is_wall_visible(2));
    assert_eq!(row.next().depth, 3);
}

#[test]
fn isqrt_at_the_edges() {
    assert_eq!(isqrt(-5), 0);
    assert_eq!(isqrt(i64::MAX), 3_037_000_499);
    assert_eq!(isqrt(99), 9);
}

#[test]
fn streaming_calls_stay_within_the_radius_and_hand_the_origin_once() {
    let origin = Point::new(-4, 9);
    let map = |p: Point| (p.x + p.y) % 3 == 0 && p != Point::new(-4, 9);
    let mut marked = Vec::new();
    compute_fov(origin, 6, &map, &mut |p| marked.push(p));
    assert_eq!(marked.iter().filter(|p| **p == origin).count(), 1);
    for p in &marked {
        assert!((p.x - origin.x).pow(2) + (p.y - origin.y).pow(2) <= 36);
    }
    let mut only = Vec::new();
    compute_fov(origin, 0, &map, &mut |p| only.push(p));
    assert_eq!(only, vec![origin]);
    let mut circle = Vec::new();
    compute_fov_circle(origin, 0, &mut |p| circle.push(p));
    assert_eq!(circle, vec![origin]);
}

#[test]
fn opacity_is_asked_only_within_the_radius_and_never_for_the_origin() {
    let origin = Point::new(3, 3);
    let r = 7;
    let strict = |p: Point| {
        let d = (p.x - origin.x).pow(2) + (p.y - origin.y).pow(2);
        assert!(p != origin && d <= r * r, "asked about {:?}", p);
        (p.x * 5 + p.y) % 7 == 0
    };
    let mut marked = Vec::new();
    compute_fov(origin, r, &strict, &mut |p| marked.push(p));
    assert!(marked.contains(&origin));
    let never = |_p: Point| -> bool { panic!("asked at radius 0") };
    let cells = compute_fov_collecting(origin, 0, &never);
    assert_eq!(cells, vec![origin]);
}

#[test]
fn row_columns_for_slopes_beyond_the_diagonals() {
    let row = Row::new(1, Fraction::new(-2, 1), Fraction::new(2, 1));
    assert_eq!(row.tiles(), vec![-2, -1, 0, 1, 2]);
    assert_eq!(Row::round_ties_up_frac(Fraction::new(7, 3), 4), 9);
    assert_eq!(Row::round_ties_down_frac(Fraction::new(-7, 3), 4), -9);
    let marks = shadowcast_cells(Point::new(0, 0), 3, &|_| false);
    assert_eq!(marks.iter().filter(|p| **p == Point::new(0, 0)).count(), 1);
}
