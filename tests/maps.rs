use runeforge::bsp::{BspNode, Corridor, Dungeon, DungeonGenerator, SplitDirection};
use runeforge::caves::{CaveGenerator, CaveMap};
use runeforge::drunkard::{Direction, DrunkardGenerator, DrunkardMap};
use runeforge::point::Point;
use runeforge::rect::Rect;
use runeforge::rng::Rng;

#[test]
fn test_cave_map_creation() {
    let cave = CaveMap::new(80, 50);
    assert_eq!(cave.width(), 80);
    assert_eq!(cave.height(), 50);
    for y in 0..50 {
        for x in 0..80 {
            assert!(cave.is_wall(x, y));
            assert!(!cave.is_floor(x, y));
        }
    }
}

#[test]
fn test_cave_map_set_tile() {
    let mut cave = CaveMap::new(10, 10);
    cave.set_tile(5, 5, true);
    assert!(cave.is_floor(5, 5));
    assert!(!cave.is_wall(5, 5));
    cave.set_tile(5, 5, false);
    assert!(!cave.is_floor(5, 5));
    assert!(cave.is_wall(5, 5));
}

#[test]
fn test_cave_map_out_of_bounds() {
    let cave = CaveMap::new(10, 10);
    assert!(cave.is_wall(100, 100));
    assert!(!cave.is_floor(100, 100));
}

#[test]
fn test_count_wall_neighbors_corner() {
    let cave = CaveMap::new(10, 10);
    let count = CaveGenerator::count_wall_neighbors(&cave, 0, 0);
    assert_eq!(count, 8);
}

#[test]
fn test_count_wall_neighbors_center() {
    let mut cave = CaveMap::new(10, 10);
    cave.set_tile(5, 5, true);
    let count = CaveGenerator::count_wall_neighbors(&cave, 5, 5);
    assert_eq!(count, 8);
}

#[test]
fn test_count_wall_neighbors_all_floors() {
    let mut cave = CaveMap::new(10, 10);
    for y in 0..10 {
        for x in 0..10 {
            cave.set_tile(x, y, true);
        }
    }
    let count = CaveGenerator::count_wall_neighbors(&cave, 5, 5);
    assert_eq!(count, 0);
}

#[test]
fn corner_of_open_cave_counts_only_the_outside() {
    let mut cave = CaveMap::new(4, 3);
    for y in 0..3 {
        for x in 0..4 {
            cave.set_tile(x, y, true);
        }
    }
    assert_eq!(CaveGenerator::count_wall_neighbors(&cave, 0, 0), 5);
    assert_eq!(CaveGenerator::count_wall_neighbors(&cave, 1, 0), 3);
    assert!(CaveGenerator::should_be_floor(&cave, 1, 1, 1));
    assert!(!CaveGenerator::should_be_floor(&cave, 0, 0, 5));
}

#[test]
fn simulation_step_fills_a_lone_wall_and_erodes_corners() {
    let mut cave = CaveMap::new(5, 5);
    for y in 0..5 {
        for x in 0..5 {
            cave.set_tile(x, y, true);
        }
    }
    cave.set_tile(2, 2, false);
    CaveGenerator::run_simulation(&mut cave, 1, 5);
    assert!(cave.is_floor(2, 2));
    assert!(cave.is_wall(0, 0));
    assert!(cave.is_floor(1, 1));
    assert!(cave.is_floor(2, 0));
    let before: Vec<bool> = cave.tiles().to_vec();
    CaveGenerator::run_simulation(&mut cave, 0, 5);
    assert_eq!(cave.tiles(), &before[..]);
}

#[test]
fn test_drunkard_map_out_of_bounds() {
    let map = DrunkardMap::new(10, 10);
    assert!(!map.is_floor(100, 100));
    assert!(map.is_wall(100, 100));
}

#[test]
fn test_drunkard_map_creation() {
    let map = DrunkardMap::new(80, 50);
    assert_eq!(map.width(), 80);
    assert_eq!(map.height(), 50);
    assert_eq!(map.floor_count(), 0);
    for y in 0..50 {
        for x in 0..80 {
            assert!(map.is_wall(x, y));
        }
    }
}

#[test]
fn floor_count_counts_set_cells() {
    let mut map = DrunkardMap::new(6, 4);
    map.set_tile(0, 0, true);
    map.set_tile(5, 3, true);
    map.set_tile(5, 3, true);
    map.set_tile(9, 9, true);
    assert_eq!(map.floor_count(), 2);
    assert_eq!(map.tiles().len(), 24);
}

#[test]
fn test_direction_deltas() {
    assert_eq!(Direction::North.delta(), (0, -1));
    assert_eq!(Direction::South.delta(), (0, 1));
    assert_eq!(Direction::East.delta(), (1, 0));
    assert_eq!(Direction::West.delta(), (-1, 0));
}

#[test]
fn test_take_step_bounds_clamping() {
    let map = DrunkardMap::new(10, 10);
    let mut rng = Rng::with_seed(12345);
    let mut x = 0u32;
    let mut y = 0u32;
    for _ in 0..1000 {
        (x, y) = DrunkardGenerator::take_step(&map, x, y, &mut rng);
        assert!(x < map.width(), "x={} out of bounds", x);
        assert!(y < map.height(), "y={} out of bounds", y);
    }
}

#[test]
fn step_toward_clamps_at_each_edge() {
    let map = DrunkardMap::new(3, 2);
    assert_eq!(DrunkardGenerator::step_toward(&map, 0, 0, Direction::North), (0, 0));
    assert_eq!(DrunkardGenerator::step_toward(&map, 0, 0, Direction::West), (0, 0));
    assert_eq!(DrunkardGenerator::step_toward(&map, 2, 1, Direction::East), (2, 1));
    assert_eq!(DrunkardGenerator::step_toward(&map, 2, 1, Direction::South), (2, 1));
    assert_eq!(DrunkardGenerator::step_toward(&map, 1, 0, Direction::South), (1, 1));
}

#[test]
fn test_bsp_node_creation() {
    let bounds = Rect::new_xywh(0, 0, 100, 100);
    let node = BspNode::new(bounds);
    assert!(node.is_leaf());
    assert_eq!(node.bounds.width, 100);
    assert!(node.room.is_none());
}

#[test]
fn rooms_come_out_in_pre_order() {
    let a = Rect::new_xywh(1, 1, 3, 3);
    let b = Rect::new_xywh(10, 1, 4, 4);
    let c = Rect::new_xywh(1, 10, 5, 5);
    let mut left = BspNode::new(Rect::new_xywh(0, 0, 10, 20));
    left.room = Some(b);
    let mut right = BspNode::new(Rect::new_xywh(10, 0, 10, 20));
    right.room = Some(c);
    let mut root = BspNode::new(Rect::new_xywh(0, 0, 20, 20));
    root.left = Some(Box::new(left));
    root.right = Some(Box::new(right));
    assert!(!root.is_leaf());
    assert_eq!(root.collect_rooms(), vec![b, c]);
    assert_eq!(root.get_room(), Some(b));
    root.room = Some(a);
    assert_eq!(root.collect_rooms(), vec![a, b, c]);
    assert_eq!(root.get_room(), Some(a));
    assert_eq!(BspNode::new(a).get_room(), None);
}

#[test]
fn test_corridor_points() {
    let start = Point::new(5, 5);
    let end = Point::new(10, 10);
    let corner = Point::new(10, 5);
    let corridor = Corridor::l_shaped(start, corner, end);
    let points = corridor.points();
    assert!(!points.is_empty());
    assert!(points.contains(&start));
    assert!(points.contains(&end));
    assert!(points.contains(&corner));
}

#[test]
fn straight_corridor_cells_in_order() {
    let c = Corridor::straight(Point::new(3, 2), Point::new(1, 4));
    assert_eq!(
        c.points(),
        vec![
            Point::new(1, 2),
            Point::new(2, 2),
            Point::new(3, 2),
            Point::new(1, 2),
            Point::new(1, 3),
            Point::new(1, 4),
        ]
    );
}

#[test]
fn dungeon_carving() {
    let mut d = Dungeon::new(8, 6);
    assert!(!d.is_floor(2, 2));
    d.carve_room(Rect::new_xywh(1, 1, 3, 2));
    assert!(d.is_floor(1, 1));
    assert!(d.is_floor(3, 2));
    assert!(!d.is_floor(4, 1));
    assert!(!d.is_floor(1, 3));
    d.carve_corridor(&Corridor::straight(Point::new(3, 2), Point::new(6, 4)));
    assert!(d.is_walkable(Point::new(6, 4)));
    assert!(d.is_floor(5, 2));
    assert!(!d.is_floor(-1, 0));
    d.set_floor(100, 100);
    assert_eq!(d.rooms().len(), 1);
    assert_eq!(d.corridors().len(), 1);
    assert_eq!(d.tiles().iter().filter(|t| **t).count(), 11);
    let mut rng = Rng::with_seed(7);
    let p = d.random_floor_position(&mut rng).unwrap();
    assert!(d.is_floor(p.x, p.y));
    assert_eq!(Dungeon::new(3, 3).random_floor_position(&mut rng), None);
}

#[test]
fn rooms_fit_their_leaf() {
    let mut rng = Rng::with_seed(11);
    for _ in 0..50 {
        let mut node = BspNode::new(Rect::new_xywh(3, 4, 12, 9));
        node.create_room(4, 3, 1, &mut rng);
        let r = node.room.unwrap();
        assert!(r.width >= 4 && r.width <= 10);
        assert!(r.height >= 3 && r.height <= 7);
        assert!(r.min.x >= 4 && r.min.x + r.width <= 4 + 10 + 1);
        assert!(r.min.y >= 5 && r.min.y + r.height <= 5 + 7 + 1);
    }
    let mut tight = BspNode::new(Rect::new_xywh(0, 0, 5, 5));
    tight.create_room(4, 4, 1, &mut rng);
    assert!(tight.room.is_none());
    let mut root = BspNode::new(Rect::new_xywh(0, 0, 20, 10));
    root.left = Some(Box::new(BspNode::new(Rect::new_xywh(0, 0, 10, 10))));
    root.right = Some(Box::new(BspNode::new(Rect::new_xywh(10, 0, 10, 10))));
    root.create_rooms_recursive(3, 3, 1, &mut rng);
    assert!(root.room.is_none());
    assert_eq!(root.collect_rooms().len(), 2);
}

#[test]
fn corridors_bend_at_the_chosen_corner() {
    let a = Rect::new_xywh(0, 0, 4, 4);
    let b = Rect::new_xywh(10, 6, 4, 2);
    let h = DungeonGenerator::create_corridor(a, b, true);
    assert_eq!((h.start, h.end, h.corner), (Point::new(2, 2), Point::new(12, 7), Some(Point::new(12, 2))));
    let v = DungeonGenerator::create_corridor(a, b, false);
    assert_eq!(v.corner, Some(Point::new(2, 7)));
}

#[test]
fn split_at_checks_the_leaf_and_the_halves() {
    let mut node = BspNode::new(Rect::new_xywh(2, 3, 20, 10));
    assert!(!node.split_at(SplitDirection::Vertical, 4, 5, 5));
    assert!(node.is_leaf());
    assert!(node.split_at(SplitDirection::Vertical, 8, 5, 5));
    assert_eq!(node.left().unwrap().bounds, Rect::new_xywh(2, 3, 8, 10));
    assert_eq!(node.right().unwrap().bounds, Rect::new_xywh(10, 3, 12, 10));
    assert_eq!(node.split_direction(), Some(SplitDirection::Vertical));
    assert!(!node.split_at(SplitDirection::Horizontal, 5, 1, 1));
    let mut tall = BspNode::new(Rect::new_xywh(0, 0, 4, 10));
    assert!(tall.split_at(SplitDirection::Horizontal, 5, 1, 5));
    assert_eq!(tall.right().unwrap().bounds, Rect::new_xywh(0, 5, 4, 5));
}

#[test]
fn corridors_join_the_rooms_of_each_cut() {
    let mut root = BspNode::new(Rect::new_xywh(0, 0, 20, 10));
    assert!(root.split_at(SplitDirection::Vertical, 10, 3, 3));
    let mut rng = Rng::with_seed(4);
    root.create_rooms_recursive(3, 3, 1, &mut rng);
    let mut d = Dungeon::new(20, 10);
    for room in root.collect_rooms() {
        d.carve_room(room);
    }
    DungeonGenerator::generate_corridors(&root, &mut d, &mut rng);
    assert_eq!(d.corridors().len(), 1);
    let c = d.corridors()[0];
    assert!(d.is_walkable(c.start) && d.is_walkable(c.end) && d.is_walkable(c.corner.unwrap()));
}

#[test]
fn set_tile_reads_back() {
    let mut cave = CaveMap::new(3, 2);
    cave.set_tile(2, 1, true);
    assert!(cave.is_floor(2, 1));
    assert_eq!(cave.tiles().iter().filter(|t| **t).count(), 1);
    let mut map = DrunkardMap::new(3, 2);
    map.set_tile(0, 1, true);
    map.set_tile(3, 1, true);
    assert!(map.is_floor(0, 1));
    assert_eq!(map.floor_count(), 1);
}
