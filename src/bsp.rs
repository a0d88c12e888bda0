//! Binary space partition dungeons: a tree of regions with rooms in its leaves,
//! joined by straight or L-shaped corridors, carved into a floor grid.
use vstd::prelude::*;
use crate::point::Point;
use crate::rect::{Rect, half_toward_zero, rect_spec};
use crate::rng::Rng;

verus! {

/// The axis along which a region is cut.
#[derive(Clone, Copy, PartialEq, Eq, Structural, Debug)]
pub enum SplitDirection {
    Horizontal,
    Vertical,
}

/// A region of the partition, with the room carved in it (if any) and its two halves
/// (if it was cut).
#[derive(Debug)]
pub struct BspNode {
    pub bounds: Rect,
    pub room: Option<Rect>,
    pub left: Option<Box<BspNode>>,
    pub right: Option<Box<BspNode>>,
    pub split: Option<SplitDirection>,
}

/// The rooms of the tree in pre-order: the node's own, then the left half's, then the
/// right half's.
pub open spec fn rooms_spec(n: BspNode) -> Seq<Rect>
    decreases n,
{
    let own: Seq<Rect> = match n.room {
        Some(r) => seq![r],
        None => Seq::empty(),
    };
    let l: Seq<Rect> = match n.left {
        Some(b) => rooms_spec(*b),
        None => Seq::empty(),
    };
    let r: Seq<Rect> = match n.right {
        Some(b) => rooms_spec(*b),
        None => Seq::empty(),
    };
    own + l + r
}

/// The number of nodes of the tree.
pub open spec fn tree_size(n: BspNode) -> nat
    decreases n,
{
    1 + match n.left {
        Some(b) => tree_size(*b),
        None => 0,
    } + match n.right {
        Some(b) => tree_size(*b),
        None => 0,
    }
}

impl BspNode {
    /// A leaf covering `bounds`, with no room.
    pub fn new(bounds: Rect) -> (n: BspNode)
        ensures
            n.bounds == bounds,
            n.room is None,
            n.left is None,
            n.right is None,
            n.split is None,
    {
        BspNode { bounds, room: None, left: None, right: None, split: None }
    }

    /// Whether the region was not cut.
    pub fn is_leaf(&self) -> (r: bool)
        ensures
            r == (self.left is None && self.right is None),
    {
        self.left.is_none() && self.right.is_none()
    }

    /// The left (or upper) half.
    pub fn left(&self) -> (r: Option<&BspNode>)
        ensures
            r matches Some(b) ==> self.left matches Some(c) && *b == *c,
            r is None <==> self.left is None,
    {
        match &self.left {
            Some(b) => Some(&**b),
            None => None,
        }
    }

    /// The right (or lower) half.
    pub fn right(&self) -> (r: Option<&BspNode>)
        ensures
            r matches Some(b) ==> self.right matches Some(c) && *b == *c,
            r is None <==> self.right is None,
    {
        match &self.right {
            Some(b) => Some(&**b),
            None => None,
        }
    }

    /// The axis the region was cut along.
    pub fn split_direction(&self) -> (r: Option<SplitDirection>)
        ensures
            r == self.split,
    {
        self.split
    }

    /// Places a room of random size and place in a leaf: at least `min_width` by
    /// `min_height` and at most the bounds shrunk by `padding` on every side; its corner
    /// is drawn so that it may reach one cell past that padded area. Does nothing to a
    /// node that was cut or has too little room.
    pub fn create_room(&mut self, min_width: u32, min_height: u32, padding: u32, rng: &mut Rng)
        requires
            0 <= old(self).bounds.width < i32::MAX,
            0 <= old(self).bounds.height < i32::MAX,
            old(self).bounds.min.x + old(self).bounds.width < i32::MAX,
            old(self).bounds.min.y + old(self).bounds.height < i32::MAX,
        ensures
            final(self).bounds == old(self).bounds,
            final(self).left == old(self).left,
            final(self).right == old(self).right,
            final(self).split == old(self).split,
            ({
                let b = old(self).bounds;
                let aw = b.width - 2 * padding;
                let ah = b.height - 2 * padding;
                if old(self).left is None && old(self).right is None && aw >= min_width && ah
                    >= min_height {
                    final(self).room matches Some(r) && min_width <= r.width <= aw && min_height
                        <= r.height <= ah && b.min.x + padding <= r.min.x && r.min.x
                        <= b.min.x + padding + (aw - r.width) + (if aw > r.width { 1int } else { 0 })
                        && b.min.y + padding <= r.min.y && r.min.y <= b.min.y + padding + (ah
                        - r.height) + (if ah > r.height { 1int } else { 0 }) && r.max.x == r.min.x
                        + r.width && r.max.y == r.min.y + r.height
                } else {
                    final(self).room == old(self).room
                }
            }),
    {
        if !self.is_leaf() {
            return;
        }
        let w = self.bounds.width as i64;
        let h = self.bounds.height as i64;
        let pad = padding as i64;
        let aw = w - 2 * pad;
        let ah = h - 2 * pad;
        if aw < min_width as i64 || ah < min_height as i64 {
            return;
        }
        let drawn_w = rng.range(min_width as i32, (aw + 1) as i32) as i64;
        let room_w = if drawn_w < aw {
            drawn_w
        } else {
            aw
        };
        let drawn_h = rng.range(min_height as i32, (ah + 1) as i32) as i64;
        let room_h = if drawn_h < ah {
            drawn_h
        } else {
            ah
        };
        let x_range = aw - room_w;
        let y_range = ah - room_h;
        let min_x = self.bounds.min.x as i64 + pad;
        let min_y = self.bounds.min.y as i64 + pad;
        let room_x = if x_range > 0 {
            rng.range(min_x as i32, (min_x + x_range + 1) as i32) as i64
        } else {
            min_x
        };
        let room_y = if y_range > 0 {
            rng.range(min_y as i32, (min_y + y_range + 1) as i32) as i64
        } else {
            min_y
        };
        let room = Rect::new_xywh(room_x as i32, room_y as i32, room_w as i32, room_h as i32);
        self.room = Some(room);
    }

    /// Places a room in every leaf of the tree, left half before right half.
    pub fn create_rooms_recursive(&mut self, min_width: u32, min_height: u32, padding: u32, rng: &mut Rng)
        decreases tree_size(*old(self)),
    {
        if self.is_leaf() {
            if self.bounds.width >= 0 && self.bounds.height >= 0 && self.bounds.width < i32::MAX
                && self.bounds.height < i32::MAX && (self.bounds.min.x as i64
                + self.bounds.width as i64) < i32::MAX as i64 && (self.bounds.min.y as i64
                + self.bounds.height as i64) < i32::MAX as i64 {
                self.create_room(min_width, min_height, padding, rng);
            }
        } else {
            if let Some(left) = &mut self.left {
                left.create_rooms_recursive(min_width, min_height, padding, rng);
            }
            if let Some(right) = &mut self.right {
                right.create_rooms_recursive(min_width, min_height, padding, rng);
            }
        }
    }

    /// Appends the rooms of the tree to `rooms`, in pre-order.
    fn collect_rooms_into(&self, rooms: &mut Vec<Rect>)
        ensures
            final(rooms)@ == old(rooms)@ + rooms_spec(*self),
        decreases self,
    {
        let ghost start = rooms@;
        if let Some(room) = self.room {
            rooms.push(room);
        }
        match &self.left {
            Some(b) => {
                b.collect_rooms_into(rooms);
            },
            None => {},
        }
        match &self.right {
            Some(b) => {
                b.collect_rooms_into(rooms);
            },
            None => {},
        }
        assert(rooms@ =~= start + rooms_spec(*self));
    }

    /// The rooms of the tree in pre-order.
    pub fn collect_rooms(&self) -> (rooms: Vec<Rect>)
        ensures
            rooms@ == rooms_spec(*self),
    {
        let mut rooms: Vec<Rect> = Vec::new();
        self.collect_rooms_into(&mut rooms);
        assert(rooms@ =~= rooms_spec(*self));
        rooms
    }

    /// The first room of the tree in pre-order, if any.
    pub fn get_room(&self) -> (r: Option<Rect>)
        ensures
            r is None <==> rooms_spec(*self).len() == 0,
            r matches Some(x) ==> x == rooms_spec(*self)[0],
        decreases self,
    {
        if let Some(room) = self.room {
            return Some(room);
        }
        match &self.left {
            Some(b) => {
                if let Some(room) = b.get_room() {
                    return Some(room);
                }
            },
            None => {},
        }
        match &self.right {
            Some(b) => {
                if let Some(room) = b.get_room() {
                    return Some(room);
                }
            },
            None => {},
        }
        None
    }
}

/// The rectangle with corner `(x, y)` and size `w` by `h`.
pub open spec fn xywh_spec(x: int, y: int, w: int, h: int) -> Rect {
    rect_spec(Point { x: x as i32, y: y as i32 }, Point { x: (x + w) as i32, y: (y + h) as i32 })
}

/// The two halves of `b` cut `cut` cells from its corner: top and bottom for a
/// horizontal cut, left and right for a vertical one.
pub open spec fn halves_spec(b: Rect, direction: SplitDirection, cut: int) -> (Rect, Rect) {
    match direction {
        SplitDirection::Horizontal => (
            xywh_spec(b.min.x as int, b.min.y as int, b.width as int, cut),
            xywh_spec(b.min.x as int, b.min.y + cut, b.width as int, b.height - cut),
        ),
        SplitDirection::Vertical => (
            xywh_spec(b.min.x as int, b.min.y as int, cut, b.height as int),
            xywh_spec(b.min.x + cut, b.min.y as int, b.width - cut, b.height as int),
        ),
    }
}

/// The extent a cut runs across, and the least size each half must keep.
pub open spec fn cut_extent(b: Rect, direction: SplitDirection) -> int {
    match direction {
        SplitDirection::Horizontal => b.height as int,
        SplitDirection::Vertical => b.width as int,
    }
}

/// A node with no room and no halves covering `bounds`.
pub open spec fn is_fresh_leaf(n: BspNode, bounds: Rect) -> bool {
    n.bounds == bounds && n.room is None && n.left is None && n.right is None && n.split is None
}

impl BspNode {
    /// Cuts a leaf in two, `cut` cells from its corner along `direction`; whether it
    /// was cut. A node already cut, or a cut that leaves a half smaller than
    /// `min_width` (for a vertical cut) or `min_height` (for a horizontal one), is left
    /// as it is.
    pub fn split_at(&mut self, direction: SplitDirection, cut: i32, min_width: u32, min_height: u32) -> (r: bool)
        requires
            old(self).bounds.width >= 0,
            old(self).bounds.height >= 0,
            old(self).bounds.min.x + old(self).bounds.width <= i32::MAX,
            old(self).bounds.min.y + old(self).bounds.height <= i32::MAX,
            0 <= cut <= cut_extent(old(self).bounds, direction),
        ensures
            r == (old(self).left is None && old(self).right is None && cut >= (match direction {
                SplitDirection::Horizontal => min_height,
                SplitDirection::Vertical => min_width,
            }) && cut_extent(old(self).bounds, direction) - cut >= (match direction {
                SplitDirection::Horizontal => min_height,
                SplitDirection::Vertical => min_width,
            })),
            !r ==> *final(self) == *old(self),
            r ==> final(self).bounds == old(self).bounds && final(self).room == old(self).room
                && final(self).split == Some(direction) && (final(self).left matches Some(l)
                && is_fresh_leaf(*l, halves_spec(old(self).bounds, direction, cut as int).0)) && (
            final(self).right matches Some(q) && is_fresh_leaf(
                *q,
                halves_spec(old(self).bounds, direction, cut as int).1,
            )),
    {
        if !self.is_leaf() {
            return false;
        }
        let b = self.bounds;
        let (first, second) = match direction {
            SplitDirection::Horizontal => {
                let rest = b.height - cut;
                if cut < 0 || (cut as u32) < min_height || (rest as u32) < min_height {
                    return false;
                }
                (Rect::new_xywh(b.min.x, b.min.y, b.width, cut), Rect::new_xywh(b.min.x, b.min.y + cut, b.width, rest))
            },
            SplitDirection::Vertical => {
                let rest = b.width - cut;
                if cut < 0 || (cut as u32) < min_width || (rest as u32) < min_width {
                    return false;
                }
                (Rect::new_xywh(b.min.x, b.min.y, cut, b.height), Rect::new_xywh(b.min.x + cut, b.min.y, rest, b.height))
            },
        };
        self.left = Some(Box::new(BspNode::new(first)));
        self.right = Some(Box::new(BspNode::new(second)));
        self.split = Some(direction);
        true
    }
}

/// The cells of one leg of a corridor: along the row of `from` from the smaller to the
/// larger `x`, then along the column of `to` from the smaller to the larger `y`.
pub open spec fn leg_spec(from: Point, to: Point) -> Seq<Point> {
    let xs = if from.x <= to.x { from.x as int } else { to.x as int };
    let xe = if from.x <= to.x { to.x as int } else { from.x as int };
    let ys = if from.y <= to.y { from.y as int } else { to.y as int };
    let ye = if from.y <= to.y { to.y as int } else { from.y as int };
    Seq::new((xe - xs + 1) as nat, |i: int| Point { x: (xs + i) as i32, y: from.y }) + Seq::new(
        (ye - ys + 1) as nat,
        |j: int| Point { x: to.x, y: (ys + j) as i32 },
    )
}

/// A passage from `start` to `end`, straight or bending once at `corner`.
#[derive(Clone, Copy, PartialEq, Eq, Structural, Debug)]
pub struct Corridor {
    pub start: Point,
    pub end: Point,
    pub corner: Option<Point>,
}

/// The cells a corridor covers, leg by leg (cells shared by the legs repeat).
pub open spec fn corridor_spec(c: Corridor) -> Seq<Point> {
    match c.corner {
        Some(k) => leg_spec(c.start, k) + leg_spec(k, c.end),
        None => leg_spec(c.start, c.end),
    }
}

/// Appends the cells of one leg from `from` to `to`.
fn push_leg(from: Point, to: Point, pts: &mut Vec<Point>)
    ensures
        final(pts)@ == old(pts)@ + leg_spec(from, to),
{
    let ghost start = pts@;
    let xs: i64 = if from.x <= to.x {
        from.x as i64
    } else {
        to.x as i64
    };
    let xe: i64 = if from.x <= to.x {
        to.x as i64
    } else {
        from.x as i64
    };
    let ys: i64 = if from.y <= to.y {
        from.y as i64
    } else {
        to.y as i64
    };
    let ye: i64 = if from.y <= to.y {
        to.y as i64
    } else {
        from.y as i64
    };
    let ghost hseg = Seq::new((xe - xs + 1) as nat, |i: int| Point { x: (xs + i) as i32, y: from.y });
    let ghost vseg = Seq::new((ye - ys + 1) as nat, |j: int| Point { x: to.x, y: (ys + j) as i32 });
    let mut x: i64 = xs;
    while x <= xe
        invariant
            xs <= x <= xe + 1,
            i32::MIN <= xs,
            xe <= i32::MAX,
            pts@ == start + hseg.subrange(0, x - xs),
            hseg.len() == xe - xs + 1,
            hseg == Seq::new((xe - xs + 1) as nat, |i: int| Point { x: (xs + i) as i32, y: from.y }),
        decreases xe + 1 - x,
    {
        pts.push(Point { x: x as i32, y: from.y });
        x = x + 1;
        assert(pts@ =~= start + hseg.subrange(0, x - xs));
    }
    assert(hseg.subrange(0, xe + 1 - xs) == hseg);
    let ghost mid = pts@;
    let mut y: i64 = ys;
    while y <= ye
        invariant
            ys <= y <= ye + 1,
            i32::MIN <= ys,
            ye <= i32::MAX,
            pts@ == mid + vseg.subrange(0, y - ys),
            vseg.len() == ye - ys + 1,
            vseg == Seq::new((ye - ys + 1) as nat, |j: int| Point { x: to.x, y: (ys + j) as i32 }),
        decreases ye + 1 - y,
    {
        pts.push(Point { x: to.x, y: y as i32 });
        y = y + 1;
        assert(pts@ =~= mid + vseg.subrange(0, y - ys));
    }
    assert(vseg.subrange(0, ye + 1 - ys) == vseg);
    assert(pts@ =~= start + leg_spec(from, to));
}

impl Corridor {
    /// A corridor with no bend.
    pub fn straight(start: Point, end: Point) -> (c: Corridor)
        ensures
            c == (Corridor { start, end, corner: None }),
    {
        Corridor { start, end, corner: None }
    }

    /// A corridor bending once at `corner`.
    pub fn l_shaped(start: Point, corner: Point, end: Point) -> (c: Corridor)
        ensures
            c == (Corridor { start, end, corner: Some(corner) }),
    {
        Corridor { start, end, corner: Some(corner) }
    }

    /// The cells the corridor covers, leg by leg.
    pub fn points(&self) -> (pts: Vec<Point>)
        ensures
            pts@ == corridor_spec(*self),
    {
        let mut pts: Vec<Point> = Vec::new();
        match self.corner {
            Some(k) => {
                push_leg(self.start, k, &mut pts);
                push_leg(k, self.end, &mut pts);
            },
            None => {
                push_leg(self.start, self.end, &mut pts);
            },
        }
        assert(pts@ =~= corridor_spec(*self));
        pts
    }
}

/// Builds dungeons from a partition.
pub struct DungeonGenerator;

impl DungeonGenerator {
    /// Joins, for every cut of the tree, the first room of its left half to the first
    /// room of its right half with an L-shaped corridor (bend chosen by a fair coin),
    /// parent before halves, left half before right. Rooms and sizes stay as they are.
    pub fn generate_corridors(node: &BspNode, dungeon: &mut Dungeon, rng: &mut Rng)
        requires
            old(dungeon).wf(),
        ensures
            final(dungeon).wf(),
            final(dungeon).spec_width() == old(dungeon).spec_width(),
            final(dungeon).spec_height() == old(dungeon).spec_height(),
            final(dungeon).spec_rooms() == old(dungeon).spec_rooms(),
            final(dungeon).spec_corridors().len() >= old(dungeon).spec_corridors().len(),
        decreases node,
    {
        match (&node.left, &node.right) {
            (Some(left), Some(right)) => {
                match (left.get_room(), right.get_room()) {
                    (Some(a), Some(b)) => {
                        let horizontal_first = rng.range(0, 1) == 0;
                        let corridor = DungeonGenerator::create_corridor(a, b, horizontal_first);
                        dungeon.carve_corridor(&corridor);
                    },
                    _ => {},
                }
                DungeonGenerator::generate_corridors(left, dungeon, rng);
                DungeonGenerator::generate_corridors(right, dungeon, rng);
            },
            _ => {},
        }
    }

    /// The L-shaped corridor between the centres of two rooms: along the first room's
    /// row first when `horizontal_first`, else along its column first.
    pub fn create_corridor(room1: Rect, room2: Rect, horizontal_first: bool) -> (c: Corridor)
        ensures
            c.start.x == half_toward_zero(room1.min.x + room1.max.x),
            c.start.y == half_toward_zero(room1.min.y + room1.max.y),
            c.end.x == half_toward_zero(room2.min.x + room2.max.x),
            c.end.y == half_toward_zero(room2.min.y + room2.max.y),
            horizontal_first ==> c.corner == Some(Point { x: c.end.x, y: c.start.y }),
            !horizontal_first ==> c.corner == Some(Point { x: c.start.x, y: c.end.y }),
    {
        let center1 = room1.center();
        let center2 = room2.center();
        if horizontal_first {
            Corridor::l_shaped(center1, Point { x: center2.x, y: center1.y }, center2)
        } else {
            Corridor::l_shaped(center1, Point { x: center1.x, y: center2.y }, center2)
        }
    }
}

/// A dungeon: a floor grid with the rooms and corridors carved into it.
#[derive(Debug)]
pub struct Dungeon {
    width: u32,
    height: u32,
    tiles: Vec<bool>,
    rooms: Vec<Rect>,
    corridors: Vec<Corridor>,
}

impl Dungeon {
    /// The width.
    pub closed spec fn spec_width(&self) -> int {
        self.width as int
    }

    /// The height.
    pub closed spec fn spec_height(&self) -> int {
        self.height as int
    }

    /// The cells, row by row, `true` for floor.
    pub closed spec fn spec_tiles(&self) -> Seq<bool> {
        self.tiles@
    }

    /// The rooms carved so far, in order.
    pub closed spec fn spec_rooms(&self) -> Seq<Rect> {
        self.rooms@
    }

    /// The corridors carved so far, in order.
    pub closed spec fn spec_corridors(&self) -> Seq<Corridor> {
        self.corridors@
    }

    /// The grid holds exactly `width * height` cells, a number that fits `u32`, and
    /// both sides fit `i32`.
    pub closed spec fn wf(&self) -> bool {
        &&& self.tiles@.len() == self.width * self.height
        &&& self.width * self.height <= u32::MAX
        &&& self.width <= i32::MAX
        &&& self.height <= i32::MAX
    }

    /// Whether `(x, y)` is floor.
    pub open spec fn floor_at(&self, x: int, y: int) -> bool {
        0 <= x < self.spec_width() && 0 <= y < self.spec_height() && self.spec_tiles()[y
            * self.spec_width() + x]
    }

    /// A `width` by `height` dungeon of walls, with no rooms or corridors.
    pub fn new(width: u32, height: u32) -> (d: Dungeon)
        requires
            width * height <= u32::MAX,
            width <= i32::MAX,
            height <= i32::MAX,
        ensures
            d.wf(),
            d.spec_width() == width,
            d.spec_height() == height,
            forall|x: int, y: int| !d.floor_at(x, y),
            d.spec_rooms().len() == 0,
            d.spec_corridors().len() == 0,
    {
        let n = (width * height) as usize;
        let mut tiles: Vec<bool> = Vec::new();
        let mut i: usize = 0;
        while i < n
            invariant
                i <= n,
                tiles@.len() == i,
                forall|k: int| 0 <= k < i ==> !tiles@[k],
            decreases n - i,
        {
            tiles.push(false);
            i = i + 1;
        }
        let d = Dungeon { width, height, tiles, rooms: Vec::new(), corridors: Vec::new() };
        assert forall|x: int, y: int| !d.floor_at(x, y) by {
            if 0 <= x < width && 0 <= y < height {
                crate::caves::lemma_index(width as int, height as int, x, y);
            }
        }
        d
    }

    /// The width.
    pub fn width(&self) -> (w: u32)
        ensures
            w == self.spec_width(),
    {
        self.width
    }

    /// The height.
    pub fn height(&self) -> (h: u32)
        ensures
            h == self.spec_height(),
    {
        self.height
    }

    /// Whether `(x, y)` is floor; `false` outside the grid.
    pub fn is_floor(&self, x: i32, y: i32) -> (r: bool)
        requires
            self.wf(),
        ensures
            r == self.floor_at(x as int, y as int),
    {
        if x < 0 || y < 0 || x as i64 >= self.width as i64 || y as i64 >= self.height as i64 {
            return false;
        }
        proof {
            crate::caves::lemma_index(self.width as int, self.height as int, x as int, y as int);
        }
        self.tiles[(y as u32 * self.width + x as u32) as usize]
    }

    /// Whether `pos` is floor.
    pub fn is_walkable(&self, pos: Point) -> (r: bool)
        requires
            self.wf(),
        ensures
            r == self.floor_at(pos.x as int, pos.y as int),
    {
        self.is_floor(pos.x, pos.y)
    }

    /// Makes `(x, y)` floor; does nothing outside the grid.
    pub fn set_floor(&mut self, x: i32, y: i32)
        requires
            old(self).wf(),
        ensures
            final(self).wf(),
            final(self).spec_width() == old(self).spec_width(),
            final(self).spec_height() == old(self).spec_height(),
            final(self).spec_rooms() == old(self).spec_rooms(),
            final(self).spec_corridors() == old(self).spec_corridors(),
            forall|a: int, b: int|
                #[trigger] final(self).floor_at(a, b) == (old(self).floor_at(a, b) || (a == x && b
                    == y && 0 <= x < old(self).spec_width() && 0 <= y < old(self).spec_height())),
    {
        if x >= 0 && y >= 0 && (x as i64) < self.width as i64 && (y as i64) < self.height as i64 {
            proof {
                crate::caves::lemma_index(self.width as int, self.height as int, x as int, y as int);
            }
            let idx = (y as u32 * self.width + x as u32) as usize;
            let ghost before = *self;
            self.tiles.set(idx, true);
            assert forall|a: int, b: int|
                #[trigger] self.floor_at(a, b) == (before.floor_at(a, b) || (a == x && b == y)) by {
                if 0 <= a < self.width && 0 <= b < self.height {
                    crate::caves::lemma_index(self.width as int, self.height as int, a, b);
                    if b * self.width + a == idx {
                        crate::caves::lemma_index(self.width as int, self.height as int, x as int, y as int);
                        assert(a == (b * self.width + a) % (self.width as int));
                    }
                }
            }
        }
    }

    /// Carves every cell of `room` (from `min` inclusive to `max` exclusive) and
    /// records the room.
    pub fn carve_room(&mut self, room: Rect)
        requires
            old(self).wf(),
        ensures
            final(self).wf(),
            final(self).spec_width() == old(self).spec_width(),
            final(self).spec_height() == old(self).spec_height(),
            final(self).spec_rooms() == old(self).spec_rooms().push(room),
            final(self).spec_corridors() == old(self).spec_corridors(),
            forall|a: int, b: int|
                #[trigger] final(self).floor_at(a, b) == (old(self).floor_at(a, b) || (room.min.x
                    <= a < room.max.x && room.min.y <= b < room.max.y && 0 <= a
                    < old(self).spec_width() && 0 <= b < old(self).spec_height())),
    {
        let ghost orig = *self;
        let mut y: i32 = room.min.y;
        while y < room.max.y
            invariant
                self.wf(),
                self.spec_width() == orig.spec_width(),
                self.spec_height() == orig.spec_height(),
                self.spec_rooms() == orig.spec_rooms(),
                self.spec_corridors() == orig.spec_corridors(),
                room.min.y <= y <= room.max.y || (y == room.min.y && room.min.y > room.max.y),
                forall|a: int, b: int|
                    #[trigger] self.floor_at(a, b) == (orig.floor_at(a, b) || (room.min.x <= a
                        < room.max.x && room.min.y <= b < y && 0 <= a < orig.spec_width() && 0 <= b
                        < orig.spec_height())),
            decreases room.max.y - y,
        {
            let mut x: i32 = room.min.x;
            while x < room.max.x
                invariant
                    self.wf(),
                    self.spec_width() == orig.spec_width(),
                    self.spec_height() == orig.spec_height(),
                    self.spec_rooms() == orig.spec_rooms(),
                    self.spec_corridors() == orig.spec_corridors(),
                    room.min.y <= y < room.max.y,
                    room.min.x <= x <= room.max.x || (x == room.min.x && room.min.x > room.max.x),
                    forall|a: int, b: int|
                        #[trigger] self.floor_at(a, b) == (orig.floor_at(a, b) || (room.min.x <= a
                            < room.max.x && room.min.y <= b < y && 0 <= a < orig.spec_width() && 0
                            <= b < orig.spec_height()) || (room.min.x <= a < x && b == y && 0 <= a
                            < orig.spec_width() && 0 <= b < orig.spec_height())),
                decreases room.max.x - x,
            {
                self.set_floor(x, y);
                x = x + 1;
            }
            y = y + 1;
        }
        let ghost pre = *self;
        self.rooms.push(room);
        assert(self.spec_tiles() == pre.spec_tiles() && self.spec_width() == pre.spec_width()
            && self.spec_height() == pre.spec_height());
        assert forall|a: int, b: int| #[trigger] self.floor_at(a, b) == pre.floor_at(a, b) by {}
    }

    /// Carves every cell of `corridor` and records it.
    pub fn carve_corridor(&mut self, corridor: &Corridor)
        requires
            old(self).wf(),
        ensures
            final(self).wf(),
            final(self).spec_width() == old(self).spec_width(),
            final(self).spec_height() == old(self).spec_height(),
            final(self).spec_rooms() == old(self).spec_rooms(),
            final(self).spec_corridors() == old(self).spec_corridors().push(*corridor),
            forall|a: int, b: int|
                #[trigger] final(self).floor_at(a, b) == (old(self).floor_at(a, b) || (
                corridor_spec(*corridor).contains(Point { x: a as i32, y: b as i32 }) && 0 <= a
                    < old(self).spec_width() && 0 <= b < old(self).spec_height())),
    {
        let ghost orig = *self;
        let pts = corridor.points();
        let mut i: usize = 0;
        while i < pts.len()
            invariant
                self.wf(),
                pts@ == corridor_spec(*corridor),
                i <= pts@.len(),
                self.spec_width() == orig.spec_width(),
                self.spec_height() == orig.spec_height(),
                self.spec_rooms() == orig.spec_rooms(),
                self.spec_corridors() == orig.spec_corridors(),
                forall|a: int, b: int|
                    #[trigger] self.floor_at(a, b) == (orig.floor_at(a, b) || (pts@.subrange(
                        0,
                        i as int,
                    ).contains(Point { x: a as i32, y: b as i32 }) && 0 <= a < orig.spec_width()
                        && 0 <= b < orig.spec_height())),
            decreases pts@.len() - i,
        {
            let p = pts[i];
            self.set_floor(p.x, p.y);
            proof {
                let s0 = pts@.subrange(0, i as int);
                let s1 = pts@.subrange(0, i + 1);
                assert(s1 == s0.push(p));
                assert forall|q: Point| #[trigger] s1.contains(q) <==> (s0.contains(q) || q == p) by {
                    if s1.contains(q) {
                        let k = choose|k: int| 0 <= k < s1.len() && s1[k] == q;
                        if k < s0.len() {
                            assert(s0[k] == q);
                        }
                    }
                    if s0.contains(q) {
                        let k = choose|k: int| 0 <= k < s0.len() && s0[k] == q;
                        assert(s1[k] == q);
                    }
                    if q == p {
                        assert(s1[i as int] == q);
                    }
                }
            }
            i = i + 1;
        }
        assert(pts@.subrange(0, pts@.len() as int) == pts@);
        let ghost pre = *self;
        self.corridors.push(*corridor);
        assert(self.spec_tiles() == pre.spec_tiles() && self.spec_width() == pre.spec_width()
            && self.spec_height() == pre.spec_height());
        assert forall|a: int, b: int| #[trigger] self.floor_at(a, b) == pre.floor_at(a, b) by {}
    }

    /// The rooms carved so far.
    pub fn rooms(&self) -> (r: &[Rect])
        ensures
            r@ == self.spec_rooms(),
    {
        self.rooms.as_slice()
    }

    /// The corridors carved so far.
    pub fn corridors(&self) -> (r: &[Corridor])
        ensures
            r@ == self.spec_corridors(),
    {
        self.corridors.as_slice()
    }

    /// The cells, row by row, `true` for floor.
    pub fn tiles(&self) -> (t: &[bool])
        ensures
            t@ == self.spec_tiles(),
    {
        self.tiles.as_slice()
    }

    /// The floor cells, row by row.
    pub fn floor_positions(&self) -> (v: Vec<Point>)
        requires
            self.wf(),
        ensures
            forall|p: Point| v@.contains(p) <==> self.floor_at(p.x as int, p.y as int),
    {
        let mut v: Vec<Point> = Vec::new();
        let mut y: u32 = 0;
        while y < self.height
            invariant
                self.wf(),
                y <= self.spec_height(),
                forall|p: Point|
                    v@.contains(p) <==> (self.floor_at(p.x as int, p.y as int) && p.y < y),
            decreases self.spec_height() - y,
        {
            let mut x: u32 = 0;
            while x < self.width
                invariant
                    self.wf(),
                    y < self.spec_height(),
                    x <= self.spec_width(),
                    forall|p: Point|
                        v@.contains(p) <==> (self.floor_at(p.x as int, p.y as int) && (p.y < y || (
                        p.y == y && p.x < x))),
                decreases self.spec_width() - x,
            {
                let ghost before = v@;
                let q = Point { x: x as i32, y: y as i32 };
                if self.is_floor(x as i32, y as i32) {
                    v.push(q);
                }
                proof {
                    assert forall|p: Point|
                        v@.contains(p) <==> (self.floor_at(p.x as int, p.y as int) && (p.y < y || (
                        p.y == y && p.x < x + 1))) by {
                        if v@.len() > before.len() {
                            assert(v@ == before.push(q));
                            if v@.contains(p) {
                                let k = choose|k: int| 0 <= k < v@.len() && v@[k] == p;
                                if k < before.len() {
                                    assert(before[k] == p);
                                }
                            }
                            if before.contains(p) {
                                let k = choose|k: int| 0 <= k < before.len() && before[k] == p;
                                assert(v@[k] == p);
                            }
                            if p == q {
                                assert(v@[before.len() as int] == q);
                            }
                        }
                    }
                }
                x = x + 1;
            }
            y = y + 1;
        }
        v
    }

    /// A floor cell drawn at random; `None` when there is no floor.
    pub fn random_floor_position(&self, rng: &mut Rng) -> (r: Option<Point>)
        requires
            self.wf(),
        ensures
            r is None <==> (forall|x: int, y: int| !self.floor_at(x, y)),
            r matches Some(p) ==> self.floor_at(p.x as int, p.y as int),
    {
        let floor = self.floor_positions();
        let picked = rng.choose_item(floor.as_slice());
        match picked {
            Some(p) => {
                assert(floor@.contains(*p));
                Some(*p)
            },
            None => {
                assert forall|x: int, y: int| !self.floor_at(x, y) by {
                    if self.floor_at(x, y) {
                        assert(floor@.contains(Point { x: x as i32, y: y as i32 }));
                    }
                }
                None
            },
        }
    }
}

} // verus!
