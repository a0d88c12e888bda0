//! Maps carved by a drunkard's walk: a walker steps north, south, east or west at
//! random, clamped to the map, turning each cell it visits into floor.
use vstd::prelude::*;
use crate::caves::{wall_in, lemma_index};
use crate::rng::Rng;

verus! {

/// The reason a map cannot be generated.
#[derive(Clone, Copy, PartialEq, Eq, Structural, Debug)]
pub enum DrunkardError {
    /// Both sides must be positive.
    InvalidDimensions { width: u32, height: u32 },
}

/// Where the walker starts.
#[derive(Clone, Copy, PartialEq, Eq, Structural, Debug)]
pub enum StartPosition {
    /// The middle of the map.
    Center,
    /// A cell drawn at random.
    Random,
}

/// The number of `true` entries.
pub open spec fn count_true(s: Seq<bool>) -> nat
    decreases s.len(),
{
    if s.len() == 0 {
        0
    } else {
        count_true(s.drop_last()) + if s.last() {
            1nat
        } else {
            0nat
        }
    }
}

/// A step of the walker.
#[derive(Clone, Copy, PartialEq, Eq, Structural, Debug)]
pub enum Direction {
    North,
    South,
    East,
    West,
}

/// The offset of a step: north is `-y`, south `+y`, east `+x`, west `-x`.
pub open spec fn delta_spec(d: Direction) -> (i32, i32) {
    match d {
        Direction::North => (0i32, -1i32),
        Direction::South => (0i32, 1i32),
        Direction::East => (1i32, 0i32),
        Direction::West => (-1i32, 0i32),
    }
}

impl Direction {
    /// A step drawn at random from the four.
    pub fn random(rng: &mut Rng) -> (d: Direction) {
        match rng.range(0, 3) {
            0 => Direction::North,
            1 => Direction::South,
            2 => Direction::East,
            _ => Direction::West,
        }
    }

    /// The offset of the step.
    pub fn delta(self) -> (d: (i32, i32))
        ensures
            d == delta_spec(self),
    {
        match self {
            Direction::North => (0, -1),
            Direction::South => (0, 1),
            Direction::East => (1, 0),
            Direction::West => (-1, 0),
        }
    }
}

/// `v` clamped to `0..=hi`.
pub open spec fn clamp_spec(v: int, hi: int) -> int {
    if v < 0 {
        0
    } else if v > hi {
        hi
    } else {
        v
    }
}

/// A grid of floor and wall cells.
#[derive(Clone, Debug)]
pub struct DrunkardMap {
    width: u32,
    height: u32,
    tiles: Vec<bool>,
}

impl DrunkardMap {
    /// The width.
    pub closed spec fn spec_width(&self) -> int {
        self.width as int
    }

    /// The height.
    pub closed spec fn spec_height(&self) -> int {
        self.height as int
    }

    /// The cells, row by row, `true` for floor.
    pub closed spec fn spec_tiles(&self) -> Seq<bool> {
        self.tiles@
    }

    /// The grid holds exactly `width * height` cells, a number that fits `u32`.
    pub closed spec fn wf(&self) -> bool {
        &&& self.tiles@.len() == self.width * self.height
        &&& self.width * self.height <= u32::MAX
    }

    /// A well-formed map holds one cell per position, `width * height` in all.
    pub proof fn lemma_tile_count(&self)
        requires
            self.wf(),
        ensures
            self.spec_tiles().len() == self.spec_width() * self.spec_height(),
            self.spec_width() * self.spec_height() <= u32::MAX,
    {
    }

    /// Whether `(x, y)` is floor.
    pub open spec fn floor_at(&self, x: int, y: int) -> bool {
        !wall_in(self.spec_width(), self.spec_height(), self.spec_tiles(), x, y)
    }

    /// A `width` by `height` map of walls only.
    pub fn new(width: u32, height: u32) -> (m: DrunkardMap)
        requires
            width * height <= u32::MAX,
        ensures
            m.wf(),
            m.spec_width() == width,
            m.spec_height() == height,
            m.spec_tiles() == Seq::new((width * height) as nat, |i: int| false),
    {
        let n = (width * height) as usize;
        let mut tiles: Vec<bool> = Vec::new();
        let mut i: usize = 0;
        while i < n
            invariant
                i <= n,
                tiles@ == Seq::new(i as nat, |k: int| false),
            decreases n - i,
        {
            tiles.push(false);
            i = i + 1;
            assert(tiles@ =~= Seq::new(i as nat, |k: int| false));
        }
        DrunkardMap { width, height, tiles }
    }

    /// The width.
    pub fn width(&self) -> (w: u32)
        ensures
            w == self.spec_width(),
    {
        self.width
    }

    /// The height.
    pub fn height(&self) -> (h: u32)
        ensures
            h == self.spec_height(),
    {
        self.height
    }

    /// Whether `(x, y)` is floor; `false` outside the map.
    pub fn is_floor(&self, x: u32, y: u32) -> (r: bool)
        requires
            self.wf(),
        ensures
            r == self.floor_at(x as int, y as int),
    {
        if x >= self.width || y >= self.height {
            return false;
        }
        proof {
            lemma_index(self.width as int, self.height as int, x as int, y as int);
        }
        self.tiles[(y * self.width + x) as usize]
    }

    /// Whether `(x, y)` is a wall; `true` outside the map.
    pub fn is_wall(&self, x: u32, y: u32) -> (r: bool)
        requires
            self.wf(),
        ensures
            r == !self.floor_at(x as int, y as int),
    {
        !self.is_floor(x, y)
    }

    /// Makes `(x, y)` floor or wall; does nothing outside the map.
    pub fn set_tile(&mut self, x: u32, y: u32, is_floor: bool)
        requires
            old(self).wf(),
        ensures
            final(self).wf(),
            final(self).spec_width() == old(self).spec_width(),
            final(self).spec_height() == old(self).spec_height(),
            x < old(self).spec_width() && y < old(self).spec_height() ==> final(self).spec_tiles()
                == old(self).spec_tiles().update(y * old(self).spec_width() + x, is_floor),
            !(x < old(self).spec_width() && y < old(self).spec_height()) ==> final(self).spec_tiles()
                == old(self).spec_tiles(),
            forall|a: int, b: int|
                #[trigger] final(self).floor_at(a, b) == if a == x && b == y
                    && x < old(self).spec_width() && y < old(self).spec_height() {
                    is_floor
                } else {
                    old(self).floor_at(a, b)
                },
    {
        if x < self.width && y < self.height {
            proof {
                lemma_index(self.width as int, self.height as int, x as int, y as int);
            }
            let idx = (y * self.width + x) as usize;
            let ghost before = *self;
            self.tiles.set(idx, is_floor);
            assert forall|a: int, b: int|
                #[trigger] self.floor_at(a, b) == if a == x && b == y {
                    is_floor
                } else {
                    before.floor_at(a, b)
                } by {
                if 0 <= a < self.width && 0 <= b < self.height {
                    lemma_index(self.width as int, self.height as int, a, b);
                    if b * self.width + a == idx {
                        assert(a == (b * self.width + a) % (self.width as int));
                    }
                }
            }
        }
    }

    /// The cells, row by row, `true` for floor.
    pub fn tiles(&self) -> (t: &[bool])
        ensures
            t@ == self.spec_tiles(),
    {
        self.tiles.as_slice()
    }

    /// The number of floor cells.
    pub fn floor_count(&self) -> (n: usize)
        ensures
            n == count_true(self.spec_tiles()),
    {
        let mut n: usize = 0;
        let mut i: usize = 0;
        while i < self.tiles.len()
            invariant
                i <= self.tiles@.len(),
                n == count_true(self.tiles@.subrange(0, i as int)),
                n <= i,
            decreases self.tiles@.len() - i,
        {
            assert(self.tiles@.subrange(0, i + 1).drop_last() == self.tiles@.subrange(0, i as int));
            if self.tiles[i] {
                n = n + 1;
            }
            i = i + 1;
        }
        assert(self.tiles@.subrange(0, self.tiles@.len() as int) == self.tiles@);
        n
    }
}

/// Carves maps with a drunkard's walk.
pub struct DrunkardGenerator;

impl DrunkardGenerator {
    /// The cell one step from `(x, y)` in `direction`, clamped to the map.
    pub fn step_toward(map: &DrunkardMap, x: u32, y: u32, direction: Direction) -> (r: (u32, u32))
        requires
            map.spec_width() >= 1,
            map.spec_height() >= 1,
        ensures
            r.0 == clamp_spec(x + delta_spec(direction).0, map.spec_width() - 1),
            r.1 == clamp_spec(y + delta_spec(direction).1, map.spec_height() - 1),
            r.0 < map.spec_width(),
            r.1 < map.spec_height(),
    {
        let (dx, dy) = direction.delta();
        let nx: i64 = x as i64 + dx as i64;
        let ny: i64 = y as i64 + dy as i64;
        let hx: i64 = map.width() as i64 - 1;
        let hy: i64 = map.height() as i64 - 1;
        let cx = if nx < 0 {
            0
        } else if nx > hx {
            hx
        } else {
            nx
        };
        let cy = if ny < 0 {
            0
        } else if ny > hy {
            hy
        } else {
            ny
        };
        (cx as u32, cy as u32)
    }

    /// One random step of the walker from `(x, y)`, clamped to the map.
    pub fn take_step(map: &DrunkardMap, x: u32, y: u32, rng: &mut Rng) -> (r: (u32, u32))
        requires
            map.spec_width() >= 1,
            map.spec_height() >= 1,
        ensures
            exists|d: Direction|
                r.0 == clamp_spec(x + (#[trigger] delta_spec(d)).0, map.spec_width() - 1) && r.1
                    == clamp_spec(y + delta_spec(d).1, map.spec_height() - 1),
            r.0 < map.spec_width(),
            r.1 < map.spec_height(),
    {
        let direction = Direction::random(rng);
        DrunkardGenerator::step_toward(map, x, y, direction)
    }
}

} // verus!
