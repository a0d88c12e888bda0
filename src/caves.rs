//! Cave maps grown by a cellular automaton: a cell becomes floor when fewer of its
//! eight neighbours than a threshold are walls (the map's outside counts as wall).
use vstd::prelude::*;
use vstd::arithmetic::div_mod::lemma_fundamental_div_mod_converse;

verus! {

/// The reason a cave cannot be generated.
#[derive(Clone, Copy, PartialEq, Eq, Structural, Debug)]
pub enum CaveError {
    /// Both sides must be positive.
    InvalidDimensions { width: u32, height: u32 },
}

/// Whether `(x, y)` is a wall of the `w` by `h` grid `tiles` (row-major, `true` for
/// floor); every cell outside the grid is a wall.
pub open spec fn wall_in(w: int, h: int, tiles: Seq<bool>, x: int, y: int) -> bool {
    !(0 <= x < w && 0 <= y < h && tiles[y * w + x])
}

/// 1 for a wall, 0 for floor.
pub open spec fn wall_count(w: int, h: int, tiles: Seq<bool>, x: int, y: int) -> int {
    if wall_in(w, h, tiles, x, y) {
        1
    } else {
        0
    }
}

/// How many of the eight neighbours of `(x, y)` are walls.
pub open spec fn neighbor_walls(w: int, h: int, tiles: Seq<bool>, x: int, y: int) -> int {
    wall_count(w, h, tiles, x - 1, y - 1) + wall_count(w, h, tiles, x, y - 1) + wall_count(
        w,
        h,
        tiles,
        x + 1,
        y - 1,
    ) + wall_count(w, h, tiles, x - 1, y) + wall_count(w, h, tiles, x + 1, y) + wall_count(
        w,
        h,
        tiles,
        x - 1,
        y + 1,
    ) + wall_count(w, h, tiles, x, y + 1) + wall_count(w, h, tiles, x + 1, y + 1)
}

/// One step of the automaton: each cell is floor exactly when fewer than `threshold`
/// of its neighbours are walls.
pub open spec fn life_step(w: int, h: int, tiles: Seq<bool>, threshold: int) -> Seq<bool> {
    Seq::new((w * h) as nat, |i: int| neighbor_walls(w, h, tiles, i % w, i / w) < threshold)
}

/// `n` steps of the automaton.
pub open spec fn life_steps(w: int, h: int, tiles: Seq<bool>, threshold: int, n: nat) -> Seq<
    bool,
>
    decreases n,
{
    if n == 0 {
        tiles
    } else {
        life_steps(w, h, life_step(w, h, tiles, threshold), threshold, (n - 1) as nat)
    }
}

/// A grid of floor and wall cells.
#[derive(Clone, Debug)]
pub struct CaveMap {
    width: u32,
    height: u32,
    tiles: Vec<bool>,
}

pub proof fn lemma_index(w: int, h: int, x: int, y: int)
    requires
        0 <= x < w,
        0 <= y < h,
    ensures
        0 <= y * w + x < w * h,
        (y * w + x) / w == y,
        (y * w + x) % w == x,
{
    assert(0 <= y * w + x < w * h) by (nonlinear_arith)
        requires
            0 <= x < w,
            0 <= y < h,
    ;
    lemma_fundamental_div_mod_converse(y * w + x, w, y, x);
}

impl CaveMap {
    /// The width.
    pub closed spec fn spec_width(&self) -> int {
        self.width as int
    }

    /// The height.
    pub closed spec fn spec_height(&self) -> int {
        self.height as int
    }

    /// The cells, row by row, `true` for floor.
    pub closed spec fn spec_tiles(&self) -> Seq<bool> {
        self.tiles@
    }

    /// The grid holds exactly `width * height` cells, a number that fits `u32`.
    pub closed spec fn wf(&self) -> bool {
        &&& self.tiles@.len() == self.width * self.height
        &&& self.width * self.height <= u32::MAX
    }

    /// A well-formed map holds one cell per position, `width * height` in all.
    pub proof fn lemma_tile_count(&self)
        requires
            self.wf(),
        ensures
            self.spec_tiles().len() == self.spec_width() * self.spec_height(),
            self.spec_width() * self.spec_height() <= u32::MAX,
    {
    }

    /// Whether `(x, y)` is floor.
    pub open spec fn floor_at(&self, x: int, y: int) -> bool {
        !wall_in(self.spec_width(), self.spec_height(), self.spec_tiles(), x, y)
    }

    /// A `width` by `height` map of walls only.
    pub fn new(width: u32, height: u32) -> (m: CaveMap)
        requires
            width * height <= u32::MAX,
        ensures
            m.wf(),
            m.spec_width() == width,
            m.spec_height() == height,
            m.spec_tiles() == Seq::new((width * height) as nat, |i: int| false),
    {
        let n = (width * height) as usize;
        let mut tiles: Vec<bool> = Vec::new();
        let mut i: usize = 0;
        while i < n
            invariant
                i <= n,
                tiles@ == Seq::new(i as nat, |k: int| false),
            decreases n - i,
        {
            tiles.push(false);
            i = i + 1;
            assert(tiles@ =~= Seq::new(i as nat, |k: int| false));
        }
        CaveMap { width, height, tiles }
    }

    /// The width.
    pub fn width(&self) -> (w: u32)
        ensures
            w == self.spec_width(),
    {
        self.width
    }

    /// The height.
    pub fn height(&self) -> (h: u32)
        ensures
            h == self.spec_height(),
    {
        self.height
    }

    /// Whether `(x, y)` is floor; `false` outside the map.
    pub fn is_floor(&self, x: u32, y: u32) -> (r: bool)
        requires
            self.wf(),
        ensures
            r == self.floor_at(x as int, y as int),
    {
        if x >= self.width || y >= self.height {
            return false;
        }
        proof {
            lemma_index(self.width as int, self.height as int, x as int, y as int);
        }
        self.tiles[(y * self.width + x) as usize]
    }

    /// Whether `(x, y)` is a wall; `true` outside the map.
    pub fn is_wall(&self, x: u32, y: u32) -> (r: bool)
        requires
            self.wf(),
        ensures
            r == !self.floor_at(x as int, y as int),
    {
        !self.is_floor(x, y)
    }

    /// Makes `(x, y)` floor or wall; does nothing outside the map.
    pub fn set_tile(&mut self, x: u32, y: u32, is_floor: bool)
        requires
            old(self).wf(),
        ensures
            final(self).wf(),
            final(self).spec_width() == old(self).spec_width(),
            final(self).spec_height() == old(self).spec_height(),
            x < old(self).spec_width() && y < old(self).spec_height() ==> final(self).spec_tiles()
                == old(self).spec_tiles().update(y * old(self).spec_width() + x, is_floor),
            !(x < old(self).spec_width() && y < old(self).spec_height()) ==> final(self).spec_tiles()
                == old(self).spec_tiles(),
            forall|a: int, b: int|
                #[trigger] final(self).floor_at(a, b) == if a == x && b == y
                    && x < old(self).spec_width() && y < old(self).spec_height() {
                    is_floor
                } else {
                    old(self).floor_at(a, b)
                },
    {
        if x < self.width && y < self.height {
            proof {
                lemma_index(self.width as int, self.height as int, x as int, y as int);
            }
            let idx = (y * self.width + x) as usize;
            let ghost before = *self;
            self.tiles.set(idx, is_floor);
            assert forall|a: int, b: int|
                #[trigger] self.floor_at(a, b) == if a == x && b == y {
                    is_floor
                } else {
                    before.floor_at(a, b)
                } by {
                if 0 <= a < self.width && 0 <= b < self.height {
                    lemma_index(self.width as int, self.height as int, a, b);
                    if b * self.width + a == idx {
                        assert(a == (b * self.width + a) % (self.width as int));
                    }
                }
            }
        }
    }

    /// The cells, row by row, `true` for floor.
    pub fn tiles(&self) -> (t: &[bool])
        ensures
            t@ == self.spec_tiles(),
    {
        self.tiles.as_slice()
    }

    /// Whether `(x, y)` is a wall, for coordinates that may lie outside the map.
    fn wall_at(&self, x: i64, y: i64) -> (r: bool)
        requires
            self.wf(),
        ensures
            r == wall_in(self.spec_width(), self.spec_height(), self.spec_tiles(), x as int, y as int),
    {
        if x < 0 || y < 0 || x >= self.width as i64 || y >= self.height as i64 {
            return true;
        }
        !self.is_floor(x as u32, y as u32)
    }
}

/// Grows caves with the automaton.
pub struct CaveGenerator;

impl CaveGenerator {
    /// How many of the eight neighbours of `(x, y)` are walls, cells outside the map
    /// counting as walls.
    pub fn count_wall_neighbors(cave: &CaveMap, x: u32, y: u32) -> (count: u32)
        requires
            cave.wf(),
        ensures
            count == neighbor_walls(cave.spec_width(), cave.spec_height(), cave.spec_tiles(), x as int, y as int),
    {
        let x = x as i64;
        let y = y as i64;
        let mut count: u32 = 0;
        if cave.wall_at(x - 1, y - 1) {
            count = count + 1;
        }
        if cave.wall_at(x, y - 1) {
            count = count + 1;
        }
        if cave.wall_at(x + 1, y - 1) {
            count = count + 1;
        }
        if cave.wall_at(x - 1, y) {
            count = count + 1;
        }
        if cave.wall_at(x + 1, y) {
            count = count + 1;
        }
        if cave.wall_at(x - 1, y + 1) {
            count = count + 1;
        }
        if cave.wall_at(x, y + 1) {
            count = count + 1;
        }
        if cave.wall_at(x + 1, y + 1) {
            count = count + 1;
        }
        count
    }

    /// Whether `(x, y)` becomes floor: fewer than `threshold` of its neighbours are walls.
    pub fn should_be_floor(cave: &CaveMap, x: u32, y: u32, threshold: u32) -> (r: bool)
        requires
            cave.wf(),
        ensures
            r == (neighbor_walls(cave.spec_width(), cave.spec_height(), cave.spec_tiles(), x as int, y as int) < threshold),
    {
        CaveGenerator::count_wall_neighbors(cave, x, y) < threshold
    }

    /// One step of the automaton over the whole map.
    pub fn step(cave: &CaveMap, wall_threshold: u32) -> (next: Vec<bool>)
        requires
            cave.wf(),
        ensures
            next@ == life_step(cave.spec_width(), cave.spec_height(), cave.spec_tiles(), wall_threshold as int),
    {
        let width = cave.width();
        let height = cave.height();
        let mut next: Vec<bool> = Vec::new();
        let mut y: u32 = 0;
        while y < height
            invariant
                cave.wf(),
                width == cave.spec_width(),
                height == cave.spec_height(),
                y <= height,
                next@.len() == y * width,
                forall|i: int| 0 <= i < next@.len() ==> #[trigger] next@[i] == life_step(cave.spec_width(), cave.spec_height(), cave.spec_tiles(), (wall_threshold as int))[i],
            decreases height - y,
        {
            let mut x: u32 = 0;
            while x < width
                invariant
                    cave.wf(),
                                width == cave.spec_width(),
                    height == cave.spec_height(),
                    y < height,
                    x <= width,
                    next@.len() == y * width + x,
                    forall|i: int| 0 <= i < next@.len() ==> #[trigger] next@[i] == life_step(cave.spec_width(), cave.spec_height(), cave.spec_tiles(), (wall_threshold as int))[i],
                decreases width - x,
            {
                proof {
                    lemma_index(cave.spec_width(), cave.spec_height(), x as int, y as int);
                }
                let f = CaveGenerator::should_be_floor(cave, x, y, wall_threshold);
                let ghost k = (y as int) * cave.spec_width() + (x as int);
                assert(neighbor_walls(cave.spec_width(), cave.spec_height(), cave.spec_tiles(), k % cave.spec_width(), k / cave.spec_width()) == neighbor_walls(cave.spec_width(), cave.spec_height(), cave.spec_tiles(), x as int, y as int));
                assert(life_step(cave.spec_width(), cave.spec_height(), cave.spec_tiles(), (wall_threshold as int))[k] == f);
                next.push(f);
                assert(next@[k] == life_step(cave.spec_width(), cave.spec_height(), cave.spec_tiles(), (wall_threshold as int))[k]);
                x = x + 1;
            }
            proof {
                assert((y + 1) as int * width as int == y as int * width as int + width) by (nonlinear_arith);
            }
            y = y + 1;
        }
        assert(height as int * width as int == cave.spec_width() * cave.spec_height()) by (nonlinear_arith)
            requires
                width == cave.spec_width(),
                height == cave.spec_height(),
        ;
        assert(next@ =~= life_step(cave.spec_width(), cave.spec_height(), cave.spec_tiles(), (wall_threshold as int)));
        next
    }

    /// Runs `iterations` steps of the automaton on the whole map at once.
    pub fn run_simulation(cave: &mut CaveMap, iterations: u32, wall_threshold: u32)
        requires
            old(cave).wf(),
        ensures
            final(cave).wf(),
            final(cave).spec_width() == old(cave).spec_width(),
            final(cave).spec_height() == old(cave).spec_height(),
            final(cave).spec_tiles() == life_steps(
                old(cave).spec_width(),
                old(cave).spec_height(),
                old(cave).spec_tiles(),
                wall_threshold as int,
                iterations as nat,
            ),
    {
        let mut done: u32 = 0;
        while done < iterations
            invariant
                cave.wf(),
                cave.spec_width() == old(cave).spec_width(),
                cave.spec_height() == old(cave).spec_height(),
                done <= iterations,
                life_steps(old(cave).spec_width(), old(cave).spec_height(), cave.spec_tiles(), wall_threshold as int, (iterations - done) as nat) == life_steps(
                    old(cave).spec_width(),
                    old(cave).spec_height(),
                    old(cave).spec_tiles(),
                    wall_threshold as int,
                    iterations as nat,
                ),
            decreases iterations - done,
        {
            let next = CaveGenerator::step(cave, wall_threshold);
            let ghost before = cave.spec_tiles();
            cave.tiles = next;
            assert(life_steps(old(cave).spec_width(), old(cave).spec_height(), before, wall_threshold as int, (iterations - done) as nat) == life_steps(old(cave).spec_width(), old(cave).spec_height(), cave.spec_tiles(), wall_threshold as int, (iterations - done - 1) as nat));
            done = done + 1;
        }
    }
}

} // verus!
