//! Grid directions as bit flags: north, east, south, west, up and down, combinable.
use vstd::prelude::*;
use crate::point::Point;
use vstd::string::StringExecFns;

verus! {

/// The flag of the north component.
pub const NORTH: u8 = 1;
/// The flag of the east component.
pub const EAST: u8 = 2;
/// The flag of the south component.
pub const SOUTH: u8 = 4;
/// The flag of the west component.
pub const WEST: u8 = 8;
/// The flag of the up component.
pub const UP: u8 = 16;
/// The flag of the down component.
pub const DOWN: u8 = 32;

/// A three-dimensional integer vector.
#[derive(Clone, Copy, PartialEq, Eq, Structural, Debug, Hash)]
pub struct Coord3 {
    pub x: i32,
    pub y: i32,
    pub z: i32,
}

/// A direction: a set of component flags.
#[derive(Clone, Copy, PartialEq, Eq, Structural, Debug, Hash)]
pub struct Direction {
    pub bits: u8,
}

/// Whether `bits` holds `flag`.
pub open spec fn has_flag(bits: u8, flag: u8) -> bool {
    bits & flag != 0
}

/// The unit step along one axis: `1` for the positive flag, else `-1` for the negative
/// one, else `0`.
pub open spec fn axis_spec(positive: bool, negative: bool) -> int {
    if positive {
        1
    } else if negative {
        -1
    } else {
        0
    }
}

/// The step a direction takes: east is `+x`, north is `+y`, up is `+z`.
pub open spec fn coord_spec(d: Direction) -> (int, int, int) {
    (
        axis_spec(has_flag(d.bits, EAST), has_flag(d.bits, WEST)),
        axis_spec(has_flag(d.bits, NORTH), has_flag(d.bits, SOUTH)),
        axis_spec(has_flag(d.bits, UP), has_flag(d.bits, DOWN)),
    )
}

/// The flags of the direction that steps by the signs of `(x, y, z)`.
pub open spec fn from_coords_spec(x: int, y: int, z: int) -> Direction {
    Direction {
        bits: ((if y > 0 { NORTH } else { 0u8 }) | (if x > 0 { EAST } else { 0u8 }) | (if y < 0 {
            SOUTH
        } else {
            0u8
        }) | (if x < 0 { WEST } else { 0u8 }) | (if z > 0 { UP } else { 0u8 }) | (if z < 0 {
            DOWN
        } else {
            0u8
        })) as u8,
    }
}

/// The planar turn tables, indexed by the planar step `(x, y)` of a direction.
pub open spec fn turn_spec(steps: int, c: (int, int)) -> (int, int) {
    // Positions of the eight compass steps, counter-clockwise from east.
    let idx: int = if c == (1int, 0int) {
        0
    } else if c == (1int, 1int) {
        1
    } else if c == (0int, 1int) {
        2
    } else if c == (-1int, 1int) {
        3
    } else if c == (-1int, 0int) {
        4
    } else if c == (-1int, -1int) {
        5
    } else if c == (0int, -1int) {
        6
    } else if c == (1int, -1int) {
        7
    } else {
        -1
    };
    if idx < 0 {
        (0, 0)
    } else {
        compass_spec((idx + steps) % 8)
    }
}

/// The compass step at position `i`, counter-clockwise from east.
pub open spec fn compass_spec(i: int) -> (int, int) {
    if i == 0 {
        (1, 0)
    } else if i == 1 {
        (1, 1)
    } else if i == 2 {
        (0, 1)
    } else if i == 3 {
        (-1, 1)
    } else if i == 4 {
        (-1, 0)
    } else if i == 5 {
        (-1, -1)
    } else if i == 6 {
        (0, -1)
    } else {
        (1, -1)
    }
}

proof fn lemma_flag_bits(n: u8, e: u8, s: u8, w: u8, u: u8, d: u8)
    requires
        n == 0 || n == 1,
        e == 0 || e == 2,
        s == 0 || s == 4,
        w == 0 || w == 8,
        u == 0 || u == 16,
        d == 0 || d == 32,
    ensures
        ((n | e | s | w | u | d) & 1 != 0) == (n == 1),
        ((n | e | s | w | u | d) & 2 != 0) == (e == 2),
        ((n | e | s | w | u | d) & 4 != 0) == (s == 4),
        ((n | e | s | w | u | d) & 8 != 0) == (w == 8),
        ((n | e | s | w | u | d) & 16 != 0) == (u == 16),
        ((n | e | s | w | u | d) & 32 != 0) == (d == 32),
{
    assert(((n | e | s | w | u | d) & 1 != 0) == (n == 1) && ((n | e | s | w | u | d) & 2 != 0)
        == (e == 2) && ((n | e | s | w | u | d) & 4 != 0) == (s == 4) && ((n | e | s | w | u | d)
        & 8 != 0) == (w == 8) && ((n | e | s | w | u | d) & 16 != 0) == (u == 16) && ((n | e | s
        | w | u | d) & 32 != 0) == (d == 32)) by (bit_vector)
        requires
            n == 0 || n == 1,
            e == 0 || e == 2,
            s == 0 || s == 4,
            w == 0 || w == 8,
            u == 0 || u == 16,
            d == 0 || d == 32,
    ;
}

impl Direction {
    /// The direction with exactly the given flags.
    pub fn new(bits: u8) -> (d: Direction)
        ensures
            d.bits == bits,
    {
        Direction { bits }
    }

    /// Whether the direction has a north component.
    pub fn has_north(self) -> (r: bool)
        ensures
            r == has_flag(self.bits, NORTH),
    {
        self.bits & NORTH != 0
    }

    /// Whether the direction has a south component.
    pub fn has_south(self) -> (r: bool)
        ensures
            r == has_flag(self.bits, SOUTH),
    {
        self.bits & SOUTH != 0
    }

    /// Whether the direction has an east component.
    pub fn has_east(self) -> (r: bool)
        ensures
            r == has_flag(self.bits, EAST),
    {
        self.bits & EAST != 0
    }

    /// Whether the direction has a west component.
    pub fn has_west(self) -> (r: bool)
        ensures
            r == has_flag(self.bits, WEST),
    {
        self.bits & WEST != 0
    }

    /// Whether the direction has an up component.
    pub fn has_up(self) -> (r: bool)
        ensures
            r == has_flag(self.bits, UP),
    {
        self.bits & UP != 0
    }

    /// Whether the direction has a down component.
    pub fn has_down(self) -> (r: bool)
        ensures
            r == has_flag(self.bits, DOWN),
    {
        self.bits & DOWN != 0
    }

    /// The planar step: `x` is 1 east (else -1 west), `y` is 1 north (else -1 south).
    pub fn coord(self) -> (p: Point)
        ensures
            p.x == coord_spec(self).0,
            p.y == coord_spec(self).1,
    {
        let x: i32 = if self.has_east() {
            1
        } else if self.has_west() {
            -1
        } else {
            0
        };
        let y: i32 = if self.has_north() {
            1
        } else if self.has_south() {
            -1
        } else {
            0
        };
        Point { x, y }
    }

    /// The step in three dimensions; `z` is 1 up, else -1 down.
    pub fn coord3d(self) -> (c: Coord3)
        ensures
            (c.x as int, c.y as int, c.z as int) == coord_spec(self),
    {
        let z: i32 = if self.has_up() {
            1
        } else if self.has_down() {
            -1
        } else {
            0
        };
        let p = self.coord();
        Coord3 { x: p.x, y: p.y, z }
    }

    /// The direction whose components follow the signs of `coord`: east for positive
    /// `x`, west for negative, north for positive `y`, south for negative, up for
    /// positive `z`, down for negative.
    pub fn from_ivec3(coord: Coord3) -> (d: Direction)
        ensures
            d == from_coords_spec(coord.x as int, coord.y as int, coord.z as int),
            has_flag(d.bits, EAST) == (coord.x > 0),
            has_flag(d.bits, WEST) == (coord.x < 0),
            has_flag(d.bits, NORTH) == (coord.y > 0),
            has_flag(d.bits, SOUTH) == (coord.y < 0),
            has_flag(d.bits, UP) == (coord.z > 0),
            has_flag(d.bits, DOWN) == (coord.z < 0),
    {
        let n: u8 = if coord.y > 0 {
            NORTH
        } else {
            0
        };
        let e: u8 = if coord.x > 0 {
            EAST
        } else {
            0
        };
        let s: u8 = if coord.y < 0 {
            SOUTH
        } else {
            0
        };
        let w: u8 = if coord.x < 0 {
            WEST
        } else {
            0
        };
        let u: u8 = if coord.z > 0 {
            UP
        } else {
            0
        };
        let dn: u8 = if coord.z < 0 {
            DOWN
        } else {
            0
        };
        proof {
            lemma_flag_bits(n, e, s, w, u, dn);
        }
        Direction { bits: n | e | s | w | u | dn }
    }

    /// The direction whose components follow the signs of the planar `coord`.
    pub fn from_coord(coord: Point) -> (d: Direction)
        ensures
            d == from_coords_spec(coord.x as int, coord.y as int, 0),
    {
        Direction::from_ivec3(Coord3 { x: coord.x, y: coord.y, z: 0 })
    }

    /// Turns the planar part by `steps` eighths counter-clockwise; keeps up and down.
    fn turn(self, steps: i32) -> (d: Direction)
        requires
            0 <= steps < 8,
        ensures
            d == from_coords_spec(
                turn_spec(steps as int, (coord_spec(self).0, coord_spec(self).1)).0,
                turn_spec(steps as int, (coord_spec(self).0, coord_spec(self).1)).1,
                coord_spec(self).2,
            ),
    {
        let c = self.coord3d();
        let idx: i32 = if c.x == 1 && c.y == 0 {
            0
        } else if c.x == 1 && c.y == 1 {
            1
        } else if c.x == 0 && c.y == 1 {
            2
        } else if c.x == -1 && c.y == 1 {
            3
        } else if c.x == -1 && c.y == 0 {
            4
        } else if c.x == -1 && c.y == -1 {
            5
        } else if c.x == 0 && c.y == -1 {
            6
        } else if c.x == 1 && c.y == -1 {
            7
        } else {
            -1
        };
        if idx < 0 {
            return Direction::from_ivec3(Coord3 { x: 0, y: 0, z: c.z });
        }
        let i = (idx + steps) % 8;
        let (x, y): (i32, i32) = if i == 0 {
            (1, 0)
        } else if i == 1 {
            (1, 1)
        } else if i == 2 {
            (0, 1)
        } else if i == 3 {
            (-1, 1)
        } else if i == 4 {
            (-1, 0)
        } else if i == 5 {
            (-1, -1)
        } else if i == 6 {
            (0, -1)
        } else {
            (1, -1)
        };
        Direction::from_ivec3(Coord3 { x, y, z: c.z })
    }

    /// One eighth counter-clockwise (north-east becomes north); up and down are kept.
    pub fn left45(self) -> (d: Direction)
        ensures
            d == turned_spec(self, 1),
            d == from_coords_spec(
                turn_spec(1, (coord_spec(self).0, coord_spec(self).1)).0,
                turn_spec(1, (coord_spec(self).0, coord_spec(self).1)).1,
                coord_spec(self).2,
            ),
    {
        self.turn(1)
    }

    /// A quarter counter-clockwise (north becomes west); up and down are kept.
    pub fn left90(self) -> (d: Direction)
        ensures
            d == from_coords_spec(
                turn_spec(2, (coord_spec(self).0, coord_spec(self).1)).0,
                turn_spec(2, (coord_spec(self).0, coord_spec(self).1)).1,
                coord_spec(self).2,
            ),
    {
        self.turn(2)
    }

    /// Three eighths counter-clockwise (north becomes south-west); up and down are kept.
    pub fn left135(self) -> (d: Direction)
        ensures
            d == from_coords_spec(
                turn_spec(3, (coord_spec(self).0, coord_spec(self).1)).0,
                turn_spec(3, (coord_spec(self).0, coord_spec(self).1)).1,
                coord_spec(self).2,
            ),
    {
        self.turn(3)
    }

    /// Three eighths clockwise (north becomes south-east); up and down are kept.
    pub fn right135(self) -> (d: Direction)
        ensures
            d == from_coords_spec(
                turn_spec(5, (coord_spec(self).0, coord_spec(self).1)).0,
                turn_spec(5, (coord_spec(self).0, coord_spec(self).1)).1,
                coord_spec(self).2,
            ),
    {
        self.turn(5)
    }

    /// A quarter clockwise (north becomes east); up and down are kept.
    pub fn right90(self) -> (d: Direction)
        ensures
            d == from_coords_spec(
                turn_spec(6, (coord_spec(self).0, coord_spec(self).1)).0,
                turn_spec(6, (coord_spec(self).0, coord_spec(self).1)).1,
                coord_spec(self).2,
            ),
    {
        self.turn(6)
    }

    /// One eighth clockwise (north becomes north-east); up and down are kept.
    pub fn right45(self) -> (d: Direction)
        ensures
            d == turned_spec(self, 7),
            d == from_coords_spec(
                turn_spec(7, (coord_spec(self).0, coord_spec(self).1)).0,
                turn_spec(7, (coord_spec(self).0, coord_spec(self).1)).1,
                coord_spec(self).2,
            ),
    {
        self.turn(7)
    }

    /// The reverse step in all three dimensions.
    pub fn opposite(self) -> (d: Direction)
        ensures
            d == opposite_spec(self),
            d == from_coords_spec(-coord_spec(self).0, -coord_spec(self).1, -coord_spec(self).2),
    {
        let c = self.coord3d();
        Direction::from_ivec3(Coord3 { x: -c.x, y: -c.y, z: -c.z })
    }

    /// Exactly one planar axis is set: a pure north/south or a pure east/west step.
    pub fn is_cardinal(self) -> (r: bool)
        ensures
            r == (((has_flag(self.bits, NORTH) || has_flag(self.bits, SOUTH)) && !(has_flag(
                self.bits,
                EAST,
            ) || has_flag(self.bits, WEST))) || ((has_flag(self.bits, EAST) || has_flag(
                self.bits,
                WEST,
            )) && !(has_flag(self.bits, NORTH) || has_flag(self.bits, SOUTH)))),
    {
        (self.has_north() || self.has_south()) && !(self.has_east() || self.has_west()) || (
        self.has_east() || self.has_west()) && !(self.has_north() || self.has_south())
    }

    /// Both planar axes are set: a diagonal step.
    pub fn is_ordinal(self) -> (r: bool)
        ensures
            r == ((has_flag(self.bits, NORTH) || has_flag(self.bits, SOUTH)) && (has_flag(
                self.bits,
                EAST,
            ) || has_flag(self.bits, WEST))),
    {
        (self.has_north() || self.has_south()) && (self.has_east() || self.has_west())
    }
}

/// The names so far, with `name` added when `present`: the first name alone, later
/// ones after a comma and a space. The flag says whether no name was added yet.
pub open spec fn add_name_spec(acc: (Seq<char>, bool), present: bool, name: Seq<char>) -> (
    Seq<char>,
    bool,
) {
    if !present {
        acc
    } else if acc.1 {
        (name, false)
    } else {
        (acc.0 + ", "@ + name, false)
    }
}

/// The text of a direction: `Direction(` and the names of its components in the order
/// north, east, south, west, up, down, separated by `, `, then `)`.
pub open spec fn display_spec(d: Direction) -> Seq<char> {
    let a0 = (Seq::<char>::empty(), true);
    let a1 = add_name_spec(a0, has_flag(d.bits, NORTH), "NORTH"@);
    let a2 = add_name_spec(a1, has_flag(d.bits, EAST), "EAST"@);
    let a3 = add_name_spec(a2, has_flag(d.bits, SOUTH), "SOUTH"@);
    let a4 = add_name_spec(a3, has_flag(d.bits, WEST), "WEST"@);
    let a5 = add_name_spec(a4, has_flag(d.bits, UP), "UP"@);
    let a6 = add_name_spec(a5, has_flag(d.bits, DOWN), "DOWN"@);
    "Direction("@ + a6.0 + ")"@
}

fn add_name(acc: String, first: bool, present: bool, name: &str) -> (r: (String, bool))
    ensures
        (r.0@, r.1) == add_name_spec((acc@, first), present, name@),
{
    if !present {
        (acc, first)
    } else if first {
        (String::from_str(name), false)
    } else {
        let mut s = acc;
        s.append(", ");
        s.append(name);
        (s, false)
    }
}

impl Direction {
    /// The text of the direction, such as `Direction(NORTH, EAST)`.
    pub fn to_display_string(&self) -> (s: String)
        ensures
            s@ == display_spec(*self),
    {
        let (s, f) = add_name(String::new(), true, self.has_north(), "NORTH");
        let (s, f) = add_name(s, f, self.has_east(), "EAST");
        let (s, f) = add_name(s, f, self.has_south(), "SOUTH");
        let (s, f) = add_name(s, f, self.has_west(), "WEST");
        let (s, f) = add_name(s, f, self.has_up(), "UP");
        let (s, _f) = add_name(s, f, self.has_down(), "DOWN");
        let mut out = String::from_str("Direction(");
        out.append(s.as_str());
        out.append(")");
        out
    }
}

/// The direction turned by `steps` eighths counter-clockwise, up and down kept.
pub open spec fn turned_spec(d: Direction, steps: int) -> Direction {
    let c = coord_spec(d);
    from_coords_spec(turn_spec(steps, (c.0, c.1)).0, turn_spec(steps, (c.0, c.1)).1, c.2)
}

/// The reverse direction.
pub open spec fn opposite_spec(d: Direction) -> Direction {
    let c = coord_spec(d);
    from_coords_spec(-c.0, -c.1, -c.2)
}

/// The direction's flags are those of its own step: no flag beyond the six, and never
/// both of an opposing pair.
pub open spec fn canonical(d: Direction) -> bool {
    d == from_coords_spec(coord_spec(d).0, coord_spec(d).1, coord_spec(d).2)
}

/// The sign of an integer.
pub open spec fn sign(v: int) -> int {
    if v > 0 {
        1
    } else if v < 0 {
        -1
    } else {
        0
    }
}

proof fn lemma_coords_of_flags(x: int, y: int, z: int)
    ensures
        coord_spec(from_coords_spec(x, y, z)) == (sign(x), sign(y), sign(z)),
{
    let n: u8 = if y > 0 { NORTH } else { 0u8 };
    let e: u8 = if x > 0 { EAST } else { 0u8 };
    let s: u8 = if y < 0 { SOUTH } else { 0u8 };
    let w: u8 = if x < 0 { WEST } else { 0u8 };
    let u: u8 = if z > 0 { UP } else { 0u8 };
    let dn: u8 = if z < 0 { DOWN } else { 0u8 };
    lemma_flag_bits(n, e, s, w, u, dn);
    assert(from_coords_spec(x, y, z).bits == n | e | s | w | u | dn);
}

/// For a direction in canonical form, turning one eighth each way returns it, and so
/// does reversing it twice.
pub proof fn lemma_turns_round_trip(d: Direction)
    requires
        canonical(d),
    ensures
        turned_spec(turned_spec(d, 7), 1) == d,
        turned_spec(turned_spec(d, 1), 7) == d,
        opposite_spec(opposite_spec(d)) == d,
        canonical(turned_spec(d, 1)),
        canonical(opposite_spec(d)),
{
    let c = coord_spec(d);
    let r = turn_spec(7, (c.0, c.1));
    let l = turn_spec(1, (c.0, c.1));
    lemma_coords_of_flags(r.0, r.1, c.2);
    lemma_coords_of_flags(l.0, l.1, c.2);
    lemma_coords_of_flags(-c.0, -c.1, -c.2);
    let o = coord_spec(opposite_spec(d));
    lemma_coords_of_flags(-o.0, -o.1, -o.2);
    let tl = coord_spec(turned_spec(d, 1));
    lemma_coords_of_flags(tl.0, tl.1, tl.2);
    let to = coord_spec(opposite_spec(d));
    lemma_coords_of_flags(to.0, to.1, to.2);
    let rr = turn_spec(1, (sign(r.0), sign(r.1)));
    let ll = turn_spec(7, (sign(l.0), sign(l.1)));
    lemma_coords_of_flags(rr.0, rr.1, sign(c.2));
    lemma_coords_of_flags(ll.0, ll.1, sign(c.2));
}

} // verus!
