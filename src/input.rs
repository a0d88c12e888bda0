//! Logical input: game actions, mouse buttons, and movement in screen coordinates.
use vstd::prelude::*;
use crate::direction::{Direction, coord_spec};

verus! {

/// A logical game action that one or more physical keys may stand for.
#[derive(Clone, Copy, PartialEq, Eq, Structural, Debug, Hash)]
pub enum VirtualKey {
    Move(Direction),
    Confirm,
    Cancel,
    Pickup,
    Drop,
    Inventory,
    Use,
    Look,
    Wait,
    Eat,
    Quaff,
    Read,
    Zap,
    Open,
    Close,
    Help,
    Quit,
}

/// A mouse button; other buttons carry their number.
#[derive(Clone, Copy, PartialEq, Eq, Structural, Debug, Hash)]
pub enum MouseButton {
    Left,
    Right,
    Middle,
    Other(u16),
}

/// The step of a direction in screen coordinates, where `y` grows downward: north is
/// `(0, -1)`, south `(0, 1)`.
pub fn screen_delta(dir: Direction) -> (d: (i32, i32))
    ensures
        d.0 == coord_spec(dir).0,
        d.1 == -coord_spec(dir).1,
{
    let c = dir.coord();
    (c.x, -c.y)
}

} // verus!
