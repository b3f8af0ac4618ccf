//! Grid cells, directions, and the single-step displacement between cells.

use vstd::prelude::*;

verus! {

/// A pending move: one of the four grid directions, or no move at all.
#[derive(Clone, Copy, PartialEq, Eq, Structural, Debug)]
pub enum Direction {
    Left,
    Up,
    Right,
    Down,
    Idle,
}

/// A grid coordinate as stored at run time.
#[derive(Clone, Copy, PartialEq, Eq, Structural, Debug)]
pub struct Position {
    pub x: i32,
    pub y: i32,
}

/// A grid coordinate with unbounded integers: the mathematical value of a
/// [`Position`].
pub struct Cell {
    pub x: int,
    pub y: int,
}

impl Direction {
    /// Horizontal displacement of one step in this direction.
    pub open spec fn dx(self) -> int {
        match self {
            Direction::Left => -1,
            Direction::Right => 1,
            _ => 0,
        }
    }

    /// Vertical displacement of one step in this direction; `Up` increases `y`.
    pub open spec fn dy(self) -> int {
        match self {
            Direction::Up => 1,
            Direction::Down => -1,
            _ => 0,
        }
    }
}

impl Cell {
    /// The neighbouring cell one step away in direction `d`; the cell itself
    /// when `d` is `Direction::Idle`.
    pub open spec fn step(self, d: Direction) -> Cell {
        Cell { x: self.x + d.dx(), y: self.y + d.dy() }
    }
}

impl View for Position {
    type V = Cell;

    open spec fn view(&self) -> Cell {
        Cell { x: self.x as int, y: self.y as int }
    }
}

/// Whether a cell's coordinates can be stored in a [`Position`].
pub open spec fn representable(c: Cell) -> bool {
    i32::MIN <= c.x <= i32::MAX && i32::MIN <= c.y <= i32::MAX
}

/// Whether one step from `p` in direction `d` stays within the coordinates
/// that a [`Position`] can store.
pub open spec fn step_fits(d: Direction, p: Position) -> bool {
    representable(p@.step(d))
}

/// Whether one step from `position` in `direction` can be stored.
pub fn step_in_range(direction: &Direction, position: &Position) -> (fits: bool)
    ensures
        fits == step_fits(*direction, *position),
{
    match direction {
        Direction::Idle => true,
        Direction::Left => position.x > i32::MIN,
        Direction::Right => position.x < i32::MAX,
        Direction::Up => position.y < i32::MAX,
        Direction::Down => position.y > i32::MIN,
    }
}

/// The destination of one step from `position` in `direction`.
pub fn get_new_pos(direction: &Direction, position: &Position) -> (r: Position)
    requires
        step_fits(*direction, *position),
    ensures
        r@ == position@.step(*direction),
{
    match direction {
        Direction::Idle => *position,
        Direction::Left => Position { x: position.x - 1, y: position.y },
        Direction::Right => Position { x: position.x + 1, y: position.y },
        Direction::Up => Position { x: position.x, y: position.y + 1 },
        Direction::Down => Position { x: position.x, y: position.y - 1 },
    }
}

} // verus!
