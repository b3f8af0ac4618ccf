//! The level as stored at run time, and the occupancy queries on it.

use crate::board::{box_among, Board, Pushable};
use crate::geometry::{Cell, Direction, Position};
use vstd::prelude::*;

verus! {

/// A box: where it stands and the push staged for it in the current tick.
#[derive(Clone, Copy, PartialEq, Eq, Structural, Debug)]
pub struct Crate {
    pub position: Position,
    pub push_direction: Direction,
}

/// The player: where it stands, its pending move, and the movement gate.
#[derive(Clone, Copy, PartialEq, Eq, Structural, Debug)]
pub struct Player {
    pub position: Position,
    pub direction: Direction,
    /// True while a new key press is accepted.
    pub has_finished_movement: bool,
}

/// One level: the player, the boxes, and the fixed walls and holes.
#[derive(Clone, Debug)]
pub struct Level {
    pub player: Player,
    pub boxes: Vec<Crate>,
    pub walls: Vec<Position>,
    pub holes: Vec<Position>,
}

impl View for Crate {
    type V = Pushable;

    open spec fn view(&self) -> Pushable {
        Pushable { cell: self.position@, push: self.push_direction }
    }
}

/// The cells that a list of positions denotes, in the same order.
pub open spec fn cells(positions: Seq<Position>) -> Seq<Cell> {
    positions.map_values(|p: Position| p@)
}

/// The mathematical boxes that a list of stored boxes denotes, in the same
/// order.
pub open spec fn pushables(boxes: Seq<Crate>) -> Seq<Pushable> {
    boxes.map_values(|b: Crate| b@)
}

impl View for Level {
    type V = Board;

    open spec fn view(&self) -> Board {
        Board {
            player: self.player.position@,
            direction: self.player.direction,
            gate_open: self.player.has_finished_movement,
            boxes: pushables(self.boxes@),
            walls: cells(self.walls@),
            holes: cells(self.holes@),
        }
    }
}

/// Whether one of `walls` fills the cell `pos`.
pub fn wall_at(walls: &Vec<Position>, pos: &Position) -> (found: bool)
    ensures
        found == cells(walls@).contains(pos@),
{
    let mut i: usize = 0;
    while i < walls.len()
        invariant
            i <= walls.len(),
            forall|j: int| 0 <= j < i ==> cells(walls@)[j] != pos@,
        decreases walls.len() - i,
    {
        if walls[i].x == pos.x && walls[i].y == pos.y {
            assert(cells(walls@)[i as int] == pos@);
            return true;
        }
        i += 1;
    }
    false
}

/// Whether one of `boxes` stands on the cell `pos`.
pub fn box_at(boxes: &Vec<Crate>, pos: &Position) -> (found: bool)
    ensures
        found == box_among(pushables(boxes@), pos@),
{
    let mut i: usize = 0;
    while i < boxes.len()
        invariant
            i <= boxes.len(),
            forall|j: int| 0 <= j < i ==> pushables(boxes@)[j].cell != pos@,
        decreases boxes.len() - i,
    {
        if boxes[i].position.x == pos.x && boxes[i].position.y == pos.y {
            assert(pushables(boxes@)[i as int].cell == pos@);
            return true;
        }
        i += 1;
    }
    false
}

/// Whether the player may enter `new_pos`: neither a wall nor a box is on it.
pub fn check_player_can_move(walls: &Vec<Position>, boxes: &Vec<Crate>, new_pos: &Position) -> (free: bool)
    ensures
        free == !(cells(walls@).contains(new_pos@) || box_among(pushables(boxes@), new_pos@)),
{
    !wall_at(walls, new_pos) && !box_at(boxes, new_pos)
}

/// Whether the hole at `hole_pos` is still open: no box stands on it.
pub fn is_hole_not_covered(hole_pos: &Position, boxes: &Vec<Crate>) -> (open: bool)
    ensures
        open == !box_among(pushables(boxes@), hole_pos@),
{
    !box_at(boxes, hole_pos)
}

impl Level {
    /// A level at rest that accepts a key press: the player and the boxes on
    /// the given positions, no move pending and no push staged.
    pub fn new(player: Position, boxes: Vec<Position>, walls: Vec<Position>, holes: Vec<Position>) -> (level: Level)
        ensures
            level@.player == player@,
            level@.direction == Direction::Idle,
            level@.gate_open,
            level@.boxes.len() == boxes@.len(),
            forall|i: int|
                0 <= i < boxes@.len() ==> #[trigger] level@.boxes[i] == (Pushable {
                    cell: boxes@[i]@,
                    push: Direction::Idle,
                }),
            level@.walls == cells(walls@),
            level@.holes == cells(holes@),
            level@.at_rest(),
    {
        let mut crates: Vec<Crate> = Vec::new();
        let mut i: usize = 0;
        while i < boxes.len()
            invariant
                i <= boxes.len(),
                crates@.len() == i,
                forall|j: int|
                    0 <= j < i ==> #[trigger] crates@[j] == (Crate {
                        position: boxes@[j],
                        push_direction: Direction::Idle,
                    }),
            decreases boxes.len() - i,
        {
            crates.push(Crate { position: boxes[i], push_direction: Direction::Idle });
            i += 1;
        }
        Level {
            player: Player { position: player, direction: Direction::Idle, has_finished_movement: true },
            boxes: crates,
            walls,
            holes,
        }
    }

    /// Whether no move is pending and no push is staged.
    pub fn is_at_rest(&self) -> (rest: bool)
        ensures
            rest == self@.at_rest(),
    {
        if self.player.direction != Direction::Idle {
            return false;
        }
        let mut i: usize = 0;
        while i < self.boxes.len()
            invariant
                i <= self.boxes.len(),
                forall|j: int| 0 <= j < i ==> (#[trigger] self@.boxes[j]).push == Direction::Idle,
            decreases self.boxes.len() - i,
        {
            if self.boxes[i].push_direction != Direction::Idle {
                assert(self@.boxes[i as int].push != Direction::Idle);
                return false;
            }
            i += 1;
        }
        true
    }

    /// Whether every cell holds at most one of player, box and wall, and no
    /// hole lies under a wall.
    pub fn is_separated(&self) -> (apart: bool)
        ensures
            apart == self@.separated(),
    {
        if !check_player_can_move(&self.walls, &self.boxes, &self.player.position) {
            return false;
        }
        let mut j: usize = 0;
        while j < self.boxes.len()
            invariant
                j <= self.boxes.len(),
                forall|k: int| 0 <= k < j ==> !self@.wall_at((#[trigger] self@.boxes[k]).cell),
                forall|a: int, b: int|
                    0 <= a < b < j ==> (#[trigger] self@.boxes[a]).cell != (
                    #[trigger] self@.boxes[b]).cell,
            decreases self.boxes.len() - j,
        {
            let here = self.boxes[j].position;
            assert(self@.boxes[j as int].cell == here@);
            if wall_at(&self.walls, &here) {
                return false;
            }
            let mut i: usize = 0;
            while i < j
                invariant
                    i <= j,
                    j < self.boxes.len(),
                    here == self.boxes@[j as int].position,
                    forall|a: int| 0 <= a < i ==> (#[trigger] self@.boxes[a]).cell != here@,
                decreases j - i,
            {
                let other = self.boxes[i].position;
                if other.x == here.x && other.y == here.y {
                    assert(self@.boxes[i as int].cell == self@.boxes[j as int].cell);
                    return false;
                }
                i += 1;
            }
            j += 1;
        }
        let mut w: usize = 0;
        while w < self.walls.len()
            invariant
                w <= self.walls.len(),
                forall|a: int, b: int|
                    0 <= a < b < w ==> #[trigger] self@.walls[a] != #[trigger] self@.walls[b],
            decreases self.walls.len() - w,
        {
            let here = self.walls[w];
            assert(self@.walls[w as int] == here@);
            let mut v: usize = 0;
            while v < w
                invariant
                    v <= w,
                    w < self.walls.len(),
                    here == self.walls@[w as int],
                    forall|a: int| 0 <= a < v ==> #[trigger] self@.walls[a] != here@,
                decreases w - v,
            {
                let other = self.walls[v];
                if other.x == here.x && other.y == here.y {
                    assert(self@.walls[v as int] == self@.walls[w as int]);
                    return false;
                }
                v += 1;
            }
            w += 1;
        }
        let mut h: usize = 0;
        while h < self.holes.len()
            invariant
                h <= self.holes.len(),
                forall|k: int| 0 <= k < h ==> !self@.wall_at(#[trigger] self@.holes[k]),
            decreases self.holes.len() - h,
        {
            assert(self@.holes[h as int] == self.holes@[h as int]@);
            if wall_at(&self.walls, &self.holes[h]) {
                return false;
            }
            h += 1;
        }
        true
    }

    /// Whether the level is in a state between ticks: nothing pending and
    /// nothing overlapping.
    pub fn is_settled(&self) -> (settled: bool)
        ensures
            settled == self@.settled(),
    {
        self.is_at_rest() && self.is_separated()
    }

    /// Whether the level is solved: a box stands on every hole.
    pub fn check_win(&self) -> (won: bool)
        ensures
            won == self@.won(),
    {
        let mut h: usize = 0;
        while h < self.holes.len()
            invariant
                h <= self.holes.len(),
                forall|k: int| 0 <= k < h ==> self@.covered(#[trigger] self@.holes[k]),
            decreases self.holes.len() - h,
        {
            if is_hole_not_covered(&self.holes[h], &self.boxes) {
                assert(!self@.covered(self@.holes[h as int]));
                return false;
            }
            assert(self@.holes[h as int] == self.holes@[h as int]@);
            h += 1;
        }
        true
    }
}

} // verus!
