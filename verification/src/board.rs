//! The mathematical board: every entity on unbounded integer cells, and the
//! passes of one tick as total functions from board to board.

use crate::geometry::{representable, Cell, Direction};
use crate::keyboard::KeyInput;
use vstd::prelude::*;

verus! {

/// The mathematical value of a box: the cell it stands on and the push that
/// is staged for it during the current tick.
pub struct Pushable {
    pub cell: Cell,
    pub push: Direction,
}

/// The whole puzzle state over unbounded cells.
pub struct Board {
    /// The player's cell.
    pub player: Cell,
    /// The player's pending move.
    pub direction: Direction,
    /// Whether the movement gate accepts a new key press.
    pub gate_open: bool,
    /// The boxes, each identified by its index.
    pub boxes: Seq<Pushable>,
    /// The cells that walls fill.
    pub walls: Seq<Cell>,
    /// The target cells.
    pub holes: Seq<Cell>,
}

/// Whether one of `boxes` stands on `c`.
pub open spec fn box_among(boxes: Seq<Pushable>, c: Cell) -> bool {
    exists|i: int| 0 <= i < boxes.len() && (#[trigger] boxes[i]).cell == c
}

impl Pushable {
    /// The cell that the staged push would move this box to; its own cell
    /// when nothing is staged.
    pub open spec fn target(self) -> Cell {
        self.cell.step(self.push)
    }
}

impl Board {
    /// Whether a wall fills `c`.
    pub open spec fn wall_at(self, c: Cell) -> bool {
        self.walls.contains(c)
    }

    /// Whether a box stands on `c`.
    pub open spec fn box_at(self, c: Cell) -> bool {
        box_among(self.boxes, c)
    }

    /// Whether `c` is closed to movement: a wall or a box is on it. Holes
    /// never close a cell.
    pub open spec fn blocked(self, c: Cell) -> bool {
        self.wall_at(c) || self.box_at(c)
    }

    /// The cell that the player's pending move leads to.
    pub open spec fn target(self) -> Cell {
        self.player.step(self.direction)
    }

    /// The movement gate. An open gate turns held arrows into the pending
    /// move and closes; a closed gate opens again once any arrow is released.
    /// No position changes.
    pub open spec fn gate(self, keys: KeyInput) -> Board {
        if self.gate_open {
            if keys.any_pressed() {
                Board { direction: keys.direction(), gate_open: false, ..self }
            } else {
                self
            }
        } else if keys.released {
            Board { gate_open: true, ..self }
        } else {
            self
        }
    }

    /// Staging: every box on the player's target cell takes the player's
    /// pending move as its push.
    pub open spec fn stage(self) -> Board {
        Board {
            boxes: Seq::new(
                self.boxes.len(),
                |i: int|
                    if self.boxes[i].cell == self.target() {
                        Pushable { cell: self.boxes[i].cell, push: self.direction }
                    } else {
                        self.boxes[i]
                    },
            ),
            ..self
        }
    }

    /// Validation: a staged push is cancelled when a wall or a box is on the
    /// cell it leads to.
    pub open spec fn validate(self) -> Board {
        Board {
            boxes: Seq::new(
                self.boxes.len(),
                |i: int|
                    if self.boxes[i].push != Direction::Idle && self.blocked(
                        self.boxes[i].target(),
                    ) {
                        Pushable { cell: self.boxes[i].cell, push: Direction::Idle }
                    } else {
                        self.boxes[i]
                    },
            ),
            ..self
        }
    }

    /// Box commit: every box follows its staged push, and no push stays
    /// staged.
    pub open spec fn commit_boxes(self) -> Board {
        Board {
            boxes: Seq::new(
                self.boxes.len(),
                |i: int| Pushable { cell: self.boxes[i].target(), push: Direction::Idle },
            ),
            ..self
        }
    }

    /// Player commit: the player takes the target cell unless a wall or a box
    /// is on it, and the pending move is consumed either way.
    pub open spec fn commit_player(self) -> Board {
        Board {
            player: if self.blocked(self.target()) {
                self.player
            } else {
                self.target()
            },
            direction: Direction::Idle,
            ..self
        }
    }

    /// Move resolution: the four passes that follow the debounce, in their
    /// fixed order.
    pub open spec fn resolve(self) -> Board {
        self.stage().validate().commit_boxes().commit_player()
    }

    /// One whole tick.
    pub open spec fn tick(self, keys: KeyInput) -> Board {
        self.gate(keys).resolve()
    }

    /// The board after `n` consecutive ticks that all sample the same keys.
    pub open spec fn hold(self, keys: KeyInput, n: nat) -> Board
        decreases n,
    {
        if n == 0 {
            self
        } else {
            self.tick(keys).hold(keys, (n - 1) as nat)
        }
    }

    /// Whether a box covers the hole cell `hole`.
    pub open spec fn covered(self, hole: Cell) -> bool {
        self.box_at(hole)
    }

    /// Whether the level is solved: a box covers every hole.
    pub open spec fn won(self) -> bool {
        forall|h: int| 0 <= h < self.holes.len() ==> self.covered(#[trigger] self.holes[h])
    }

    /// Whether no move is pending and no push is staged.
    pub open spec fn at_rest(self) -> bool {
        &&& self.direction == Direction::Idle
        &&& forall|i: int|
            0 <= i < self.boxes.len() ==> (#[trigger] self.boxes[i]).push == Direction::Idle
    }

    /// Whether every cell holds at most one of player, box and wall, walls
    /// among themselves included, and no hole lies under a wall.
    pub open spec fn separated(self) -> bool {
        &&& !self.blocked(self.player)
        &&& forall|i: int, j: int|
            0 <= i < j < self.walls.len() ==> #[trigger] self.walls[i] != #[trigger] self.walls[j]
        &&& forall|i: int|
            0 <= i < self.boxes.len() ==> !self.wall_at((#[trigger] self.boxes[i]).cell)
        &&& forall|i: int, j: int|
            0 <= i < j < self.boxes.len() ==> (#[trigger] self.boxes[i]).cell != (
            #[trigger] self.boxes[j]).cell
        &&& forall|h: int|
            0 <= h < self.holes.len() ==> !self.wall_at(#[trigger] self.holes[h])
    }

    /// Whether every pending step leads to a representable cell: the
    /// player's move and each staged push.
    pub open spec fn has_room(self) -> bool {
        &&& representable(self.target())
        &&& forall|i: int|
            0 <= i < self.boxes.len() ==> representable((#[trigger] self.boxes[i]).target())
    }

    /// The state between ticks: nothing pending, nothing overlapping.
    pub open spec fn settled(self) -> bool {
        self.at_rest() && self.separated()
    }
}

} // verus!
