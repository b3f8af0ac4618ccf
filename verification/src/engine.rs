//! The passes of one tick on a stored level, each proved equal to its
//! counterpart on the mathematical board.

use crate::board::{box_among, Pushable};
use crate::geometry::{get_new_pos, representable, step_in_range, Direction, Position};
use crate::keyboard::KeyInput;
use crate::laws::lemma_tick_keeps_settled;
use crate::level::{box_at, check_player_can_move, pushables, wall_at, Crate, Level};
use vstd::prelude::*;

verus! {

impl Level {
    /// The movement gate: turns the sampled keys into at most one pending
    /// move per press and release.
    pub fn player_direction(&mut self, keys: &KeyInput)
        ensures
            final(self)@ == old(self)@.gate(*keys),
    {
        if self.player.has_finished_movement {
            if keys.left {
                self.player.direction = Direction::Left;
                self.player.has_finished_movement = false;
            }
            if keys.right {
                self.player.direction = Direction::Right;
                self.player.has_finished_movement = false;
            }
            if keys.down {
                self.player.direction = Direction::Down;
                self.player.has_finished_movement = false;
            }
            if keys.up {
                self.player.direction = Direction::Up;
                self.player.has_finished_movement = false;
            }
        } else if keys.released {
            self.player.has_finished_movement = true;
        }
    }

    /// Stages the player's pending move on every box that stands on the
    /// player's target cell.
    pub fn push_boxes_direction(&mut self)
        requires
            representable(old(self)@.target()),
        ensures
            final(self)@ == old(self)@.stage(),
    {
        let direction = self.player.direction;
        let new_player_pos = get_new_pos(&direction, &self.player.position);
        let ghost before = *self;
        let n = self.boxes.len();
        let mut i: usize = 0;
        while i < n
            invariant
                i <= n,
                n == self.boxes@.len(),
                n == before.boxes@.len(),
                self.player == before.player,
                self.walls == before.walls,
                self.holes == before.holes,
                direction == before.player.direction,
                new_player_pos@ == before@.target(),
                forall|j: int| 0 <= j < i ==> (#[trigger] self.boxes@[j])@ == before@.stage().boxes[j],
                forall|j: int| i <= j < n ==> #[trigger] self.boxes@[j] == before.boxes@[j],
            decreases n - i,
        {
            let b = self.boxes[i];
            if new_player_pos.x == b.position.x && new_player_pos.y == b.position.y {
                self.boxes.set(i, Crate { position: b.position, push_direction: direction });
            }
            i += 1;
        }
        assert(self@.boxes =~= before@.stage().boxes);
    }

    /// Cancels every staged push that leads onto a wall or a box. Each box is
    /// judged by where the walls and the boxes stand before any of them
    /// moves.
    pub fn push_boxes_checks(&mut self)
        requires
            forall|i: int|
                0 <= i < old(self)@.boxes.len() ==> representable(
                    (#[trigger] old(self)@.boxes[i]).target(),
                ),
        ensures
            final(self)@ == old(self)@.validate(),
    {
        let ghost before = *self;
        let n = self.boxes.len();
        let mut i: usize = 0;
        while i < n
            invariant
                i <= n,
                n == self.boxes@.len(),
                n == before.boxes@.len(),
                self.player == before.player,
                self.walls == before.walls,
                self.holes == before.holes,
                forall|j: int|
                    0 <= j < n ==> (#[trigger] self.boxes@[j]).position == before.boxes@[j].position,
                forall|j: int|
                    0 <= j < n ==> representable((#[trigger] before@.boxes[j]).target()),
                forall|j: int|
                    0 <= j < i ==> (#[trigger] self.boxes@[j])@ == before@.validate().boxes[j],
                forall|j: int| i <= j < n ==> #[trigger] self.boxes@[j] == before.boxes@[j],
            decreases n - i,
        {
            let b = self.boxes[i];
            if b.push_direction != Direction::Idle {
                assert(before@.boxes[i as int] == b@);
                let box_new_pos = get_new_pos(&b.push_direction, &b.position);
                let hit_wall = wall_at(&self.walls, &box_new_pos);
                let hit_box = box_at(&self.boxes, &box_new_pos);
                proof {
                    lemma_same_cells_same_boxes(self.boxes@, before.boxes@, box_new_pos);
                }
                if hit_wall || hit_box {
                    self.boxes.set(i, Crate { position: b.position, push_direction: Direction::Idle });
                }
            }
            i += 1;
        }
        assert(self@.boxes =~= before@.validate().boxes);
    }

    /// Moves every box along its staged push and clears the stage.
    pub fn boxes_movement(&mut self)
        requires
            forall|i: int|
                0 <= i < old(self)@.boxes.len() ==> representable(
                    (#[trigger] old(self)@.boxes[i]).target(),
                ),
        ensures
            final(self)@ == old(self)@.commit_boxes(),
    {
        let ghost before = *self;
        let n = self.boxes.len();
        let mut i: usize = 0;
        while i < n
            invariant
                i <= n,
                n == self.boxes@.len(),
                n == before.boxes@.len(),
                self.player == before.player,
                self.walls == before.walls,
                self.holes == before.holes,
                forall|j: int|
                    0 <= j < n ==> representable((#[trigger] before@.boxes[j]).target()),
                forall|j: int|
                    0 <= j < i ==> (#[trigger] self.boxes@[j])@ == before@.commit_boxes().boxes[j],
                forall|j: int| i <= j < n ==> #[trigger] self.boxes@[j] == before.boxes@[j],
            decreases n - i,
        {
            let b = self.boxes[i];
            if b.push_direction != Direction::Idle {
                assert(before@.boxes[i as int] == b@);
                let moved = get_new_pos(&b.push_direction, &b.position);
                self.boxes.set(i, Crate { position: moved, push_direction: Direction::Idle });
            }
            i += 1;
        }
        assert(self@.boxes =~= before@.commit_boxes().boxes);
    }

    /// Moves the player onto its target cell unless a wall or a box is on
    /// it, and consumes the pending move.
    pub fn player_movement(&mut self)
        requires
            representable(old(self)@.target()),
        ensures
            final(self)@ == old(self)@.commit_player(),
    {
        let player_new_pos = get_new_pos(&self.player.direction, &self.player.position);
        let can_move = check_player_can_move(&self.walls, &self.boxes, &player_new_pos);
        self.player.direction = Direction::Idle;
        if can_move {
            self.player.position = player_new_pos;
        }
    }

    /// Whether a tick on the sampled keys stays within the coordinates that
    /// a position can store.
    pub fn can_tick(&self, keys: &KeyInput) -> (fits: bool)
        ensures
            fits == self@.gate(*keys).stage().has_room(),
    {
        let held = keys.pressed_direction();
        let direction = if self.player.has_finished_movement && held != Direction::Idle {
            held
        } else {
            self.player.direction
        };
        assert(direction == self@.gate(*keys).direction);
        if !step_in_range(&direction, &self.player.position) {
            return false;
        }
        let target = get_new_pos(&direction, &self.player.position);
        let ghost staged = self@.gate(*keys).stage();
        let mut i: usize = 0;
        while i < self.boxes.len()
            invariant
                i <= self.boxes.len(),
                staged == self@.gate(*keys).stage(),
                direction == self@.gate(*keys).direction,
                target@ == self@.gate(*keys).target(),
                forall|j: int| 0 <= j < i ==> representable((#[trigger] staged.boxes[j]).target()),
            decreases self.boxes.len() - i,
        {
            let b = self.boxes[i];
            let push = if b.position.x == target.x && b.position.y == target.y {
                direction
            } else {
                b.push_direction
            };
            assert(staged.boxes[i as int] == (Pushable { cell: b.position@, push }));
            if !step_in_range(&push, &b.position) {
                return false;
            }
            i += 1;
        }
        true
    }

    /// One tick: gate, stage, validate, box commit, player commit, and the
    /// win check on the state that results.
    pub fn tick(&mut self, keys: &KeyInput) -> (won: bool)
        requires
            old(self)@.gate(*keys).stage().has_room(),
        ensures
            final(self)@ == old(self)@.tick(*keys),
            won == final(self)@.won(),
            old(self)@.settled() ==> final(self)@.settled(),
    {
        self.player_direction(keys);
        self.push_boxes_direction();
        self.push_boxes_checks();
        self.boxes_movement();
        self.player_movement();
        proof {
            if old(self)@.settled() {
                lemma_tick_keeps_settled(old(self)@, *keys);
            }
        }
        self.check_win()
    }
}

/// Two lists of boxes that agree on every position have a box on the same
/// cells.
proof fn lemma_same_cells_same_boxes(now: Seq<Crate>, before: Seq<Crate>, pos: Position)
    requires
        now.len() == before.len(),
        forall|j: int| 0 <= j < now.len() ==> (#[trigger] now[j]).position == before[j].position,
    ensures
        box_among(pushables(now), pos@) == box_among(pushables(before), pos@),
{
    let a = pushables(now);
    let b = pushables(before);
    if box_among(a, pos@) {
        let i = choose|i: int| 0 <= i < a.len() && (#[trigger] a[i]).cell == pos@;
        assert(b[i].cell == pos@);
    }
    if box_among(b, pos@) {
        let i = choose|i: int| 0 <= i < b.len() && (#[trigger] b[i]).cell == pos@;
        assert(now[i].position == before[i].position);
        assert(a[i].cell == pos@);
    }
}

} // verus!
