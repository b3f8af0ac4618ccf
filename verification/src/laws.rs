//! What holds of every board: the separation invariant, blocked and
//! successful moves, the debounce, and the win condition.

use crate::board::{Board, Pushable};
use crate::geometry::{Cell, Direction};
use crate::keyboard::KeyInput;
use vstd::prelude::*;

verus! {

/// A tick on a settled board gives a settled board: afterwards no two of
/// player and boxes share a cell, none of them is on a wall, and nothing is
/// pending.
pub proof fn lemma_tick_keeps_settled(board: Board, keys: KeyInput)
    requires
        board.settled(),
    ensures
        board.tick(keys).settled(),
{
}

/// After any tick, on any board, no move is pending and no push is staged.
pub proof fn lemma_tick_comes_to_rest(board: Board, keys: KeyInput)
    ensures
        board.tick(keys).at_rest(),
{
}

/// A tick never touches the walls or the holes, nor the number of boxes.
pub proof fn lemma_tick_keeps_the_map(board: Board, keys: KeyInput)
    ensures
        board.tick(keys).walls == board.walls,
        board.tick(keys).holes == board.holes,
        board.tick(keys).boxes.len() == board.boxes.len(),
{
}

/// The debounce touches no position: it changes only the pending move and
/// the flag that shuts further presses out.
pub proof fn lemma_gate_touches_no_position(board: Board, keys: KeyInput)
    ensures
        board.gate(keys).player == board.player,
        board.gate(keys).boxes == board.boxes,
        board.gate(keys).walls == board.walls,
        board.gate(keys).holes == board.holes,
{
}

/// Stepping into a wall changes nothing but the debounce flag: on a settled
/// board that accepts a key press, a press towards a wall leaves the player,
/// every
/// box, the walls and the holes exactly as they were.
pub proof fn lemma_move_into_wall_changes_nothing(board: Board, keys: KeyInput)
    requires
        board.settled(),
        board.gate_open,
        keys.any_pressed(),
        board.wall_at(board.player.step(keys.direction())),
    ensures
        board.tick(keys) == (Board { gate_open: false, ..board }),
{
    assert(board.tick(keys).boxes =~= board.boxes);
}

/// Stepping onto a free cell moves the player there and nothing else.
pub proof fn lemma_free_move_takes_the_cell(board: Board, keys: KeyInput)
    requires
        board.settled(),
        board.gate_open,
        keys.any_pressed(),
        !board.blocked(board.player.step(keys.direction())),
    ensures
        board.tick(keys) == (Board {
            player: board.player.step(keys.direction()),
            gate_open: false,
            ..board
        }),
{
    assert(board.tick(keys).boxes =~= board.boxes);
}

/// A push is one box deep: when the cell behind the pushed box holds a wall
/// or another box, the push is rejected and neither the player nor any box
/// moves.
pub proof fn lemma_blocked_push_changes_nothing(board: Board, keys: KeyInput)
    requires
        board.settled(),
        board.gate_open,
        keys.any_pressed(),
        board.box_at(board.player.step(keys.direction())),
        board.blocked(board.player.step(keys.direction()).step(keys.direction())),
    ensures
        board.tick(keys) == (Board { gate_open: false, ..board }),
{
    let staged = board.gate(keys).stage();
    lemma_same_cells_same_occupancy(board, staged);
    assert(staged.validate().boxes =~= board.boxes);
    assert(board.tick(keys).boxes =~= board.boxes);
}

/// A push onto a cell that no wall and no box occupies succeeds: the player
/// takes the box's cell, the box moves one cell further, and every other box
/// stays. The cell that the box lands on is then covered.
pub proof fn lemma_push_moves_player_and_box(board: Board, keys: KeyInput, i: int)
    requires
        board.settled(),
        board.gate_open,
        keys.any_pressed(),
        0 <= i < board.boxes.len(),
        board.boxes[i].cell == board.player.step(keys.direction()),
        !board.blocked(board.boxes[i].cell.step(keys.direction())),
    ensures
        board.tick(keys) == (Board {
            player: board.boxes[i].cell,
            gate_open: false,
            boxes: board.boxes.update(
                i,
                Pushable { cell: board.boxes[i].cell.step(keys.direction()), push: Direction::Idle },
            ),
            ..board
        }),
        board.tick(keys).covered(board.boxes[i].cell.step(keys.direction())),
{
    let d = keys.direction();
    let staged = board.gate(keys).stage();
    let moved = staged.validate().commit_boxes();
    let after = board.tick(keys);
    let landed = Pushable { cell: board.boxes[i].cell.step(d), push: Direction::Idle };
    lemma_same_cells_same_occupancy(board, staged);
    assert(staged.validate().boxes[i].push == d);
    assert(moved.boxes =~= board.boxes.update(i, landed));
    assert(!moved.box_at(board.boxes[i].cell)) by {
        if moved.box_at(board.boxes[i].cell) {
            let j = choose|j: int| 0 <= j < moved.boxes.len() && (#[trigger] moved.boxes[j]).cell == board.boxes[i].cell;
            assert(board.boxes[j].cell == board.boxes[i].cell || j == i);
        }
    }
    assert(after.boxes[i].cell == board.boxes[i].cell.step(d));
}

/// Holes never block: replacing the holes of a board by any others changes
/// nothing in what a tick does to the player and the boxes.
pub proof fn lemma_holes_never_block(board: Board, holes: Seq<Cell>, keys: KeyInput)
    ensures
        (Board { holes, ..board }).tick(keys) == (Board { holes, ..board.tick(keys) }),
{
    let other = Board { holes, ..board };
    assert(other.gate(keys).stage().boxes =~= board.gate(keys).stage().boxes);
    assert(other.tick(keys).boxes =~= board.tick(keys).boxes);
}

/// Holding the same keys, with none released, over any number of ticks
/// changes the board on the first tick only: `n` such ticks leave it exactly
/// where one tick does.
pub proof fn lemma_held_keys_move_once(board: Board, keys: KeyInput, n: nat)
    requires
        keys.any_pressed(),
        !keys.released,
        n >= 1,
    ensures
        board.hold(keys, n) == board.tick(keys),
    decreases n,
{
    let first = board.tick(keys);
    if n == 1 {
        assert(first.hold(keys, 0) == first);
    } else {
        lemma_held_keys_move_once(board, keys, (n - 1) as nat);
        lemma_closed_gate_holds_still(first, keys);
        lemma_hold_unfolds_at_the_end(board, keys, (n - 1) as nat);
    }
}

/// A key held over `n` ticks towards a free cell moves the player by exactly
/// one cell, however large `n` is.
pub proof fn lemma_held_key_steps_one_cell(board: Board, keys: KeyInput, n: nat)
    requires
        board.settled(),
        board.gate_open,
        keys.any_pressed(),
        !keys.released,
        !board.blocked(board.player.step(keys.direction())),
        n >= 1,
    ensures
        board.hold(keys, n).player == board.player.step(keys.direction()),
        board.hold(keys, n).boxes == board.boxes,
{
    lemma_held_keys_move_once(board, keys, n);
    lemma_free_move_takes_the_cell(board, keys);
}

/// While key presses are shut out and no arrow is released, a board at rest
/// does not change.
pub proof fn lemma_closed_gate_holds_still(board: Board, keys: KeyInput)
    requires
        board.at_rest(),
        !board.gate_open,
        !keys.released,
    ensures
        board.tick(keys) == board,
{
    assert(board.tick(keys).boxes =~= board.boxes);
}

/// Pushing a box off a hole revokes the win: on a settled board, when a tick
/// moves a box that stood on a hole, the board is not solved afterwards.
pub proof fn lemma_leaving_a_hole_revokes_win(board: Board, keys: KeyInput, i: int, h: int)
    requires
        board.settled(),
        0 <= i < board.boxes.len(),
        0 <= h < board.holes.len(),
        board.boxes[i].cell == board.holes[h],
        board.tick(keys).boxes[i].cell != board.boxes[i].cell,
    ensures
        !board.tick(keys).won(),
{
    let after = board.tick(keys);
    let hole = board.holes[h];
    let gated = board.gate(keys);
    let staged = gated.stage();
    assert(after.holes[h] == hole);
    assert(staged.boxes[i].push != Direction::Idle);
    if after.covered(hole) {
        let j = choose|j: int| 0 <= j < after.boxes.len() && (#[trigger] after.boxes[j]).cell == hole;
        assert(staged.boxes[j].push == Direction::Idle);
    }
}

/// `n + 1` ticks are `n` ticks followed by one more.
proof fn lemma_hold_unfolds_at_the_end(board: Board, keys: KeyInput, n: nat)
    ensures
        board.hold(keys, n + 1) == board.hold(keys, n).tick(keys),
    decreases n,
{
    if n == 0 {
        assert(board.tick(keys).hold(keys, 0) == board.tick(keys));
        assert(board.hold(keys, 1) == board.tick(keys).hold(keys, 0));
    } else {
        lemma_hold_unfolds_at_the_end(board.tick(keys), keys, (n - 1) as nat);
        assert(board.hold(keys, n + 1) == board.tick(keys).hold(keys, n));
    }
}

/// Two boards with the same walls and boxes on the same cells block the same
/// cells.
proof fn lemma_same_cells_same_occupancy(a: Board, b: Board)
    requires
        a.walls == b.walls,
        a.boxes.len() == b.boxes.len(),
        forall|j: int| 0 <= j < a.boxes.len() ==> (#[trigger] a.boxes[j]).cell == b.boxes[j].cell,
    ensures
        forall|c: Cell| a.box_at(c) == b.box_at(c),
        forall|c: Cell| a.blocked(c) == b.blocked(c),
{
    assert forall|c: Cell| a.box_at(c) == b.box_at(c) by {
        if a.box_at(c) {
            let j = choose|j: int| 0 <= j < a.boxes.len() && (#[trigger] a.boxes[j]).cell == c;
            assert(b.boxes[j].cell == c);
        }
        if b.box_at(c) {
            let j = choose|j: int| 0 <= j < b.boxes.len() && (#[trigger] b.boxes[j]).cell == c;
            assert(a.boxes[j].cell == b.boxes[j].cell);
        }
    }
}

} // verus!
