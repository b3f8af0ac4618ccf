use sokoban::geometry::{Direction, Position};
use sokoban::keyboard::KeyInput;
use sokoban::level::{Crate, Level};
use sokoban::setup::{border_walls, reference_level};

fn at(x: i32, y: i32) -> Position {
    Position { x, y }
}

fn idle_keys() -> KeyInput {
    KeyInput { left: false, right: false, down: false, up: false, released: false }
}

fn hold(direction: Direction) -> KeyInput {
    KeyInput {
        left: direction == Direction::Left,
        right: direction == Direction::Right,
        down: direction == Direction::Down,
        up: direction == Direction::Up,
        released: false,
    }
}

fn let_go() -> KeyInput {
    KeyInput { released: true, ..idle_keys() }
}

fn tick(level: &mut Level, keys: KeyInput) -> bool {
    assert!(level.can_tick(&keys));
    let won = level.tick(&keys);
    assert!(level.is_settled());
    assert_eq!(won, level.check_win());
    won
}

fn tap(level: &mut Level, direction: Direction) -> bool {
    tick(level, hold(direction));
    tick(level, let_go())
}

fn box_cells(level: &Level) -> Vec<Position> {
    level.boxes.iter().map(|b| b.position).collect()
}

#[test]
fn second_box_in_a_row_rejects_the_push() {
    let mut level = Level::new(at(3, 3), vec![at(4, 3), at(5, 3)], border_walls(8, 8), Vec::new());
    tick(&mut level, hold(Direction::Right));
    assert_eq!(level.player.position, at(3, 3));
    assert_eq!(box_cells(&level), vec![at(4, 3), at(5, 3)]);
}

#[test]
fn push_onto_a_free_cell_moves_player_and_box() {
    let mut level = Level::new(at(3, 3), vec![at(4, 3)], border_walls(8, 8), Vec::new());
    tick(&mut level, hold(Direction::Right));
    assert_eq!(level.player.position, at(4, 3));
    assert_eq!(box_cells(&level), vec![at(5, 3)]);
    assert_eq!(level.boxes[0].push_direction, Direction::Idle);
    assert_eq!(level.player.direction, Direction::Idle);
}

#[test]
fn push_onto_a_hole_moves_like_onto_a_free_cell_and_covers_it() {
    let mut plain = Level::new(at(3, 3), vec![at(4, 3)], border_walls(8, 8), Vec::new());
    let mut holed = Level::new(at(3, 3), vec![at(4, 3)], border_walls(8, 8), vec![at(5, 3)]);
    assert!(!holed.check_win());
    tick(&mut plain, hold(Direction::Right));
    let won = tick(&mut holed, hold(Direction::Right));
    assert_eq!(holed.player, plain.player);
    assert_eq!(holed.boxes, plain.boxes);
    assert_eq!(holed.player.position, at(4, 3));
    assert_eq!(box_cells(&holed), vec![at(5, 3)]);
    assert!(won);
}

#[test]
fn box_on_the_only_hole_wins_until_it_is_pushed_away() {
    let mut level = Level::new(at(3, 5), vec![at(3, 6)], Vec::new(), vec![at(3, 6)]);
    assert!(level.check_win());
    let won = tick(&mut level, hold(Direction::Up));
    assert_eq!(box_cells(&level), vec![at(3, 7)]);
    assert_eq!(level.player.position, at(3, 6));
    assert!(!won);
    assert!(!level.check_win());
}

#[test]
fn win_check_may_repeat_without_effect() {
    let level = Level::new(at(1, 1), vec![at(3, 6)], Vec::new(), vec![at(3, 6)]);
    let before = level.clone();
    assert!(level.check_win());
    assert!(level.check_win());
    assert_eq!(level.player, before.player);
    assert_eq!(level.boxes, before.boxes);
}

#[test]
fn every_hole_matched_wins_and_a_further_push_revokes_it() {
    let mut level = Level::new(
        at(1, 1),
        vec![at(2, 1), at(2, 3)],
        border_walls(6, 6),
        vec![at(3, 1), at(2, 3)],
    );
    assert!(!level.check_win());
    assert!(tap(&mut level, Direction::Right));
    assert_eq!(box_cells(&level), vec![at(3, 1), at(2, 3)]);
    assert!(level.check_win());
    assert!(!tap(&mut level, Direction::Right));
    assert_eq!(box_cells(&level), vec![at(4, 1), at(2, 3)]);
    assert!(!level.check_win());
}

#[test]
fn reference_level_is_solved_by_clearing_the_lower_box_first() {
    let mut level = reference_level();
    assert!(!tap(&mut level, Direction::Up));
    assert_eq!(level.player.position, at(3, 3));
    assert_eq!(box_cells(&level), vec![at(3, 4), at(3, 5)]);
    assert!(!tap(&mut level, Direction::Left));
    assert!(!tap(&mut level, Direction::Up));
    assert_eq!(level.player.position, at(2, 4));
    assert!(!tap(&mut level, Direction::Right));
    assert_eq!(level.player.position, at(3, 4));
    assert_eq!(box_cells(&level), vec![at(4, 4), at(3, 5)]);
    assert!(tap(&mut level, Direction::Up));
    assert_eq!(level.player.position, at(3, 5));
    assert_eq!(box_cells(&level), vec![at(4, 4), at(3, 6)]);
    assert!(tap(&mut level, Direction::Up));
    assert_eq!(box_cells(&level), vec![at(4, 4), at(3, 6)]);
    assert_eq!(level.player.position, at(3, 5));
    tap(&mut level, Direction::Left);
    tap(&mut level, Direction::Up);
    assert!(!tap(&mut level, Direction::Right));
    assert_eq!(level.player.position, at(3, 6));
    assert_eq!(box_cells(&level), vec![at(4, 4), at(4, 6)]);
}

#[test]
fn move_into_a_wall_changes_no_position() {
    let mut level = Level::new(at(1, 1), vec![at(3, 3)], border_walls(8, 8), vec![at(4, 4)]);
    let before = level.clone();
    tick(&mut level, hold(Direction::Left));
    assert_eq!(level.player.position, before.player.position);
    assert_eq!(level.player.direction, Direction::Idle);
    assert_eq!(level.boxes, before.boxes);
    assert_eq!(level.walls, before.walls);
    assert_eq!(level.holes, before.holes);
    assert!(!level.player.has_finished_movement);
}

#[test]
fn push_against_a_wall_changes_no_position() {
    let mut level = Level::new(at(5, 3), vec![at(6, 3)], border_walls(8, 8), Vec::new());
    tick(&mut level, hold(Direction::Right));
    assert_eq!(level.player.position, at(5, 3));
    assert_eq!(box_cells(&level), vec![at(6, 3)]);
}

#[test]
fn held_key_moves_once() {
    let mut level = Level::new(at(1, 3), Vec::new(), border_walls(8, 8), Vec::new());
    for _ in 0..5 {
        tick(&mut level, hold(Direction::Right));
        assert_eq!(level.player.position, at(2, 3));
    }
}

#[test]
fn held_key_pushes_once() {
    let mut level = Level::new(at(1, 3), vec![at(2, 3)], border_walls(8, 8), Vec::new());
    for _ in 0..4 {
        tick(&mut level, hold(Direction::Right));
        assert_eq!(level.player.position, at(2, 3));
        assert_eq!(box_cells(&level), vec![at(3, 3)]);
    }
}

#[test]
fn release_arms_the_gate_for_the_next_press() {
    let mut level = Level::new(at(1, 3), Vec::new(), border_walls(8, 8), Vec::new());
    tick(&mut level, hold(Direction::Right));
    tick(&mut level, hold(Direction::Right));
    assert_eq!(level.player.position, at(2, 3));
    tick(&mut level, let_go());
    assert_eq!(level.player.position, at(2, 3));
    assert!(level.player.has_finished_movement);
    tick(&mut level, hold(Direction::Right));
    assert_eq!(level.player.position, at(3, 3));
}

#[test]
fn release_of_one_key_arms_the_gate_while_another_is_held() {
    let mut level = Level::new(at(3, 3), Vec::new(), border_walls(8, 8), Vec::new());
    tick(&mut level, KeyInput { left: true, up: true, ..idle_keys() });
    assert_eq!(level.player.position, at(3, 4));
    tick(&mut level, KeyInput { left: true, released: true, ..idle_keys() });
    assert_eq!(level.player.position, at(3, 4));
    tick(&mut level, hold(Direction::Left));
    assert_eq!(level.player.position, at(2, 4));
}

#[test]
fn tick_without_keys_changes_nothing() {
    let mut level = reference_level();
    let before = level.clone();
    tick(&mut level, idle_keys());
    assert_eq!(level.player, before.player);
    assert_eq!(level.boxes, before.boxes);
}

#[test]
fn walls_alone_keep_the_player_inside() {
    let mut level = Level::new(at(1, 1), Vec::new(), border_walls(3, 3), Vec::new());
    for direction in [Direction::Left, Direction::Right, Direction::Up, Direction::Down] {
        tap(&mut level, direction);
        assert_eq!(level.player.position, at(1, 1));
    }
}

#[test]
fn without_walls_the_player_walks_past_the_map() {
    let mut level = Level::new(at(0, 0), Vec::new(), Vec::new(), Vec::new());
    tap(&mut level, Direction::Left);
    tap(&mut level, Direction::Down);
    assert_eq!(level.player.position, at(-1, -1));
}

#[test]
fn tick_consumes_a_push_left_staged() {
    let mut level = Level::new(at(0, 0), vec![at(4, 4)], Vec::new(), Vec::new());
    level.boxes[0] = Crate { position: at(4, 4), push_direction: Direction::Up };
    assert!(level.can_tick(&idle_keys()));
    level.tick(&idle_keys());
    assert_eq!(level.boxes, vec![Crate { position: at(4, 5), push_direction: Direction::Idle }]);
}

#[test]
fn settled_levels_stay_settled_over_a_walk() {
    let mut level = reference_level();
    let walk = [
        Direction::Up, Direction::Left, Direction::Left, Direction::Left, Direction::Up,
        Direction::Right, Direction::Right, Direction::Right, Direction::Right, Direction::Right,
        Direction::Up, Direction::Up, Direction::Left, Direction::Down, Direction::Down,
        Direction::Down, Direction::Down, Direction::Right, Direction::Up, Direction::Left,
    ];
    for direction in walk {
        tap(&mut level, direction);
        assert!(level.is_separated());
        assert!(level.is_at_rest());
    }
}
