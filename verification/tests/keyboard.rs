use bevy::input::keyboard::KeyCode;
use bevy::input::Input;
use sokoban::geometry::Direction;
use sokoban::keyboard::{read_keys, KeyInput};

fn keys(left: bool, right: bool, down: bool, up: bool) -> KeyInput {
    KeyInput { left, right, down, up, released: false }
}

#[test]
fn idle_keyboard_reads_as_nothing_pressed() {
    let input = Input::<KeyCode>::default();
    let sample = read_keys(&input);
    assert_eq!(sample, keys(false, false, false, false));
}

#[test]
fn held_left_arrow_is_reported_as_left_only() {
    let mut input = Input::<KeyCode>::default();
    input.press(KeyCode::Left);
    assert_eq!(read_keys(&input), keys(true, false, false, false));
}

#[test]
fn each_arrow_maps_to_its_own_flag() {
    let mut input = Input::<KeyCode>::default();
    input.press(KeyCode::Right);
    assert_eq!(read_keys(&input), keys(false, true, false, false));
    let mut input = Input::<KeyCode>::default();
    input.press(KeyCode::Down);
    assert_eq!(read_keys(&input), keys(false, false, true, false));
    let mut input = Input::<KeyCode>::default();
    input.press(KeyCode::Up);
    assert_eq!(read_keys(&input), keys(false, false, false, true));
}

#[test]
fn several_held_arrows_are_all_reported() {
    let mut input = Input::<KeyCode>::default();
    input.press(KeyCode::Left);
    input.press(KeyCode::Up);
    assert_eq!(read_keys(&input), keys(true, false, false, true));
}

#[test]
fn releasing_an_arrow_is_reported_once_the_key_is_up() {
    let mut input = Input::<KeyCode>::default();
    input.press(KeyCode::Up);
    input.release(KeyCode::Up);
    let sample = read_keys(&input);
    assert!(!sample.up);
    assert!(sample.released);
}

#[test]
fn release_of_any_arrow_counts() {
    for code in [KeyCode::Left, KeyCode::Right, KeyCode::Down, KeyCode::Up] {
        let mut input = Input::<KeyCode>::default();
        input.press(code);
        input.release(code);
        assert!(read_keys(&input).released);
    }
}

#[test]
fn release_is_forgotten_after_the_frame() {
    let mut input = Input::<KeyCode>::default();
    input.press(KeyCode::Left);
    input.release(KeyCode::Left);
    input.clear();
    assert!(!read_keys(&input).released);
}

#[test]
fn releasing_another_key_is_not_an_arrow_release() {
    let mut input = Input::<KeyCode>::default();
    input.press(KeyCode::Space);
    input.release(KeyCode::Space);
    let sample = read_keys(&input);
    assert_eq!(sample, keys(false, false, false, false));
}

#[test]
fn a_release_while_another_arrow_is_held_reports_both() {
    let mut input = Input::<KeyCode>::default();
    input.press(KeyCode::Left);
    input.press(KeyCode::Right);
    input.release(KeyCode::Left);
    let sample = read_keys(&input);
    assert!(!sample.left);
    assert!(sample.right);
    assert!(sample.released);
}

#[test]
fn pressed_direction_of_no_key_is_idle() {
    assert_eq!(keys(false, false, false, false).pressed_direction(), Direction::Idle);
}

#[test]
fn pressed_direction_of_one_key_is_that_key() {
    assert_eq!(keys(true, false, false, false).pressed_direction(), Direction::Left);
    assert_eq!(keys(false, true, false, false).pressed_direction(), Direction::Right);
    assert_eq!(keys(false, false, true, false).pressed_direction(), Direction::Down);
    assert_eq!(keys(false, false, false, true).pressed_direction(), Direction::Up);
}

#[test]
fn pressed_direction_prefers_up_then_down_then_right() {
    assert_eq!(keys(true, true, true, true).pressed_direction(), Direction::Up);
    assert_eq!(keys(true, true, true, false).pressed_direction(), Direction::Down);
    assert_eq!(keys(true, true, false, false).pressed_direction(), Direction::Right);
    assert_eq!(keys(true, false, false, true).pressed_direction(), Direction::Up);
    assert_eq!(keys(true, false, true, false).pressed_direction(), Direction::Down);
}
