//! Sampling the four arrow keys from the keyboard state that the windowing
//! layer maintains.

use bevy::input::keyboard::KeyCode;
use bevy::input::Input;
use crate::geometry::Direction;
use vstd::prelude::*;

verus! {

/// The keyboard state kept by `bevy`; opaque to the verifier.
#[verifier::external_type_specification]
#[verifier::external_body]
#[verifier::reject_recursive_types(T)]
pub struct ExInput<T: Copy + Eq + std::hash::Hash + Send + Sync + 'static>(Input<T>);

/// The key identifiers of `bevy`; opaque to the verifier.
#[verifier::external_type_specification]
#[verifier::external_body]
pub struct ExKeyCode(KeyCode);

/// The four keys that steer the player.
#[derive(Clone, Copy, PartialEq, Eq, Structural, Debug)]
pub enum ArrowKey {
    Left,
    Right,
    Down,
    Up,
}

/// Whether `key` is held down in `input`: what `Input::pressed` answers for
/// the key code of that arrow.
pub uninterp spec fn is_pressed(input: Input<KeyCode>, key: ArrowKey) -> bool;

/// Whether `key` was released since the last frame in `input`: what
/// `Input::just_released` answers for the key code of that arrow.
pub uninterp spec fn is_just_released(input: Input<KeyCode>, key: ArrowKey) -> bool;

/// One sample of the arrow keys, taken once per tick.
#[derive(Clone, Copy, PartialEq, Eq, Structural, Debug)]
pub struct KeyInput {
    pub left: bool,
    pub right: bool,
    pub down: bool,
    pub up: bool,
    /// Whether any of the four arrows went from pressed to released.
    pub released: bool,
}

impl KeyInput {
    /// Whether at least one arrow is held.
    pub open spec fn any_pressed(self) -> bool {
        self.left || self.right || self.down || self.up
    }

    /// The direction that the held arrows ask for. When several are held,
    /// `Up` wins over `Down`, `Down` over `Right`, and `Right` over `Left`.
    pub open spec fn direction(self) -> Direction {
        if self.up {
            Direction::Up
        } else if self.down {
            Direction::Down
        } else if self.right {
            Direction::Right
        } else if self.left {
            Direction::Left
        } else {
            Direction::Idle
        }
    }

    /// The direction that the held arrows ask for, `Idle` when none is held.
    pub fn pressed_direction(&self) -> (d: Direction)
        ensures
            d == self.direction(),
            (d == Direction::Idle) == !self.any_pressed(),
    {
        if self.up {
            Direction::Up
        } else if self.down {
            Direction::Down
        } else if self.right {
            Direction::Right
        } else if self.left {
            Direction::Left
        } else {
            Direction::Idle
        }
    }
}

/// Calls `Input::pressed` with the key code of `key`. The answer is trusted
/// to depend on the keyboard state and the key alone.
#[verifier::external_body]
fn pressed(input: &Input<KeyCode>, key: ArrowKey) -> (r: bool)
    ensures
        r == is_pressed(*input, key),
{
    input.pressed(match key {
        ArrowKey::Left => KeyCode::Left,
        ArrowKey::Right => KeyCode::Right,
        ArrowKey::Down => KeyCode::Down,
        ArrowKey::Up => KeyCode::Up,
    })
}

/// Calls `Input::just_released` with the key code of `key`. The answer is
/// trusted to depend on the keyboard state and the key alone.
#[verifier::external_body]
fn just_released(input: &Input<KeyCode>, key: ArrowKey) -> (r: bool)
    ensures
        r == is_just_released(*input, key),
{
    input.just_released(match key {
        ArrowKey::Left => KeyCode::Left,
        ArrowKey::Right => KeyCode::Right,
        ArrowKey::Down => KeyCode::Down,
        ArrowKey::Up => KeyCode::Up,
    })
}

/// Samples the four arrow keys.
pub fn read_keys(keyboard_input: &Input<KeyCode>) -> (keys: KeyInput)
    ensures
        keys.left == is_pressed(*keyboard_input, ArrowKey::Left),
        keys.right == is_pressed(*keyboard_input, ArrowKey::Right),
        keys.down == is_pressed(*keyboard_input, ArrowKey::Down),
        keys.up == is_pressed(*keyboard_input, ArrowKey::Up),
        keys.released == (is_just_released(*keyboard_input, ArrowKey::Left)
            || is_just_released(*keyboard_input, ArrowKey::Right)
            || is_just_released(*keyboard_input, ArrowKey::Down)
            || is_just_released(*keyboard_input, ArrowKey::Up)),
{
    let released = just_released(keyboard_input, ArrowKey::Left)
        || just_released(keyboard_input, ArrowKey::Right)
        || just_released(keyboard_input, ArrowKey::Down)
        || just_released(keyboard_input, ArrowKey::Up);
    KeyInput {
        left: pressed(keyboard_input, ArrowKey::Left),
        right: pressed(keyboard_input, ArrowKey::Right),
        down: pressed(keyboard_input, ArrowKey::Down),
        up: pressed(keyboard_input, ArrowKey::Up),
        released,
    }
}

} // verus!
