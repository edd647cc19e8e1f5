//! The keyboard, as bevy's input resource holds it.

use bevy::input::keyboard::KeyCode;
use bevy::input::Input;
use vstd::prelude::*;

verus! {

#[verifier::external_type_specification]
#[verifier::external_body]
#[verifier::reject_recursive_types(T)]
pub struct ExInput<T: Copy + Eq + core::hash::Hash + Send + Sync + 'static>(Input<T>);

#[verifier::external_type_specification]
#[verifier::external_body]
pub struct ExKeyCode(KeyCode);

/// The eight keys that steer the game.
#[derive(Clone, Copy, Debug, PartialEq, Eq, Structural)]
pub enum Key {
    W,
    A,
    S,
    D,
    Up,
    Down,
    Left,
    Right,
}

/// The steering keys that `keyboard` holds as currently pressed.
pub uninterp spec fn held_keys(keyboard: Input<KeyCode>) -> Set<Key>;

/// Calls `Input::pressed` with the key code that `key` stands for. The
/// contract claims that the answer is membership of the key in the set of
/// pressed inputs that the resource keeps, which `held_keys` names.
#[verifier::external_body]
pub(crate) fn key_held(keyboard: &Input<KeyCode>, key: Key) -> (held: bool)
    ensures
        held == held_keys(*keyboard).contains(key),
{
    let code = match key {
        Key::W => KeyCode::W,
        Key::A => KeyCode::A,
        Key::S => KeyCode::S,
        Key::D => KeyCode::D,
        Key::Up => KeyCode::Up,
        Key::Down => KeyCode::Down,
        Key::Left => KeyCode::Left,
        Key::Right => KeyCode::Right,
    };
    keyboard.pressed(code)
}

} // verus!
