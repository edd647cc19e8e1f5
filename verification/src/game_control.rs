//! The steering controls of the two players and the keys bound to them.

use crate::keys::{held_keys, key_held, Key};
use bevy::input::keyboard::KeyCode;
use bevy::input::Input;
use vstd::prelude::*;

verus! {

/// A steering control of the first player.
#[derive(Clone, Copy, Debug, PartialEq, Eq, Structural)]
pub enum P1Control {
    Up,
    Down,
    Left,
    Right,
}

/// A steering control of the second player.
#[derive(Clone, Copy, Debug, PartialEq, Eq, Structural)]
pub enum P2Control {
    Up,
    Down,
    Left,
    Right,
}

impl P1Control {
    /// The key bound to this control: W, S, A, D.
    pub open spec fn key_spec(self) -> Key {
        match self {
            P1Control::Up => Key::W,
            P1Control::Down => Key::S,
            P1Control::Left => Key::A,
            P1Control::Right => Key::D,
        }
    }

    #[verifier::when_used_as_spec(key_spec)]
    pub fn key(self) -> (key: Key)
        ensures
            key == self.key_spec(),
    {
        match self {
            P1Control::Up => Key::W,
            P1Control::Down => Key::S,
            P1Control::Left => Key::A,
            P1Control::Right => Key::D,
        }
    }

    /// Whether the key bound to this control is held down.
    pub fn pressed(&self, keyboard_input: &Input<KeyCode>) -> (held: bool)
        ensures
            held == held_keys(*keyboard_input).contains(self.key_spec()),
    {
        key_held(keyboard_input, self.key())
    }
}

impl P2Control {
    /// The key bound to this control: the arrow of the same name.
    pub open spec fn key_spec(self) -> Key {
        match self {
            P2Control::Up => Key::Up,
            P2Control::Down => Key::Down,
            P2Control::Left => Key::Left,
            P2Control::Right => Key::Right,
        }
    }

    #[verifier::when_used_as_spec(key_spec)]
    pub fn key(self) -> (key: Key)
        ensures
            key == self.key_spec(),
    {
        match self {
            P2Control::Up => Key::Up,
            P2Control::Down => Key::Down,
            P2Control::Left => Key::Left,
            P2Control::Right => Key::Right,
        }
    }

    /// Whether the key bound to this control is held down.
    pub fn pressed(&self, keyboard_input: &Input<KeyCode>) -> (held: bool)
        ensures
            held == held_keys(*keyboard_input).contains(self.key_spec()),
    {
        key_held(keyboard_input, self.key())
    }
}

/// What a control adds to its axis: one where its key is held, else nothing.
pub open spec fn movement_of(held: bool) -> int {
    if held { 1 } else { 0 }
}

/// The first player's pull on one control: 1 while its key is held, else 0.
pub fn get_p1_movement(control: P1Control, input: &Input<KeyCode>) -> (pull: i32)
    ensures
        pull == movement_of(held_keys(*input).contains(control.key_spec())),
{
    if control.pressed(input) { 1 } else { 0 }
}

/// The second player's pull on one control: 1 while its key is held, else 0.
pub fn get_p2_movement(control: P2Control, input: &Input<KeyCode>) -> (pull: i32)
    ensures
        pull == movement_of(held_keys(*input).contains(control.key_spec())),
{
    if control.pressed(input) { 1 } else { 0 }
}

} // verus!
