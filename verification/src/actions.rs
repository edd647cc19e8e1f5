//! What the players ask for in a frame, read from keyboard and gamepads.

use crate::game_control::{get_p1_movement, get_p2_movement, movement_of, P1Control, P2Control};
use crate::keys::{held_keys, Key};
use crate::sticks::{clamp_deflection, clamped_deflection, within_unit};
use crate::vector::Vector;
use bevy::input::keyboard::KeyCode;
use bevy::input::Input;
use vstd::prelude::*;

verus! {

/// One, in the millionths in which a direction is counted.
pub const UNIT: i64 = 1_000_000;

/// Each component of a diagonal direction of length one, in millionths,
/// rounded down so that the direction stays within the unit circle.
pub const DIAGONAL: i64 = 707_106;

/// How far, in millionths, the length of a direction may be from one.
pub const TOLERANCE: i64 = 10;

/// The device that steers the first player.
#[derive(Clone, Copy, Debug, PartialEq, Eq, Structural)]
pub enum InputDevice {
    Gamepad,
    Keyboard,
}

impl Default for InputDevice {
    fn default() -> (device: InputDevice)
        ensures
            device == InputDevice::Gamepad,
    {
        InputDevice::Gamepad
    }
}

/// The wishes and signals of one frame. Movements are directions in
/// millionths; a zero vector asks for nothing.
#[derive(Clone, Copy, Debug, PartialEq, Eq, Structural)]
pub struct Actions {
    pub p1_movement: Vector,
    pub p1_bee_movement: Vector,
    pub p2_movement: Vector,
    pub p2_bee_movement: Vector,
    pub flower_gotten: bool,
    pub p1_queen_died: bool,
    pub p2_queen_died: bool,
    pub worker_bee_died: bool,
    pub input_device: InputDevice,
}

impl Default for Actions {
    fn default() -> (actions: Actions)
        ensures
            actions == Actions::idle(),
    {
        Actions {
            p1_movement: Vector { x: 0, y: 0 },
            p1_bee_movement: Vector { x: 0, y: 0 },
            p2_movement: Vector { x: 0, y: 0 },
            p2_bee_movement: Vector { x: 0, y: 0 },
            flower_gotten: false,
            p1_queen_died: false,
            p2_queen_died: false,
            worker_bee_died: false,
            input_device: InputDevice::Gamepad,
        }
    }
}

impl Actions {
    /// No movement, no signal, steering by gamepad.
    pub open spec fn idle() -> Actions {
        Actions {
            p1_movement: Vector { x: 0, y: 0 },
            p1_bee_movement: Vector { x: 0, y: 0 },
            p2_movement: Vector { x: 0, y: 0 },
            p2_bee_movement: Vector { x: 0, y: 0 },
            flower_gotten: false,
            p1_queen_died: false,
            p2_queen_died: false,
            worker_bee_died: false,
            input_device: InputDevice::Gamepad,
        }
    }
}

/// The direction of length one, or zero, that two opposed pairs of keys ask
/// for: each pair pulls its axis by the difference of its two keys, and a
/// pull on both axes is scaled down to the diagonal.
pub open spec fn key_direction_spec(right: bool, left: bool, up: bool, down: bool) -> Vector {
    let x = movement_of(right) - movement_of(left);
    let y = movement_of(up) - movement_of(down);
    if x != 0 && y != 0 {
        Vector { x: (x * DIAGONAL) as i64, y: (y * DIAGONAL) as i64 }
    } else {
        Vector { x: (x * UNIT) as i64, y: (y * UNIT) as i64 }
    }
}

/// Whether `v` is a direction: zero, or of length one within the tolerance.
pub open spec fn is_direction(v: Vector) -> bool {
    v.is_zero() || ((UNIT - TOLERANCE) * (UNIT - TOLERANCE) <= v.norm_squared() <= (UNIT
        + TOLERANCE) * (UNIT + TOLERANCE))
}

#[verifier::when_used_as_spec(key_direction_spec)]
pub fn key_direction(right: bool, left: bool, up: bool, down: bool) -> (v: Vector)
    ensures
        v == key_direction_spec(right, left, up, down),
        is_direction(v),
        within_unit(v),
        v.is_zero() <==> (right == left && up == down),
{
    let x: i64 = (if right { 1i64 } else { 0i64 }) - (if left { 1i64 } else { 0i64 });
    let y: i64 = (if up { 1i64 } else { 0i64 }) - (if down { 1i64 } else { 0i64 });
    let v = if x != 0 && y != 0 {
        Vector { x: x * DIAGONAL, y: y * DIAGONAL }
    } else {
        Vector { x: x * UNIT, y: y * UNIT }
    };
    proof {
        lemma_square_of_component(v.x);
        lemma_square_of_component(v.y);
    }
    v
}

/// The squares of the five values that a component of a key direction takes.
proof fn lemma_square_of_component(c: i64)
    requires
        c == 0 || c == UNIT || c == -UNIT || c == DIAGONAL || c == -DIAGONAL,
    ensures
        c == 0 ==> c * c == 0,
        c == UNIT || c == -UNIT ==> c * c == 1_000_000_000_000,
        c == DIAGONAL || c == -DIAGONAL ==> c * c == 499_998_895_236,
{
    assert(1_000_000int * 1_000_000int == 1_000_000_000_000) by (nonlinear_arith);
    assert(707_106int * 707_106int == 499_998_895_236) by (nonlinear_arith);
    assert((-1_000_000int) * (-1_000_000int) == 1_000_000_000_000) by (nonlinear_arith);
    assert((-707_106int) * (-707_106int) == 499_998_895_236) by (nonlinear_arith);
}

/// The direction that the first player's keys W, A, S, D ask for.
pub open spec fn p1_keys_direction(keys: Set<Key>) -> Vector {
    key_direction_spec(
        keys.contains(Key::D),
        keys.contains(Key::A),
        keys.contains(Key::W),
        keys.contains(Key::S),
    )
}

/// The direction that the arrow keys ask for.
pub open spec fn arrow_keys_direction(keys: Set<Key>) -> Vector {
    key_direction_spec(
        keys.contains(Key::Right),
        keys.contains(Key::Left),
        keys.contains(Key::Up),
        keys.contains(Key::Down),
    )
}

/// Reads the direction of W, A, S, D from the keyboard.
pub fn p1_direction(keyboard_input: &Input<KeyCode>) -> (v: Vector)
    ensures
        v == p1_keys_direction(held_keys(*keyboard_input)),
        is_direction(v),
        within_unit(v),
{
    let right = get_p1_movement(P1Control::Right, keyboard_input) == 1;
    let left = get_p1_movement(P1Control::Left, keyboard_input) == 1;
    let up = get_p1_movement(P1Control::Up, keyboard_input) == 1;
    let down = get_p1_movement(P1Control::Down, keyboard_input) == 1;
    key_direction(right, left, up, down)
}

/// Reads the direction of the arrow keys from the keyboard.
pub fn arrow_direction(keyboard_input: &Input<KeyCode>) -> (v: Vector)
    ensures
        v == arrow_keys_direction(held_keys(*keyboard_input)),
        is_direction(v),
        within_unit(v),
{
    let right = get_p2_movement(P2Control::Right, keyboard_input) == 1;
    let left = get_p2_movement(P2Control::Left, keyboard_input) == 1;
    let up = get_p2_movement(P2Control::Up, keyboard_input) == 1;
    let down = get_p2_movement(P2Control::Down, keyboard_input) == 1;
    key_direction(right, left, up, down)
}

/// Two players on one keyboard: the first queen goes by W, A, S, D and the
/// second by the arrows. Nothing else of `actions` changes.
pub fn set_movement_actions(actions: &mut Actions, keyboard_input: &Input<KeyCode>)
    ensures
        *final(actions) == (Actions {
            p1_movement: p1_keys_direction(held_keys(*keyboard_input)),
            p2_movement: arrow_keys_direction(held_keys(*keyboard_input)),
            ..*old(actions)
        }),
        is_direction(final(actions).p1_movement),
        is_direction(final(actions).p2_movement),
{
    actions.p1_movement = p1_direction(keyboard_input);
    actions.p2_movement = arrow_direction(keyboard_input);
}

/// Where the two sticks of one gamepad stand, each component in millionths
/// of full deflection.
#[derive(Clone, Copy, Debug, PartialEq, Eq, Structural)]
pub struct Sticks {
    pub left: Vector,
    pub right: Vector,
}

/// What `gamepad_system` leaves in `actions`. By gamepad, the last connected
/// pad steers: its left stick the queen, its right stick the swarm, each
/// brought into the unit circle; with no pad nothing changes. By keyboard,
/// W, A, S, D steer the queen and the arrows the swarm.
pub open spec fn steered(actions: Actions, gamepads: Seq<Sticks>, keys: Set<Key>) -> Actions {
    match actions.input_device {
        InputDevice::Gamepad => if gamepads.len() == 0 {
            actions
        } else {
            Actions {
                p1_movement: clamped_deflection(gamepads.last().left),
                p1_bee_movement: clamped_deflection(gamepads.last().right),
                ..actions
            }
        },
        InputDevice::Keyboard => Actions {
            p1_movement: p1_keys_direction(keys),
            p1_bee_movement: arrow_keys_direction(keys),
            ..actions
        },
    }
}

/// Takes the first player's wishes from the chosen device.
pub fn gamepad_system(
    gamepads: &Vec<Sticks>,
    keyboard_input: &Input<KeyCode>,
    actions: &mut Actions,
)
    ensures
        *final(actions) == steered(*old(actions), gamepads@, held_keys(*keyboard_input)),
        within_unit(old(actions).p1_movement) ==> within_unit(final(actions).p1_movement),
        within_unit(old(actions).p1_bee_movement) ==> within_unit(
            final(actions).p1_bee_movement,
        ),
{
    match actions.input_device {
        InputDevice::Gamepad => {
            let n: usize = gamepads.len();
            if n > 0 {
                actions.p1_movement = clamp_deflection(gamepads[n - 1].left);
                actions.p1_bee_movement = clamp_deflection(gamepads[n - 1].right);
            }
        },
        InputDevice::Keyboard => {
            actions.p1_movement = p1_direction(keyboard_input);
            actions.p1_bee_movement = arrow_direction(keyboard_input);
        },
    }
}

/// Which gamepad steers which player, by the gamepad's number.
#[derive(Clone, Copy, Debug, PartialEq, Eq, Structural)]
pub struct GamepadSlots {
    pub first_player: Option<usize>,
    pub second_player: Option<usize>,
}

/// What happened to a gamepad.
#[derive(Clone, Copy, Debug, PartialEq, Eq, Structural)]
pub enum Connection {
    Connected,
    Disconnected,
}

/// A gamepad came or went.
#[derive(Clone, Copy, Debug, PartialEq, Eq, Structural)]
pub struct ConnectionEvent {
    pub gamepad: usize,
    pub connection: Connection,
}

/// An axis of a gamepad.
#[derive(Clone, Copy, Debug, PartialEq, Eq, Structural)]
pub enum AxisKind {
    LeftStickX,
    LeftStickY,
    LeftZ,
    RightStickX,
    RightStickY,
    RightZ,
    Other,
}

/// An axis of a gamepad moved to `value`, in millionths of full deflection.
#[derive(Clone, Copy, Debug, PartialEq, Eq, Structural)]
pub struct AxisEvent {
    pub gamepad: usize,
    pub axis: AxisKind,
    pub value: i64,
}

/// The slots after one connection event. What the event asks for is judged
/// by `seen`, the slots as they stood when the frame began, and carried out
/// on `slots`: a new gamepad takes the first player's slot if that was
/// empty, else the second player's if that was empty; a lost gamepad leaves
/// each slot that it held.
pub open spec fn settled(seen: GamepadSlots, slots: GamepadSlots, event: ConnectionEvent)
    -> GamepadSlots {
    match event.connection {
        Connection::Connected => if seen.first_player is None {
            GamepadSlots { first_player: Some(event.gamepad), ..slots }
        } else if seen.second_player is None {
            GamepadSlots { second_player: Some(event.gamepad), ..slots }
        } else {
            slots
        },
        Connection::Disconnected => GamepadSlots {
            first_player: if seen.first_player == Some(event.gamepad) {
                None
            } else {
                slots.first_player
            },
            second_player: if seen.second_player == Some(event.gamepad) {
                None
            } else {
                slots.second_player
            },
        },
    }
}

/// The slots after a frame's connection events, taken in turn.
pub open spec fn settled_all(seen: GamepadSlots, events: Seq<ConnectionEvent>) -> GamepadSlots
    decreases events.len(),
{
    if events.len() == 0 {
        seen
    } else {
        settled(seen, settled_all(seen, events.drop_last()), events.last())
    }
}

/// Carries out one connection event.
pub fn settle(seen: GamepadSlots, slots: GamepadSlots, event: ConnectionEvent) -> (after:
    GamepadSlots)
    ensures
        after == settled(seen, slots, event),
{
    match event.connection {
        Connection::Connected => {
            if seen.first_player.is_none() {
                GamepadSlots { first_player: Some(event.gamepad), second_player: slots.second_player }
            } else if seen.second_player.is_none() {
                GamepadSlots { first_player: slots.first_player, second_player: Some(event.gamepad) }
            } else {
                slots
            }
        },
        Connection::Disconnected => {
            let first_player = match seen.first_player {
                Some(id) => if id == event.gamepad {
                    None
                } else {
                    slots.first_player
                },
                None => slots.first_player,
            };
            let second_player = match seen.second_player {
                Some(id) => if id == event.gamepad {
                    None
                } else {
                    slots.second_player
                },
                None => slots.second_player,
            };
            GamepadSlots { first_player, second_player }
        },
    }
}

/// The wishes after one axis event. Only the first player's gamepad is
/// heard. The left stick speaks for the queen and the right stick for the
/// swarm; a stick is heard only while its wish is still zero, and then the
/// wish becomes the event's value along the event's axis.
pub open spec fn routed(first_player: Option<usize>, actions: Actions, event: AxisEvent) -> Actions {
    if first_player != Some(event.gamepad) {
        actions
    } else {
        match event.axis {
            AxisKind::LeftStickX => if actions.p1_movement.is_zero() {
                Actions { p1_movement: Vector { x: event.value, y: 0 }, ..actions }
            } else {
                actions
            },
            AxisKind::LeftStickY => if actions.p1_movement.is_zero() {
                Actions { p1_movement: Vector { x: 0, y: event.value }, ..actions }
            } else {
                actions
            },
            AxisKind::RightStickX => if actions.p1_bee_movement.is_zero() {
                Actions { p1_bee_movement: Vector { x: event.value, y: 0 }, ..actions }
            } else {
                actions
            },
            AxisKind::RightStickY => if actions.p1_bee_movement.is_zero() {
                Actions { p1_bee_movement: Vector { x: 0, y: event.value }, ..actions }
            } else {
                actions
            },
            _ => actions,
        }
    }
}

/// The wishes after a frame's axis events, taken in turn.
pub open spec fn routed_all(first_player: Option<usize>, actions: Actions, events: Seq<AxisEvent>) -> Actions
    decreases events.len(),
{
    if events.len() == 0 {
        actions
    } else {
        routed(first_player, routed_all(first_player, actions, events.drop_last()), events.last())
    }
}

/// Hears one axis event.
pub fn route(first_player: Option<usize>, actions: Actions, event: AxisEvent) -> (after: Actions)
    ensures
        after == routed(first_player, actions, event),
{
    let mut after = actions;
    let heard = match first_player {
        Some(id) => id == event.gamepad,
        None => false,
    };
    if heard {
        let queen_idle = actions.p1_movement.x == 0 && actions.p1_movement.y == 0;
        let swarm_idle = actions.p1_bee_movement.x == 0 && actions.p1_bee_movement.y == 0;
        match event.axis {
            AxisKind::LeftStickX => {
                if queen_idle {
                    after.p1_movement = Vector { x: event.value, y: 0 };
                }
            },
            AxisKind::LeftStickY => {
                if queen_idle {
                    after.p1_movement = Vector { x: 0, y: event.value };
                }
            },
            AxisKind::RightStickX => {
                if swarm_idle {
                    after.p1_bee_movement = Vector { x: event.value, y: 0 };
                }
            },
            AxisKind::RightStickY => {
                if swarm_idle {
                    after.p1_bee_movement = Vector { x: 0, y: event.value };
                }
            },
            _ => {},
        }
    }
    after
}

/// Takes in a frame's gamepad events. Every event is judged by the slots as
/// they stand when the frame begins: the connection events then change the
/// slots in turn, and the axis events of the first player's gamepad change
/// the wishes in turn.
pub fn gamepad_events(
    slots: &mut GamepadSlots,
    connection_events: &Vec<ConnectionEvent>,
    axis_changed_events: &Vec<AxisEvent>,
    actions: &mut Actions,
)
    ensures
        *final(slots) == settled_all(*old(slots), connection_events@),
        *final(actions) == routed_all(old(slots).first_player, *old(actions), axis_changed_events@),
{
    let seen: GamepadSlots = *slots;
    let mut i: usize = 0;
    while i < connection_events.len()
        invariant
            i <= connection_events@.len(),
            seen == *old(slots),
            *slots == settled_all(seen, connection_events@.take(i as int)),
        decreases connection_events@.len() - i,
    {
        *slots = settle(seen, *slots, connection_events[i]);
        proof {
            assert(connection_events@.take(i + 1).drop_last() == connection_events@.take(
                i as int,
            ));
        }
        i += 1;
    }
    assert(connection_events@.take(connection_events@.len() as int) == connection_events@);
    let mut j: usize = 0;
    while j < axis_changed_events.len()
        invariant
            j <= axis_changed_events@.len(),
            *actions == routed_all(seen.first_player, *old(actions), axis_changed_events@.take(j as int)),
        decreases axis_changed_events@.len() - j,
    {
        *actions = route(seen.first_player, *actions, axis_changed_events[j]);
        proof {
            assert(axis_changed_events@.take(j + 1).drop_last() == axis_changed_events@.take(
                j as int,
            ));
        }
        j += 1;
    }
    assert(axis_changed_events@.take(axis_changed_events@.len() as int) == axis_changed_events@);
}

} // verus!
