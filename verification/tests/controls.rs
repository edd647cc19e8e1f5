use bee_arena::actions::{
    gamepad_system, key_direction, set_movement_actions, Actions, InputDevice, Sticks, DIAGONAL,
    UNIT,
};
use bee_arena::sticks::{clamp_deflection, whole_root};
use bee_arena::game_control::{get_p1_movement, get_p2_movement, P1Control, P2Control};
use bee_arena::vector::Vector;
use bevy::input::keyboard::KeyCode;
use bevy::input::Input;

fn keyboard(keys: &[KeyCode]) -> Input<KeyCode> {
    let mut input = Input::<KeyCode>::default();
    for key in keys {
        input.press(*key);
    }
    input
}

#[test]
fn p1_controls_follow_w_a_s_d() {
    let input = keyboard(&[KeyCode::W, KeyCode::D]);
    assert!(P1Control::Up.pressed(&input));
    assert!(P1Control::Right.pressed(&input));
    assert!(!P1Control::Down.pressed(&input));
    assert!(!P1Control::Left.pressed(&input));
    let input = keyboard(&[KeyCode::S, KeyCode::A]);
    assert!(P1Control::Down.pressed(&input));
    assert!(P1Control::Left.pressed(&input));
    assert!(!P1Control::Up.pressed(&input));
    assert!(!P1Control::Right.pressed(&input));
}

#[test]
fn p2_controls_follow_the_arrows() {
    let input = keyboard(&[KeyCode::Up, KeyCode::Left]);
    assert!(P2Control::Up.pressed(&input));
    assert!(P2Control::Left.pressed(&input));
    assert!(!P2Control::Down.pressed(&input));
    assert!(!P2Control::Right.pressed(&input));
    let input = keyboard(&[KeyCode::Down, KeyCode::Right]);
    assert!(P2Control::Down.pressed(&input));
    assert!(P2Control::Right.pressed(&input));
    assert!(!P2Control::Up.pressed(&input));
}

#[test]
fn controls_of_one_player_ignore_the_other_players_keys() {
    let input = keyboard(&[KeyCode::Up, KeyCode::Down, KeyCode::Left, KeyCode::Right]);
    assert!(!P1Control::Up.pressed(&input));
    assert!(!P1Control::Down.pressed(&input));
    assert!(!P1Control::Left.pressed(&input));
    assert!(!P1Control::Right.pressed(&input));
    let input = keyboard(&[KeyCode::W, KeyCode::A, KeyCode::S, KeyCode::D]);
    assert!(!P2Control::Up.pressed(&input));
    assert!(!P2Control::Right.pressed(&input));
}

#[test]
fn a_released_key_is_no_longer_pressed() {
    let mut input = keyboard(&[KeyCode::W]);
    assert!(P1Control::Up.pressed(&input));
    input.release(KeyCode::W);
    assert!(!P1Control::Up.pressed(&input));
}

#[test]
fn movement_is_one_while_pressed_and_zero_otherwise() {
    let input = keyboard(&[KeyCode::D, KeyCode::Left]);
    assert_eq!(get_p1_movement(P1Control::Right, &input), 1);
    assert_eq!(get_p1_movement(P1Control::Left, &input), 0);
    assert_eq!(get_p2_movement(P2Control::Left, &input), 1);
    assert_eq!(get_p2_movement(P2Control::Right, &input), 0);
}

#[test]
fn key_directions_have_length_one_or_zero() {
    assert_eq!(key_direction(false, false, false, false), Vector { x: 0, y: 0 });
    assert_eq!(key_direction(true, true, true, true), Vector { x: 0, y: 0 });
    assert_eq!(key_direction(true, false, false, false), Vector { x: UNIT, y: 0 });
    assert_eq!(key_direction(false, true, false, false), Vector { x: -UNIT, y: 0 });
    assert_eq!(key_direction(false, false, true, false), Vector { x: 0, y: UNIT });
    assert_eq!(key_direction(false, false, false, true), Vector { x: 0, y: -UNIT });
    assert_eq!(key_direction(true, false, true, false), Vector { x: 707_106, y: 707_106 });
    assert_eq!(key_direction(false, true, false, true), Vector { x: -DIAGONAL, y: -DIAGONAL });
    for bits in 0..16u32 {
        let v = key_direction(bits & 1 != 0, bits & 2 != 0, bits & 4 != 0, bits & 8 != 0);
        let length = ((v.x * v.x + v.y * v.y) as f64).sqrt() / UNIT as f64;
        assert!(length == 0.0 || (length - 1.0).abs() < 1e-5);
        assert!(length <= 1.0);
    }
}

#[test]
fn set_movement_actions_reads_both_players() {
    let mut actions = Actions::default();
    actions.flower_gotten = true;
    let input = keyboard(&[KeyCode::W, KeyCode::A, KeyCode::Right]);
    set_movement_actions(&mut actions, &input);
    assert_eq!(actions.p1_movement, Vector { x: -DIAGONAL, y: DIAGONAL });
    assert_eq!(actions.p2_movement, Vector { x: UNIT, y: 0 });
    assert!(actions.flower_gotten);
    set_movement_actions(&mut actions, &keyboard(&[]));
    assert_eq!(actions.p1_movement, Vector { x: 0, y: 0 });
    assert_eq!(actions.p2_movement, Vector { x: 0, y: 0 });
}

#[test]
fn gamepad_system_by_keyboard_steers_queen_and_swarm() {
    let mut actions = Actions::default();
    actions.input_device = InputDevice::Keyboard;
    let pads = vec![Sticks { left: Vector { x: 5, y: 6 }, right: Vector { x: 7, y: 8 } }];
    let input = keyboard(&[KeyCode::D, KeyCode::A, KeyCode::S, KeyCode::Up, KeyCode::Right]);
    gamepad_system(&pads, &input, &mut actions);
    assert_eq!(actions.p1_movement, Vector { x: 0, y: -UNIT });
    assert_eq!(actions.p1_bee_movement, Vector { x: DIAGONAL, y: DIAGONAL });
    assert_eq!(actions.input_device, InputDevice::Keyboard);
}

#[test]
fn gamepad_system_by_gamepad_takes_the_last_pad() {
    let mut actions = Actions::default();
    assert_eq!(actions.input_device, InputDevice::Gamepad);
    assert_eq!(InputDevice::default(), InputDevice::Gamepad);
    let input = keyboard(&[KeyCode::D]);
    gamepad_system(&Vec::new(), &input, &mut actions);
    assert_eq!(actions, Actions::default());
    let pads = vec![
        Sticks { left: Vector { x: 1, y: 2 }, right: Vector { x: 3, y: 4 } },
        Sticks { left: Vector { x: -500_000, y: 250_000 }, right: Vector { x: 0, y: -UNIT } },
    ];
    gamepad_system(&pads, &input, &mut actions);
    assert_eq!(actions.p1_movement, Vector { x: -500_000, y: 250_000 });
    assert_eq!(actions.p1_bee_movement, Vector { x: 0, y: -UNIT });
}

#[test]
fn a_stick_beyond_the_unit_circle_is_brought_into_it() {
    let inside = Vector { x: 600_000, y: -800_000 };
    assert_eq!(clamp_deflection(inside), inside);
    assert_eq!(clamp_deflection(Vector { x: 0, y: 0 }), Vector { x: 0, y: 0 });
    assert_eq!(clamp_deflection(Vector { x: UNIT, y: 0 }), Vector { x: UNIT, y: 0 });
    assert_eq!(
        clamp_deflection(Vector { x: UNIT, y: UNIT }),
        Vector { x: 707_106, y: 707_106 }
    );
    assert_eq!(
        clamp_deflection(Vector { x: -UNIT, y: 750_000 }),
        Vector { x: -799_999, y: 599_999 }
    );
    assert_eq!(
        clamp_deflection(Vector { x: i64::MAX, y: i64::MIN }),
        Vector { x: 707_106, y: -707_106 }
    );
    assert_eq!(clamp_deflection(Vector { x: 5_000_000, y: 0 }), Vector { x: UNIT, y: 0 });
    for (x, y) in [(UNIT, 1_000), (999_999, 2_000), (-654_321, 987_654), (-3_000, -UNIT), (800_000, 600_001)] {
        let out = clamp_deflection(Vector { x, y });
        let length = ((out.x * out.x + out.y * out.y) as f64).sqrt() / UNIT as f64;
        assert!(length <= 1.0 && length > 1.0 - 1e-5);
        assert!(out.x.signum() == x.signum() && out.y.signum() == y.signum());
    }
}

#[test]
fn gamepad_system_clamps_the_sticks() {
    let mut actions = Actions::default();
    let pads = vec![Sticks { left: Vector { x: UNIT, y: -UNIT }, right: Vector { x: 0, y: 2 * UNIT } }];
    gamepad_system(&pads, &keyboard(&[]), &mut actions);
    assert_eq!(actions.p1_movement, Vector { x: 707_106, y: -707_106 });
    assert_eq!(actions.p1_bee_movement, Vector { x: 0, y: UNIT });
}

#[test]
fn the_whole_root_is_the_greatest_number_whose_square_fits() {
    assert_eq!(whole_root(0), 0);
    assert_eq!(whole_root(1), 1);
    assert_eq!(whole_root(3), 1);
    assert_eq!(whole_root(4), 2);
    assert_eq!(whole_root(99), 9);
    assert_eq!(whole_root(100), 10);
    assert_eq!(whole_root(2_000_000_000_000), 1_414_213);
    assert_eq!(whole_root((1u128 << 70) - 1), (1u64 << 35) - 1);
    assert_eq!(whole_root(1u128 << 68), 1u64 << 34);
}
