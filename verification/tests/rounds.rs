use bee_arena::actions::{
    gamepad_events, route, settle, Actions, AxisEvent, AxisKind, Connection, ConnectionEvent,
    GamepadSlots, InputDevice,
};
use bee_arena::audio::{play_flower_sound, Playback, SoundCommand};
use bee_arena::bee_spawner::Actor;
use bee_arena::bees::{
    home_arena, setup, Bounds, Config, ConfigError, Game, ALL_GROUPS, FLOWER_RADIUS, QUEEN_RADIUS,
};
use bee_arena::body::{Body, BodyKind, BodyStore, Owner, Role, Shape};
use bee_arena::collision::Contact;
use bee_arena::menu::{click_play_button, Interaction, MenuButton, MenuCommand};
use bee_arena::scoreboard::Score;
use bee_arena::vector::Vector;

fn complete() -> Config {
    let mut config = Config::new();
    config.arena = Some(home_arena());
    config.base_production = Some(1000);
    config
}

#[test]
fn a_round_does_not_start_without_arena_or_production() {
    let config = Config::new();
    assert_eq!(config.substeps, 6);
    assert_eq!(config.gravity, Vector::zero());
    assert_eq!(config.production_increment, 1000);
    assert!(!config.despawn_on_worker_collision);
    assert!(!config.collect_every_pickup);
    assert_eq!(config.check(), Err(ConfigError::MissingArena));
    assert!(matches!(Game::new(&config), Err(ConfigError::MissingArena)));
    let mut config = Config::new();
    config.arena = Some(home_arena());
    assert_eq!(config.check(), Err(ConfigError::MissingProduction));
    config.base_production = Some(0);
    assert_eq!(config.check(), Err(ConfigError::NoProduction));
    config.base_production = Some(1);
    assert!(config.check().is_ok());
    config.substeps = 0;
    assert_eq!(config.check(), Err(ConfigError::NoSubsteps));
    assert!(matches!(Game::new(&config), Err(ConfigError::NoSubsteps)));
}

#[test]
fn an_arena_without_an_inside_is_refused() {
    let mut config = complete();
    let flat = Bounds { min: Vector { x: 0, y: 0 }, max: Vector { x: 10, y: 0 } };
    config.arena = Some(flat);
    assert_eq!(config.check(), Err(ConfigError::BadArena));
    let huge = Bounds { min: Vector { x: 0, y: 0 }, max: Vector { x: 1_000_000_001, y: 10 } };
    config.arena = Some(huge);
    assert_eq!(config.check(), Err(ConfigError::BadArena));
    let widest = Bounds {
        min: Vector { x: -1_000_000_000, y: -1_000_000_000 },
        max: Vector { x: 1_000_000_000, y: 1_000_000_000 },
    };
    config.arena = Some(widest);
    assert_eq!(config.check().map(|s| s.arena), Ok(widest));
    config.base_production = None;
    config.arena = Some(flat);
    assert_eq!(config.check(), Err(ConfigError::BadArena));
}

#[test]
fn the_settings_are_the_configuration() {
    let mut config = complete();
    config.queen_scale = 650;
    config.worker_scale = 500;
    config.despawn_on_worker_collision = true;
    config.gravity = Vector { x: 0, y: -5 };
    let settings = config.check().unwrap();
    assert_eq!(settings.arena, home_arena());
    assert_eq!(settings.base_production, 1000);
    assert_eq!(settings.production_increment, 1000);
    assert_eq!(settings.substeps, 6);
    assert_eq!(settings.gravity, Vector { x: 0, y: -5 });
    assert_eq!(settings.queen_scale, 650);
    assert_eq!(settings.worker_scale, 500);
    assert!(settings.despawn_on_worker_collision);
    assert!(settings.is_valid());
    let mut broken = settings;
    broken.substeps = 0;
    assert!(!broken.is_valid());
    broken = settings;
    broken.base_production = 0;
    assert!(!broken.is_valid());
    broken = settings;
    broken.arena.max.x = broken.arena.min.x;
    assert!(!broken.is_valid());
}

#[test]
fn a_round_begins_with_queen_flower_and_four_walls() {
    let (game, arena) = match Game::new(&complete()) {
        Ok(made) => made,
        Err(_) => panic!("the configuration is complete"),
    };
    assert_eq!(game.store.slots(), 6);
    assert_eq!(
        game.store.get(arena.queen),
        Ok(Body {
            kind: BodyKind::Dynamic,
            position: Vector { x: -350_000, y: 0 },
            velocity: Vector { x: 0, y: 0 },
            shape: Shape::Circle { radius: QUEEN_RADIUS },
            layer: ALL_GROUPS,
            mask: ALL_GROUPS,
            role: Role::Queen,
            owner: Owner::Player1,
        })
    );
    let flower = game.store.get(arena.flower).unwrap();
    assert_eq!(flower.kind, BodyKind::Kinematic);
    assert_eq!(flower.position, Vector { x: 350_000, y: 5_000 });
    assert_eq!(flower.shape, Shape::Circle { radius: FLOWER_RADIUS });
    assert_eq!(flower.role, Role::Flower);
    let ceiling = game.store.get(arena.ceiling).unwrap();
    assert_eq!(ceiling.kind, BodyKind::Static);
    assert_eq!(ceiling.role, Role::Wall);
    assert_eq!(ceiling.position, Vector { x: 0, y: 300_000 });
    assert_eq!(ceiling.shape, Shape::Rectangle { half_width: 443_001, half_height: 25_000 });
    let floor = game.store.get(arena.floor).unwrap();
    assert_eq!(floor.position, Vector { x: 0, y: -318_000 });
    let left = game.store.get(arena.left_wall).unwrap();
    assert_eq!(left.position, Vector { x: -418_000, y: -9_000 });
    assert_eq!(left.shape, Shape::Rectangle { half_width: 25_000, half_height: 334_001 });
    let right = game.store.get(arena.right_wall).unwrap();
    assert_eq!(right.position, Vector { x: 418_000, y: -9_000 });
    assert_eq!(
        game.actors,
        vec![Actor {
            queen: arena.queen,
            owner: Owner::Player1,
            production: 1000,
            last_spawn: 0,
            alive: true,
        }]
    );
    assert_eq!(game.score, Score { points: 0, bees: 0 });
    assert_eq!(game.actions, Actions::default());
    assert!(game.contacts.is_empty() && game.doomed.is_empty());
}

#[test]
fn setup_leaves_earlier_bodies_alone() {
    let settings = complete().check().unwrap();
    let mut store = BodyStore::new();
    let body = Body {
        kind: BodyKind::Dynamic,
        position: Vector { x: 1, y: 2 },
        velocity: Vector { x: 3, y: 4 },
        shape: Shape::Circle { radius: 5 },
        layer: 1,
        mask: 1,
        role: Role::Worker,
        owner: Owner::Player2,
    };
    let earlier = store.create(body);
    let mut actors = Vec::new();
    let arena = setup(&mut store, &mut actors, &settings);
    assert_eq!(store.get(earlier), Ok(body));
    assert_eq!(store.slots(), 7);
    assert_ne!(arena.queen, earlier);
    assert_eq!(actors.len(), 1);
}

#[test]
fn a_reset_starts_the_round_over() {
    let (mut game, arena) = match Game::new(&complete()) {
        Ok(made) => made,
        Err(_) => panic!("the configuration is complete"),
    };
    game.score = Score { points: 7, bees: 12 };
    game.actors[0].production = 5000;
    game.actors[0].last_spawn = 900;
    game.actors[0].alive = false;
    game.actions.p1_queen_died = true;
    game.actions.flower_gotten = true;
    game.actions.worker_bee_died = true;
    game.actions.p1_movement = Vector { x: 1, y: 1 };
    game.actions.input_device = InputDevice::Keyboard;
    game.contacts.push(Contact { first: arena.queen, second: arena.flower });
    game.doomed.push(arena.queen);
    game.reset();
    assert_eq!(game.score, Score { points: 0, bees: 0 });
    assert_eq!(game.actors[0].production, 1000);
    assert_eq!(game.actors[0].last_spawn, 0);
    assert!(game.actors[0].alive);
    assert_eq!(game.actors[0].queen, arena.queen);
    assert_eq!(
        game.actions,
        Actions { input_device: InputDevice::Keyboard, ..Actions::default() }
    );
    assert!(game.contacts.is_empty() && game.doomed.is_empty());
    assert!(game.store.contains(arena.queen));
}

#[test]
fn the_score_counts_and_resets() {
    let mut score = Score::default();
    assert_eq!(score, Score::new());
    score.add_point();
    score.add_point();
    score.add_bee();
    assert_eq!(score, Score { points: 2, bees: 1 });
    score.reset();
    assert_eq!(score, Score { points: 0, bees: 0 });
    let mut full = Score { points: u64::MAX, bees: usize::MAX };
    full.add_point();
    full.add_bee();
    assert_eq!(full, Score { points: u64::MAX, bees: usize::MAX });
}

#[test]
fn the_flower_sound_is_heard_once_for_each_pickup() {
    let mut actions = Actions::default();
    for state in [
        Playback::Queued,
        Playback::Playing,
        Playback::Pausing,
        Playback::Stopping,
        Playback::Stopped,
    ] {
        assert_eq!(play_flower_sound(&mut actions, state), SoundCommand::Nothing);
        assert_eq!(actions, Actions::default());
    }
    assert_eq!(play_flower_sound(&mut actions, Playback::Paused), SoundCommand::Resume);
    actions.flower_gotten = true;
    assert_eq!(play_flower_sound(&mut actions, Playback::Paused), SoundCommand::Resume);
    assert!(actions.flower_gotten);
    assert_eq!(play_flower_sound(&mut actions, Playback::Pausing), SoundCommand::Nothing);
    assert_eq!(play_flower_sound(&mut actions, Playback::Queued), SoundCommand::Nothing);
    assert!(actions.flower_gotten);
    assert_eq!(play_flower_sound(&mut actions, Playback::Stopped), SoundCommand::PlayAgain);
    assert!(!actions.flower_gotten);
    actions.flower_gotten = true;
    assert_eq!(play_flower_sound(&mut actions, Playback::Stopping), SoundCommand::Rewind);
    assert_eq!(actions, Actions::default());
}

#[test]
fn a_pressed_button_leads_on_or_opens_its_link() {
    let play = MenuButton {
        changes_state: true,
        changes_input: Some(InputDevice::Keyboard),
        opens_link: false,
    };
    let link = MenuButton { changes_state: false, changes_input: None, opens_link: true };
    let plain = MenuButton { changes_state: false, changes_input: None, opens_link: false };
    let odd = MenuButton {
        changes_state: false,
        changes_input: Some(InputDevice::Keyboard),
        opens_link: true,
    };
    let mut actions = Actions::default();
    assert_eq!(click_play_button(&mut actions, Interaction::Hovered, play), MenuCommand::ShowHovered);
    assert_eq!(click_play_button(&mut actions, Interaction::Idle, play), MenuCommand::ShowNormal);
    assert_eq!(click_play_button(&mut actions, Interaction::Pressed, link), MenuCommand::OpenLink);
    assert_eq!(click_play_button(&mut actions, Interaction::Pressed, odd), MenuCommand::OpenLink);
    assert_eq!(click_play_button(&mut actions, Interaction::Pressed, plain), MenuCommand::Nothing);
    assert_eq!(actions, Actions::default());
    assert_eq!(click_play_button(&mut actions, Interaction::Pressed, play), MenuCommand::ChangeState);
    assert_eq!(actions, Actions { input_device: InputDevice::Keyboard, ..Actions::default() });
    let keep = MenuButton { changes_state: true, changes_input: None, opens_link: true };
    assert_eq!(click_play_button(&mut actions, Interaction::Pressed, keep), MenuCommand::ChangeState);
    assert_eq!(actions.input_device, InputDevice::Keyboard);
}

#[test]
fn gamepads_take_the_free_slots_in_turn() {
    let empty = GamepadSlots { first_player: None, second_player: None };
    let came = |gamepad: usize| ConnectionEvent { gamepad, connection: Connection::Connected };
    let went = |gamepad: usize| ConnectionEvent { gamepad, connection: Connection::Disconnected };
    assert_eq!(settle(empty, empty, came(3)), GamepadSlots { first_player: Some(3), second_player: None });
    let one = GamepadSlots { first_player: Some(3), second_player: None };
    assert_eq!(settle(one, one, came(4)), GamepadSlots { first_player: Some(3), second_player: Some(4) });
    let two = GamepadSlots { first_player: Some(3), second_player: Some(4) };
    assert_eq!(settle(two, two, came(5)), two);
    assert_eq!(settle(two, two, went(3)), GamepadSlots { first_player: None, second_player: Some(4) });
    assert_eq!(settle(two, two, went(4)), GamepadSlots { first_player: Some(3), second_player: None });
    assert_eq!(settle(two, two, went(9)), two);
    let same = GamepadSlots { first_player: Some(3), second_player: Some(3) };
    assert_eq!(settle(same, same, went(3)), empty);
}

#[test]
fn the_events_of_a_frame_are_judged_by_the_slots_at_its_start() {
    let came = |gamepad: usize| ConnectionEvent { gamepad, connection: Connection::Connected };
    let went = |gamepad: usize| ConnectionEvent { gamepad, connection: Connection::Disconnected };
    let mut slots = GamepadSlots { first_player: None, second_player: None };
    let mut actions = Actions::default();
    let axis = AxisEvent { gamepad: 1, axis: AxisKind::LeftStickX, value: 500_000 };
    gamepad_events(&mut slots, &vec![came(1), came(2), went(2)], &vec![axis], &mut actions);
    assert_eq!(slots, GamepadSlots { first_player: Some(2), second_player: None });
    assert_eq!(actions, Actions::default());
    let axes = vec![
        AxisEvent { gamepad: 2, axis: AxisKind::LeftStickY, value: -250_000 },
        AxisEvent { gamepad: 2, axis: AxisKind::LeftStickX, value: 900_000 },
        AxisEvent { gamepad: 7, axis: AxisKind::RightStickX, value: 1 },
        AxisEvent { gamepad: 2, axis: AxisKind::RightZ, value: 2 },
        AxisEvent { gamepad: 2, axis: AxisKind::RightStickX, value: 0 },
        AxisEvent { gamepad: 2, axis: AxisKind::RightStickY, value: 300_000 },
    ];
    gamepad_events(&mut slots, &vec![went(2), came(8)], &axes, &mut actions);
    assert_eq!(slots, GamepadSlots { first_player: None, second_player: Some(8) });
    assert_eq!(actions.p1_movement, Vector { x: 0, y: -250_000 });
    assert_eq!(actions.p1_bee_movement, Vector { x: 0, y: 300_000 });
}

#[test]
fn only_the_first_players_gamepad_is_heard() {
    let actions = Actions::default();
    let event = AxisEvent { gamepad: 4, axis: AxisKind::RightStickX, value: -700_000 };
    assert_eq!(route(None, actions, event), actions);
    assert_eq!(route(Some(5), actions, event), actions);
    let heard = route(Some(4), actions, event);
    assert_eq!(heard, Actions { p1_bee_movement: Vector { x: -700_000, y: 0 }, ..actions });
    let other = AxisEvent { gamepad: 4, axis: AxisKind::Other, value: 5 };
    assert_eq!(route(Some(4), heard, other), heard);
    let z = AxisEvent { gamepad: 4, axis: AxisKind::LeftZ, value: 5 };
    assert_eq!(route(Some(4), heard, z), heard);
}
