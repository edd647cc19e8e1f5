use bee_arena::actions::{Actions, UNIT};
use bee_arena::bee_spawner::Actor;
use bee_arena::bees::{home_arena, Config, Game, ALL_GROUPS};
use bee_arena::body::{Body, BodyKind, BodyStore, Handle, Owner, Role, Shape, StoreError};
use bee_arena::collision::{copy_of, Contact};
use bee_arena::rules::{collect_every_flower, death_rules, flower_place, pickup_rule, Harvest};
use bee_arena::scoreboard::Score;
use bee_arena::vector::Vector;

fn game(despawn: bool) -> (Game, bee_arena::bees::Arena) {
    let mut config = Config::new();
    config.arena = Some(home_arena());
    config.base_production = Some(1000);
    config.despawn_on_worker_collision = despawn;
    match Game::new(&config) {
        Ok(made) => made,
        Err(_) => panic!("the configuration is complete"),
    }
}

fn worker(owner: Owner, x: i64, y: i64) -> Body {
    Body {
        kind: BodyKind::Dynamic,
        position: Vector { x, y },
        velocity: Vector { x: 0, y: 0 },
        shape: Shape::Circle { radius: 7_000 },
        layer: ALL_GROUPS,
        mask: ALL_GROUPS,
        role: Role::Worker,
        owner,
    }
}

#[test]
fn a_quiet_frame_changes_nothing_but_the_contacts() {
    let (mut game, arena) = game(false);
    let report = game.frame(16_667, 16_667);
    assert_eq!(report.steps.len(), 6);
    assert!(report.begun.is_empty());
    assert_eq!(report.harvest, Harvest::First(None));
    assert!(report.removed.is_empty());
    assert_eq!(report.spawned, vec![None]);
    assert_eq!(game.store.position(arena.queen), Ok(Vector { x: -350_000, y: 0 }));
    assert_eq!(game.store.velocity(arena.queen), Ok(Vector { x: 0, y: 0 }));
    assert_eq!(game.actions, Actions::default());
    assert_eq!(game.score.points, 0);
    assert_eq!(game.score.bees, 0);
}

#[test]
fn a_queen_steered_to_the_flower_collects_it_once() {
    let (mut game, arena) = game(false);
    assert!(game.store.set_position(arena.queen, Vector { x: 250_000, y: 5_000 }).is_ok());
    game.actions.p1_movement = Vector { x: UNIT, y: 0 };
    let mut now: u64 = 0;
    let mut pickups = 0;
    let mut when: u64 = 0;
    let mut workers = 0;
    let mut frames_after = 0;
    while frames_after < 10 && now < 10_000_000 {
        now += 16_667;
        let report = game.frame(16_667, now);
        if pickups > 0 {
            frames_after += 1;
        }
        if let Harvest::First(Some(index)) = report.harvest {
            pickups += 1;
            when = now;
            assert_eq!(
                report.begun[index],
                Contact { first: arena.queen, second: arena.flower }
            );
            assert!(game.actions.flower_gotten);
            game.actions.flower_gotten = false;
            game.actions.p1_movement = Vector { x: 0, y: 0 };
            assert!(game.store.set_velocity(arena.queen, Vector { x: 0, y: 0 }).is_ok());
        }
        workers += report.spawned.iter().filter(|h| h.is_some()).count();
        assert!(!game.actions.p1_queen_died);
    }
    assert_eq!(pickups, 1);
    assert_eq!(game.score.points, 1);
    assert_eq!(game.actors[0].production, 2000);
    let place = game.store.position(arena.flower).unwrap();
    assert_eq!(place, flower_place(when));
    assert!(home_arena().contains(place));
    assert_eq!(game.score.bees, workers);
    assert!(workers >= 1);
}

#[test]
fn workers_that_meet_are_removed_after_the_rules_have_run() {
    let (mut game, _) = game(true);
    let a = game.store.create(Body {
        velocity: Vector { x: 600_000, y: 0 },
        ..worker(Owner::Player1, 0, 100_000)
    });
    let b = game.store.create(worker(Owner::Player2, 20_000, 100_000));
    let report = game.frame(16_667, 16_667);
    assert_eq!(report.begun, vec![Contact { first: a, second: b }]);
    assert_eq!(report.removed, vec![a, b]);
    assert!(game.actions.worker_bee_died);
    assert!(game.doomed.is_empty());
    assert_eq!(game.store.get(a), Err(StoreError::InvalidHandle));
    assert_eq!(game.store.get(b), Err(StoreError::InvalidHandle));
    assert_eq!(game.contacts, copy_of(&report.steps[5].contacts));
}

#[test]
fn workers_that_meet_stay_when_the_game_keeps_them() {
    let (mut game, _) = game(false);
    let a = game.store.create(Body {
        velocity: Vector { x: 600_000, y: 0 },
        ..worker(Owner::Player1, 0, 100_000)
    });
    let b = game.store.create(worker(Owner::Player2, 20_000, 100_000));
    let report = game.frame(16_667, 16_667);
    assert_eq!(report.begun, vec![Contact { first: a, second: b }]);
    assert!(report.removed.is_empty());
    assert!(game.actions.worker_bee_died);
    assert!(game.store.contains(a) && game.store.contains(b));
    game.actions.worker_bee_died = false;
    let next = game.frame(16_667, 33_334);
    assert!(!next.begun.contains(&Contact { first: a, second: b }) || game.actions.worker_bee_died);
}

#[test]
fn the_death_rule_sees_every_contact_in_turn() {
    let mut store = BodyStore::new();
    let q = store.create(Body { role: Role::Queen, ..worker(Owner::Player2, 0, 0) });
    let a = store.create(worker(Owner::Player1, 0, 0));
    let b = store.create(worker(Owner::Player2, 0, 0));
    let c = store.create(worker(Owner::Player1, 0, 0));
    let mut actors = vec![
        Actor { queen: q, owner: Owner::Player2, production: 1, last_spawn: 0, alive: true },
        Actor { queen: a, owner: Owner::Player1, production: 1, last_spawn: 0, alive: true },
    ];
    let mut actions = Actions::default();
    let mut doomed: Vec<Handle> = vec![c];
    let contacts = vec![
        Contact { first: a, second: b },
        Contact { first: q, second: c },
        Contact { first: q, second: b },
        Contact { first: a, second: c },
        Contact { first: b, second: c },
    ];
    death_rules(&store, &mut actors, &mut actions, &mut doomed, &contacts, true);
    assert_eq!(
        actions,
        Actions { p2_queen_died: true, worker_bee_died: true, ..Actions::default() }
    );
    assert!(!actors[0].alive);
    assert!(actors[1].alive);
    assert_eq!(doomed, vec![c, a, b, b, c]);
    let mut kept: Vec<Handle> = Vec::new();
    let mut signals = Actions::default();
    death_rules(&store, &mut actors, &mut signals, &mut kept, &contacts, false);
    assert!(kept.is_empty());
    assert!(signals.worker_bee_died && signals.p2_queen_died && !signals.p1_queen_died);
}

fn flower(x: i64, y: i64) -> Body {
    Body {
        kind: BodyKind::Kinematic,
        role: Role::Flower,
        owner: Owner::Neutral,
        shape: Shape::Circle { radius: 20_000 },
        ..worker(Owner::Neutral, x, y)
    }
}

#[test]
fn every_pickup_counts_when_the_game_says_so() {
    let mut store = BodyStore::new();
    let q1 = store.create(Body { role: Role::Queen, ..worker(Owner::Player1, 0, 0) });
    let q2 = store.create(Body { role: Role::Queen, ..worker(Owner::Player2, 200_000, 0) });
    let f1 = store.create(flower(10_000, 0));
    let f2 = store.create(flower(210_000, 0));
    let f3 = store.create(flower(-300_000, 0));
    let w = store.create(worker(Owner::Player1, 0, 0));
    let actor = |queen: Handle, owner: Owner| Actor {
        queen,
        owner,
        production: 1000,
        last_spawn: 0,
        alive: true,
    };
    let mut actors = vec![actor(q1, Owner::Player1), actor(q2, Owner::Player2)];
    let mut score = Score { points: 5, bees: 1 };
    let mut actions = Actions::default();
    let contacts = vec![
        Contact { first: q1, second: f1 },
        Contact { first: q1, second: w },
        Contact { first: f2, second: q2 },
        Contact { first: f2, second: q1 },
        Contact { first: w, second: f3 },
    ];
    let count = collect_every_flower(
        &mut store,
        &mut actors,
        &mut score,
        &mut actions,
        &contacts,
        500,
        12_345_678,
    );
    assert_eq!(count, 3);
    assert_eq!(score, Score { points: 8, bees: 1 });
    assert_eq!(actors[0].production, 2000);
    assert_eq!(actors[1].production, 1500);
    assert!(actions.flower_gotten);
    let place = flower_place(12_345_678);
    assert_eq!(store.position(f1), Ok(place));
    assert_eq!(store.position(f2), Ok(place));
    assert_eq!(store.position(f3), Ok(Vector { x: -300_000, y: 0 }));
    assert_eq!(store.position(q1), Ok(Vector { x: 0, y: 0 }));
    let none = collect_every_flower(
        &mut store,
        &mut actors,
        &mut score,
        &mut actions,
        &vec![Contact { first: q1, second: w }],
        500,
        1,
    );
    assert_eq!(none, 0);
    assert_eq!(score.points, 8);
}

#[test]
fn the_policy_chooses_between_the_first_pickup_and_all() {
    let mut store = BodyStore::new();
    let q = store.create(Body { role: Role::Queen, ..worker(Owner::Player1, 0, 0) });
    let f1 = store.create(flower(10_000, 0));
    let f2 = store.create(flower(-10_000, 0));
    let mut actors = vec![Actor {
        queen: q,
        owner: Owner::Player1,
        production: 1000,
        last_spawn: 0,
        alive: true,
    }];
    let mut score = Score::new();
    let mut actions = Actions::default();
    let contacts = vec![Contact { first: q, second: f1 }, Contact { first: q, second: f2 }];
    let first =
        pickup_rule(&mut store, &mut actors, &mut score, &mut actions, &contacts, 1000, 0, false);
    assert_eq!(first, Harvest::First(Some(0)));
    assert_eq!(score.points, 1);
    assert_eq!(actors[0].production, 2000);
    let all =
        pickup_rule(&mut store, &mut actors, &mut score, &mut actions, &contacts, 1000, 0, true);
    assert_eq!(all, Harvest::Every(2));
    assert_eq!(score.points, 3);
    assert_eq!(actors[0].production, 4000);
}

#[test]
fn a_frame_counts_every_pickup_when_the_settings_say_so() {
    let mut config = Config::new();
    config.arena = Some(home_arena());
    config.base_production = Some(1000);
    config.collect_every_pickup = true;
    let (mut game, arena) = match Game::new(&config) {
        Ok(made) => made,
        Err(_) => panic!("the configuration is complete"),
    };
    assert!(game.store.set_position(arena.queen, Vector { x: 340_000, y: 5_000 }).is_ok());
    let second = game.store.create(flower(330_000, 5_000));
    let report = game.frame(16_667, 20_000);
    assert_eq!(report.harvest, Harvest::Every(2));
    assert_eq!(game.score.points, 2);
    assert_eq!(game.actors[0].production, 3000);
    assert_eq!(game.store.position(second), Ok(flower_place(20_000)));
    assert_eq!(game.store.position(arena.flower), Ok(flower_place(20_000)));
    let quiet = game.frame(16_667, 36_667);
    assert_eq!(quiet.harvest, Harvest::Every(0));
}
