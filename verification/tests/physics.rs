use bee_arena::actions::{Actions, UNIT};
use bee_arena::bees::{home_arena, setup, Config, Settings, ALL_GROUPS};
use bee_arena::body::{Body, BodyKind, BodyStore, Owner, Role, Shape};
use bee_arena::collision::{overlap, Contact};
use bee_arena::integrator::{
    advance_positions, apply_gravity, begun_in, drift, part, resolve, resolve_all, simulate,
    substep,
};
use bee_arena::vector::Vector;

fn settings() -> Settings {
    let mut config = Config::new();
    config.arena = Some(home_arena());
    config.base_production = Some(1000);
    config.check().unwrap()
}

fn ball(kind: BodyKind, x: i64, y: i64, radius: u32) -> Body {
    Body {
        kind,
        position: Vector { x, y },
        velocity: Vector { x: 0, y: 0 },
        shape: Shape::Circle { radius },
        layer: ALL_GROUPS,
        mask: ALL_GROUPS,
        role: Role::Worker,
        owner: Owner::Player1,
    }
}

fn slab(x: i64, y: i64, half_width: u32, half_height: u32) -> Body {
    Body {
        kind: BodyKind::Static,
        shape: Shape::Rectangle { half_width, half_height },
        role: Role::Wall,
        owner: Owner::Neutral,
        ..ball(BodyKind::Static, x, y, 0)
    }
}

#[test]
fn drift_adds_rate_times_time_rounded_toward_zero() {
    let v = drift(Vector { x: 10, y: 10 }, Vector { x: 3_000, y: -3_000 }, 500_000);
    assert_eq!(v, Vector { x: 1_510, y: -1_490 });
    let v = drift(Vector { x: 0, y: 0 }, Vector { x: 1, y: -1 }, 999_999);
    assert_eq!(v, Vector { x: 0, y: 0 });
    let v = drift(Vector { x: 0, y: 0 }, Vector { x: 1_500_000, y: -1_500_000 }, 1);
    assert_eq!(v, Vector { x: 1, y: -1 });
    let v = drift(Vector { x: i64::MAX, y: i64::MIN }, Vector { x: 5, y: -5 }, 1_000_000);
    assert_eq!(v, Vector { x: i64::MAX, y: i64::MIN });
}

#[test]
fn gravity_pulls_dynamic_bodies_only() {
    let mut store = BodyStore::new();
    let dynamic = store.create(ball(BodyKind::Dynamic, 0, 0, 5));
    let kinematic = store.create(ball(BodyKind::Kinematic, 0, 0, 5));
    let fixed = store.create(ball(BodyKind::Static, 0, 0, 5));
    apply_gravity(&mut store, Vector { x: 0, y: -9_810 }, 100_000);
    assert_eq!(store.velocity(dynamic), Ok(Vector { x: 0, y: -981 }));
    assert_eq!(store.velocity(kinematic), Ok(Vector { x: 0, y: 0 }));
    assert_eq!(store.velocity(fixed), Ok(Vector { x: 0, y: 0 }));
}

#[test]
fn bodies_move_at_their_velocity_but_static_ones_stay() {
    let mut store = BodyStore::new();
    let moving = Body { velocity: Vector { x: 2_000, y: -4_000 }, ..ball(BodyKind::Dynamic, 1, 1, 5) };
    let dynamic = store.create(moving);
    let kinematic = store.create(Body { kind: BodyKind::Kinematic, ..moving });
    let fixed = store.create(Body { kind: BodyKind::Static, ..moving });
    advance_positions(&mut store, 250_000);
    assert_eq!(store.position(dynamic), Ok(Vector { x: 501, y: -999 }));
    assert_eq!(store.position(kinematic), Ok(Vector { x: 501, y: -999 }));
    assert_eq!(store.position(fixed), Ok(Vector { x: 1, y: 1 }));
    assert_eq!(store.velocity(dynamic), Ok(Vector { x: 2_000, y: -4_000 }));
}

#[test]
fn a_dynamic_body_gives_way_to_a_static_one() {
    let a = ball(BodyKind::Dynamic, 90, 3, 20);
    let b = slab(120, 0, 15, 200);
    assert_eq!(part(a, b), (Vector { x: -5, y: 0 }, Vector { x: 0, y: 0 }));
    assert_eq!(part(b, a), (Vector { x: 0, y: 0 }, Vector { x: -5, y: 0 }));
    let below = ball(BodyKind::Dynamic, 0, -30, 20);
    let floor = slab(0, -60, 500, 15);
    assert_eq!(part(below, floor), (Vector { x: 0, y: 5 }, Vector { x: 0, y: 0 }));
}

#[test]
fn two_dynamic_bodies_share_the_way() {
    let a = ball(BodyKind::Dynamic, 0, 0, 10);
    let b = ball(BodyKind::Dynamic, 13, 2, 10);
    assert_eq!(part(a, b), (Vector { x: -3, y: 0 }, Vector { x: 4, y: 1 }));
    assert_eq!(part(b, a), (Vector { x: 3, y: 0 }, Vector { x: -4, y: -1 }));
    let c = ball(BodyKind::Dynamic, 1, -16, 10);
    assert_eq!(part(a, c), (Vector { x: 0, y: 2 }, Vector { x: 0, y: -2 }));
    assert_eq!(part(a, a), (Vector { x: 10, y: 0 }, Vector { x: -10, y: 0 }));
    let far = ball(BodyKind::Dynamic, 30_000, 40_000, 30_000);
    let near = ball(BodyKind::Static, 0, 0, 30_000);
    assert_eq!(part(far, near), (Vector { x: 6_000, y: 8_000 }, Vector { x: 0, y: 0 }));
    assert_eq!(part(near, far), (Vector { x: 0, y: 0 }, Vector { x: 6_000, y: 8_000 }));
}

#[test]
fn other_pairs_and_bodies_apart_are_not_parted() {
    let zero = (Vector { x: 0, y: 0 }, Vector { x: 0, y: 0 });
    let a = ball(BodyKind::Dynamic, 0, 0, 10);
    assert_eq!(part(a, ball(BodyKind::Kinematic, 5, 0, 10)), zero);
    assert_eq!(part(ball(BodyKind::Kinematic, 5, 0, 10), a), zero);
    assert_eq!(part(slab(0, 0, 5, 5), slab(1, 1, 5, 5)), zero);
    assert_eq!(part(a, ball(BodyKind::Dynamic, 20, 0, 10)), zero);
    assert_eq!(part(a, ball(BodyKind::Dynamic, 0, 25, 10)), zero);
}

#[test]
fn parted_bodies_no_longer_reach_into_each_other() {
    let mut store = BodyStore::new();
    let a = store.create(ball(BodyKind::Dynamic, 0, 0, 10));
    let b = store.create(ball(BodyKind::Dynamic, 13, 2, 10));
    let w = store.create(slab(-20, 0, 15, 100));
    resolve(&mut store, Contact { first: a, second: b });
    assert_eq!(store.position(a), Ok(Vector { x: -3, y: 0 }));
    assert_eq!(store.position(b), Ok(Vector { x: 17, y: 3 }));
    assert!(!overlap(store.get(a).unwrap(), store.get(b).unwrap()));
    resolve_all(&mut store, &vec![Contact { first: a, second: w }, Contact { first: a, second: b }]);
    assert_eq!(store.position(a), Ok(Vector { x: 1, y: -1 }));
    assert_eq!(store.position(b), Ok(Vector { x: 21, y: 4 }));
    assert_eq!(store.position(w), Ok(Vector { x: -20, y: 0 }));
    resolve(&mut store, Contact { first: a, second: a });
    assert_eq!(store.position(a), Ok(Vector { x: 1, y: -1 }));
}

#[test]
fn a_substep_pulls_steers_moves_and_parts() {
    let mut store = BodyStore::new();
    let queen = store.create(Body {
        role: Role::Queen,
        velocity: Vector { x: 1_000_000, y: 0 },
        ..ball(BodyKind::Dynamic, 0, 0, 30_000)
    });
    let wall = store.create(slab(60_000, 0, 25_000, 300_000));
    let mut actions = Actions::default();
    actions.p1_movement = Vector { x: UNIT, y: 0 };
    let mut tuned = settings();
    tuned.gravity = Vector { x: 0, y: -10_000 };
    let contacts = substep(&mut store, &actions, &tuned, 10_000);
    assert_eq!(contacts, vec![Contact { first: queen, second: wall }]);
    assert_eq!(store.velocity(queen), Ok(Vector { x: 1_007_000, y: -100 }));
    assert_eq!(store.position(queen), Ok(Vector { x: 5_000, y: -1 }));
    assert_eq!(store.position(wall), Ok(Vector { x: 60_000, y: 0 }));
}

#[test]
fn a_frame_is_simulated_in_equal_substeps() {
    let mut store = BodyStore::new();
    let free = store.create(Body {
        velocity: Vector { x: 6_000_000, y: 0 },
        ..ball(BodyKind::Dynamic, 0, 0, 1_000)
    });
    let tuned = settings();
    assert_eq!(tuned.substeps, 6);
    let steps = simulate(&mut store, &Vec::new(), &Actions::default(), &tuned, 16_667);
    assert_eq!(steps.len(), 6);
    assert_eq!(store.position(free), Ok(Vector { x: 6 * 16_662, y: 0 }));
    assert!(begun_in(&steps).is_empty());
    let mut four = tuned;
    four.substeps = 4;
    let steps = simulate(&mut store, &Vec::new(), &Actions::default(), &four, 3);
    assert_eq!(steps.len(), 4);
    assert_eq!(store.position(free), Ok(Vector { x: 6 * 16_662, y: 0 }));
}

#[test]
fn a_contact_begins_in_the_substep_in_which_the_bodies_meet() {
    let mut store = BodyStore::new();
    let a = store.create(Body {
        velocity: Vector { x: 1_000_000, y: 0 },
        ..ball(BodyKind::Dynamic, 0, 0, 1_000)
    });
    let b = store.create(ball(BodyKind::Kinematic, 5_500, 0, 1_000));
    let steps = simulate(&mut store, &Vec::new(), &Actions::default(), &settings(), 6_000);
    let pair = Contact { first: a, second: b };
    assert!(steps[0].contacts.is_empty());
    assert!(steps[2].started.is_empty());
    assert_eq!(steps[2].contacts, Vec::new());
    assert_eq!(steps[3].started, vec![pair]);
    assert!(steps[4].started.is_empty());
    assert_eq!(steps[5].contacts, vec![pair]);
    assert!(steps[5].started.is_empty());
    assert_eq!(begun_in(&steps), vec![pair]);
    let next = simulate(&mut store, &steps[5].contacts, &Actions::default(), &settings(), 6_000);
    assert!(next[0].started.is_empty());
    assert_eq!(next[1].ended, vec![pair]);
    assert!(begun_in(&next).is_empty());
}

#[test]
fn a_body_driven_at_a_wall_stays_inside_the_arena() {
    let tuned = settings();
    let mut store = BodyStore::new();
    let mut actors = Vec::new();
    let arena = setup(&mut store, &mut actors, &tuned);
    assert!(store.set_velocity(arena.queen, Vector { x: 5_000_000, y: 1_000_000 }).is_ok());
    let mut actions = Actions::default();
    actions.p1_movement = Vector { x: UNIT, y: 0 };
    let mut previous: Vec<Contact> = Vec::new();
    let mut touched_the_wall = false;
    for _ in 0..60 {
        let mut steps = simulate(&mut store, &previous, &actions, &tuned, 16_667);
        let place = store.position(arena.queen).unwrap();
        assert!(tuned.arena.contains(place));
        assert!(place.x + 30_000 <= tuned.arena.max.x);
        assert!(place.y + 30_000 <= tuned.arena.max.y);
        let begun = begun_in(&steps);
        if begun.contains(&Contact { first: arena.queen, second: arena.right_wall }) {
            touched_the_wall = true;
        }
        previous = steps.pop().unwrap().contacts;
    }
    assert!(touched_the_wall);
    let place = store.position(arena.queen).unwrap();
    assert_eq!(place.x, tuned.arena.max.x - 30_000);
}
