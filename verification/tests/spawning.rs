use bee_arena::bee_spawner::{is_spawn_due, plan_workers, spawn_worker_bee, Actor};
use bee_arena::body::{Body, BodyKind, BodyStore, Handle, Owner, Role, Shape};
use bee_arena::scoreboard::Score;
use bee_arena::vector::Vector;

fn queen_body(x: i64, owner: Owner) -> Body {
    Body {
        kind: BodyKind::Dynamic,
        position: Vector { x, y: 40 },
        velocity: Vector { x: 9, y: 9 },
        shape: Shape::Circle { radius: 30_000 },
        layer: 0b0110,
        mask: 0b1011,
        role: Role::Queen,
        owner,
    }
}

fn actor(queen: Handle, owner: Owner, production: u64) -> Actor {
    Actor { queen, owner, production, last_spawn: 0, alive: true }
}

#[test]
fn a_worker_is_due_when_more_than_one_interval_has_passed() {
    assert!(!is_spawn_due(500_000, 0, 2000));
    assert!(is_spawn_due(500_001, 0, 2000));
    assert!(!is_spawn_due(1_000_000, 0, 1000));
    assert!(is_spawn_due(1_000_001, 0, 1000));
    assert!(!is_spawn_due(10_500_000, 10_000_000, 2000));
    assert!(is_spawn_due(10_500_001, 10_000_000, 2000));
    assert!(!is_spawn_due(2_000_000, 0, 500));
    assert!(is_spawn_due(2_000_001, 0, 500));
    assert!(!is_spawn_due(5, 5, u64::MAX));
    assert!(!is_spawn_due(4, 5, u64::MAX));
    assert!(is_spawn_due(u64::MAX, 0, u64::MAX));
}

#[test]
fn a_production_of_zero_counts_as_the_least() {
    assert!(!is_spawn_due(1_000_000_000, 0, 0));
    assert!(is_spawn_due(1_000_000_001, 0, 0));
    assert_eq!(is_spawn_due(999_999, 0, 0), is_spawn_due(999_999, 0, 1));
}

#[test]
fn a_queen_with_production_two_raises_two_workers_in_a_second() {
    let mut store = BodyStore::new();
    let queen = store.create(queen_body(-350_000, Owner::Player1));
    let mut actors = vec![actor(queen, Owner::Player1, 2000)];
    let mut score = Score::new();
    let start: u64 = 10_000_000;
    let mut workers = 0;
    for frame in 0..=60u64 {
        let now = start + frame * 1_000_000 / 60;
        let spawned = spawn_worker_bee(&mut store, &mut actors, &mut score, now);
        assert_eq!(spawned.len(), 1);
        if let Some(h) = spawned[0] {
            workers += 1;
            assert_eq!(store.get(h).map(|b| b.role), Ok(Role::Worker));
        }
    }
    assert_eq!(workers, 2);
    assert_eq!(score.bees, 2);
    assert_eq!(score.points, 0);
}

#[test]
fn a_worker_starts_where_its_queen_is() {
    let mut store = BodyStore::new();
    let queen = store.create(queen_body(-350_000, Owner::Player2));
    let mut actors = vec![actor(queen, Owner::Player2, 1000)];
    let mut score = Score::new();
    let spawned = spawn_worker_bee(&mut store, &mut actors, &mut score, 1_500_000);
    let h = spawned[0].unwrap();
    assert_ne!(h, queen);
    assert_eq!(
        store.get(h),
        Ok(Body {
            kind: BodyKind::Dynamic,
            position: Vector { x: -350_000, y: 40 },
            velocity: Vector { x: 0, y: 0 },
            shape: Shape::Circle { radius: 30_000 },
            layer: 0b0110,
            mask: 0b1011,
            role: Role::Worker,
            owner: Owner::Player2,
        })
    );
    assert_eq!(store.get(queen), Ok(queen_body(-350_000, Owner::Player2)));
    assert_eq!(actors[0].last_spawn, 1_500_000);
    assert_eq!(score.bees, 1);
}

#[test]
fn each_queen_keeps_her_own_time() {
    let mut store = BodyStore::new();
    let fast = store.create(queen_body(-350_000, Owner::Player1));
    let slow = store.create(queen_body(350_000, Owner::Player2));
    let mut actors = vec![actor(fast, Owner::Player1, 4000), actor(slow, Owner::Player2, 1000)];
    let mut score = Score::new();
    let mut of_fast = 0;
    let mut of_slow = 0;
    for frame in 1..=21u64 {
        let spawned = spawn_worker_bee(&mut store, &mut actors, &mut score, frame * 100_000);
        if spawned[0].is_some() {
            of_fast += 1;
        }
        if spawned[1].is_some() {
            of_slow += 1;
        }
    }
    assert_eq!(of_fast, 7);
    assert_eq!(of_slow, 1);
    assert_eq!(score.bees, 8);
    assert_eq!(actors[0].last_spawn, 2_100_000);
    assert_eq!(actors[1].last_spawn, 1_100_000);
}

#[test]
fn a_queen_that_is_gone_raises_nothing() {
    let mut store = BodyStore::new();
    let queen = store.create(queen_body(0, Owner::Player1));
    let mut actors = vec![actor(queen, Owner::Player1, 1000)];
    let mut score = Score::new();
    assert!(store.destroy(queen).is_ok());
    let plans = plan_workers(&store, &actors, 5_000_000);
    assert_eq!(plans, vec![None]);
    let spawned = spawn_worker_bee(&mut store, &mut actors, &mut score, 5_000_000);
    assert_eq!(spawned, vec![None]);
    assert_eq!(score.bees, 0);
    assert_eq!(actors[0].last_spawn, 0);
    assert_eq!(store.handle_at(0), None);
}

#[test]
fn the_worker_count_stops_at_its_largest_value() {
    let mut store = BodyStore::new();
    let queen = store.create(queen_body(0, Owner::Player1));
    let mut actors = vec![actor(queen, Owner::Player1, 1000)];
    let mut score = Score { points: 3, bees: usize::MAX };
    let spawned = spawn_worker_bee(&mut store, &mut actors, &mut score, 5_000_000);
    assert!(spawned[0].is_some());
    assert_eq!(score, Score { points: 3, bees: usize::MAX });
}
