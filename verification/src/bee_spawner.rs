//! Raising workers: each queen brings forth a worker whenever her own
//! interval has passed.

use crate::body::{
    lemma_precedes_is_transitive, Body, BodyKind, BodyStore, Handle, Owner, Role,
};
use crate::scoreboard::Score;
use crate::vector::Vector;
use vstd::prelude::*;

verus! {

/// A production of one worker per second, in the thousandths in which
/// productions are counted.
pub const ONE_PER_SECOND: u64 = 1000;

/// The least production a queen is held to have: a rate of zero counts as
/// this.
pub const LEAST_PRODUCTION: u64 = 1;

/// A player's queen and what the game keeps about her.
#[derive(Clone, Copy, Debug, PartialEq, Eq, Structural)]
pub struct Actor {
    /// The queen's body.
    pub queen: Handle,
    pub owner: Owner,
    /// Workers per second, in thousandths.
    pub production: u64,
    /// When this queen last brought forth a worker, in microseconds.
    pub last_spawn: u64,
    pub alive: bool,
}

/// The production that the spawner reckons with: never less than the least.
pub open spec fn effective_production(production: u64) -> int {
    if production < LEAST_PRODUCTION {
        LEAST_PRODUCTION as int
    } else {
        production as int
    }
}

/// Whether more than one interval has passed since `last`: the time since
/// then, in seconds, exceeds one over the production per second.
pub open spec fn spawn_due(now: u64, last: u64, production: u64) -> bool {
    (now - last) * effective_production(production) > 1_000_000_000
}

/// Whether the actor's queen is to bring forth a worker at `now`.
pub open spec fn actor_due(store: &BodyStore, actor: Actor, now: u64) -> bool {
    store.live(actor.queen) && spawn_due(now, actor.last_spawn, actor.production)
}

/// The worker that a queen brings forth: a dynamic body at rest where she
/// is, of her shape and collision groups, owned by her player.
pub open spec fn worker_of(queen: Body, owner: Owner) -> Body {
    Body {
        kind: BodyKind::Dynamic,
        position: queen.position,
        velocity: Vector { x: 0, y: 0 },
        shape: queen.shape,
        layer: queen.layer,
        mask: queen.mask,
        role: Role::Worker,
        owner,
    }
}

/// The number of handles in a list of spawner answers.
pub open spec fn count_spawned(spawned: Seq<Option<Handle>>) -> nat
    decreases spawned.len(),
{
    if spawned.len() == 0 {
        0
    } else {
        count_spawned(spawned.drop_last()) + if spawned.last() is Some {
            1nat
        } else {
            0nat
        }
    }
}

/// `bees` more workers on a counter that stops at its largest value.
pub open spec fn bees_after(bees: usize, more: nat) -> int {
    if bees + more > usize::MAX {
        usize::MAX as int
    } else {
        bees + more
    }
}

/// Decides whether a queen with this production is due at `now`.
pub fn is_spawn_due(now: u64, last: u64, production: u64) -> (due: bool)
    ensures
        due == spawn_due(now, last, production),
{
    if now <= last {
        assert((now - last) * effective_production(production) <= 0) by (nonlinear_arith)
            requires
                now - last <= 0,
                effective_production(production) >= 1,
        ;
        return false;
    }
    let rate: u64 = if production < LEAST_PRODUCTION {
        LEAST_PRODUCTION
    } else {
        production
    };
    let waited: u64 = now - last;
    assert(0 <= waited * rate <= 0xffff_ffff_ffff_ffff * 0xffff_ffff_ffff_ffff)
        by (nonlinear_arith)
        requires
            0 <= waited <= 0xffff_ffff_ffff_ffff,
            0 <= rate <= 0xffff_ffff_ffff_ffff,
    ;
    (waited as u128) * (rate as u128) > 1_000_000_000u128
}

/// The worker that each actor is to bring forth at `now`, or nothing: one
/// entry per actor, decided before any worker is created.
pub open spec fn planned(store: &BodyStore, actors: Seq<Actor>, now: u64) -> Seq<Option<Body>> {
    Seq::new(
        actors.len(),
        |i: int|
            if actor_due(store, actors[i], now) {
                Some(worker_of(store.body(actors[i].queen), actors[i].owner))
            } else {
                None
            },
    )
}

/// Decides for every actor whether she is due, and with which worker.
pub fn plan_workers(store: &BodyStore, actors: &Vec<Actor>, now: u64) -> (plans: Vec<Option<Body>>)
    ensures
        plans@ == planned(store, actors@, now),
{
    let mut plans: Vec<Option<Body>> = Vec::new();
    let mut i: usize = 0;
    while i < actors.len()
        invariant
            i <= actors@.len(),
            plans@.len() == i,
            forall|k: int| 0 <= k < i ==> plans@[k] == planned(store, actors@, now)[k],
        decreases actors@.len() - i,
    {
        let actor: Actor = actors[i];
        let mut plan: Option<Body> = None;
        if let Ok(queen) = store.get(actor.queen) {
            if is_spawn_due(now, actor.last_spawn, actor.production) {
                plan = Some(
                    Body {
                        kind: BodyKind::Dynamic,
                        position: queen.position,
                        velocity: Vector { x: 0, y: 0 },
                        shape: queen.shape,
                        layer: queen.layer,
                        mask: queen.mask,
                        role: Role::Worker,
                        owner: actor.owner,
                    },
                );
            }
        }
        plans.push(plan);
        i += 1;
    }
    assert(plans@ =~= planned(store, actors@, now));
    plans
}

/// Whether a run of the spawner at `now` leads from the state before to
/// the state after with `spawned` as its answer: one entry per actor, a
/// handle exactly for the actors that were due; each due actor has her
/// interval started anew and a new worker where her queen is; the worker
/// count has gone up by their number; every earlier body is as it was.
pub open spec fn is_spawn_step(
    before: &BodyStore,
    after: &BodyStore,
    actors0: Seq<Actor>,
    actors1: Seq<Actor>,
    score0: Score,
    score1: Score,
    now: u64,
    spawned: Seq<Option<Handle>>,
) -> bool {
    &&& spawned.len() == actors0.len()
    &&& actors1.len() == actors0.len()
    &&& forall|i: int|
        0 <= i < spawned.len() ==> (#[trigger] spawned[i] is Some <==> actor_due(
            before,
            actors0[i],
            now,
        ))
    &&& forall|i: int|
        0 <= i < spawned.len() ==> #[trigger] actors1[i] == if spawned[i] is Some {
            Actor { last_spawn: now, ..actors0[i] }
        } else {
            actors0[i]
        }
    &&& forall|i: int|
        0 <= i < spawned.len() && spawned[i] is Some ==> {
            let h = #[trigger] spawned[i]->Some_0;
            &&& !before.issued(h)
            &&& after.live(h)
            &&& after.body(h) == worker_of(
                before.body(actors0[i].queen),
                actors0[i].owner,
            )
        }
    &&& forall|i: int, j: int|
        0 <= i < j < spawned.len() && spawned[i] is Some && spawned[j] is Some
            ==> spawned[i] != spawned[j]
    &&& forall|g: Handle|
        before.live(g) ==> #[trigger] after.live(g) && after.body(g) == before.body(g)
    &&& forall|g: Handle| #[trigger]
        after.live(g) && !before.live(g) ==> spawned.contains(Some(g))
    &&& before.precedes(after)
    &&& score1.points == score0.points
    &&& score1.bees == bees_after(score0.bees, count_spawned(spawned))
}

/// Runs the spawner once, at `now`. For each actor: if her queen is in the
/// store and her interval has passed, a worker is created where the queen
/// is, the worker count goes up by one, and her interval starts anew. Who is
/// due is decided for all actors before the first worker is created. The
/// answer has one entry per actor: the new worker's handle, or nothing.
pub fn spawn_worker_bee(
    store: &mut BodyStore,
    actors: &mut Vec<Actor>,
    score: &mut Score,
    now: u64,
) -> (spawned: Vec<Option<Handle>>)
    ensures
        is_spawn_step(
            old(store),
            final(store),
            old(actors)@,
            final(actors)@,
            *old(score),
            *final(score),
            now,
            spawned@,
        ),
{
    let plans = plan_workers(store, actors, now);
    let mut spawned: Vec<Option<Handle>> = Vec::new();
    let n: usize = actors.len();
    let mut i: usize = 0;
    while i < n
        invariant
            i <= n,
            n == actors@.len(),
            actors@.len() == old(actors)@.len(),
            plans@ == planned(old(store), old(actors)@, now),
            spawned@.len() == i,
            forall|k: int| i <= k < n ==> actors@[k] == old(actors)@[k],
            forall|k: int| 0 <= k < i ==> (#[trigger] spawned@[k] is Some <==> plans@[k] is Some),
            forall|k: int|
                0 <= k < i ==> #[trigger] actors@[k] == if spawned@[k] is Some {
                    Actor { last_spawn: now, ..old(actors)@[k] }
                } else {
                    old(actors)@[k]
                },
            forall|k: int|
                0 <= k < i && spawned@[k] is Some ==> {
                    let h = #[trigger] spawned@[k]->Some_0;
                    &&& !old(store).issued(h)
                    &&& store.issued(h)
                    &&& store.live(h)
                    &&& store.body(h) == plans@[k]->Some_0
                },
            forall|a: int, b: int|
                0 <= a < b < i && spawned@[a] is Some && spawned@[b] is Some ==> spawned@[a]
                    != spawned@[b],
            forall|g: Handle|
                old(store).live(g) ==> #[trigger] store.live(g) && store.body(g) == old(
                    store,
                ).body(g),
            forall|g: Handle| #[trigger]
                store.issued(g) && !old(store).issued(g) ==> spawned@.contains(Some(g)),
            old(store).precedes(store),
            score.points == old(score).points,
            score.bees == bees_after(old(score).bees, count_spawned(spawned@)),
        decreases n - i,
    {
        let ghost before = spawned@;
        let ghost store_before = *store;
        let mut answer: Option<Handle> = None;
        if let Some(worker) = plans[i] {
            let actor: Actor = actors[i];
            let h = store.create(worker);
            score.add_bee();
            actors.set(i, Actor { last_spawn: now, ..actor });
            answer = Some(h);
            proof {
                lemma_precedes_is_transitive(old(store), &store_before, store);
                assert forall|k: int| 0 <= k < i && before[k] is Some implies before[k]
                    != Some(h) by {
                    assert(store_before.issued(before[k]->Some_0));
                }
            }
        }
        spawned.push(answer);
        proof {
            assert(spawned@.drop_last() == before);
            assert forall|g: Handle| #[trigger]
                store.issued(g) && !old(store).issued(g) implies spawned@.contains(Some(g)) by {
                if store_before.issued(g) {
                    let k = choose|k: int| 0 <= k < before.len() && before[k] == Some(g);
                    assert(spawned@[k] == Some(g));
                } else {
                    assert(spawned@[i as int] == Some(g));
                }
            }
        }
        i += 1;
    }
    proof {
        assert forall|g: Handle| #[trigger]
            store.live(g) && !old(store).live(g) implies spawned@.contains(Some(g)) by {
            store.lemma_live_in_range(g);
            if old(store).issued(g) {
                assert(old(store).retired(g));
            }
        }
    }
    spawned
}

} // verus!
