//! What a contact means in the game: a queen on a flower collects it,
//! bodies of one player spare each other, a queen that runs into anything
//! else falls, and a worker that runs into anything else dies.

use crate::actions::Actions;
use crate::bee_spawner::Actor;
use crate::body::{lemma_precedes_is_transitive, Body, BodyStore, Handle, Owner, Role};
use crate::collision::Contact;
use crate::scoreboard::Score;
use crate::vector::Vector;
use vstd::prelude::*;

verus! {

/// Flowers come up less than this far from the middle of the arena along x,
/// in arena units.
pub const FLOWER_FIELD_X: u64 = 370;

/// Flowers come up less than this far from the middle of the arena along y,
/// in arena units.
pub const FLOWER_FIELD_Y: u64 = 210;

/// Where a flower collected at `now` microseconds comes up again, in
/// thousandths of an arena unit. The place is read off the clock: the count
/// of ten-thousandths of a second gives both distances by its remainders,
/// and the sides by its remainders on division by two and by three.
pub open spec fn flower_place_spec(now: u64) -> Vector {
    let ticks = now as int / 100;
    let far_x = (ticks % 370) * 1000;
    let far_y = (ticks % 210) * 1000;
    Vector {
        x: (if ticks % 2 == 0 {
            far_x
        } else {
            -far_x
        }) as i64,
        y: (if ticks % 3 == 2 {
            -far_y
        } else {
            far_y
        }) as i64,
    }
}

#[verifier::when_used_as_spec(flower_place_spec)]
pub fn flower_place(now: u64) -> (place: Vector)
    ensures
        place == flower_place_spec(now),
        -(FLOWER_FIELD_X * 1000) < place.x < FLOWER_FIELD_X * 1000,
        -(FLOWER_FIELD_Y * 1000) < place.y < FLOWER_FIELD_Y * 1000,
{
    let ticks: u64 = now / 100;
    let far_x: i64 = ((ticks % 370) * 1000) as i64;
    let far_y: i64 = ((ticks % 210) * 1000) as i64;
    let x: i64 = if ticks % 2 == 0 {
        far_x
    } else {
        -far_x
    };
    let y: i64 = if ticks % 3 == 2 {
        -far_y
    } else {
        far_y
    };
    Vector { x, y }
}

/// Whether `h` names a body of the given role.
pub open spec fn has_role(store: &BodyStore, h: Handle, role: Role) -> bool {
    store.live(h) && store.body(h).role == role
}

/// The queen and the flower of a contact between the two, whichever comes
/// first in it; nothing for any other contact.
pub open spec fn pickup_of(store: &BodyStore, c: Contact) -> Option<(Handle, Handle)> {
    if has_role(store, c.first, Role::Queen) {
        if has_role(store, c.second, Role::Flower) {
            Some((c.first, c.second))
        } else {
            None
        }
    } else if has_role(store, c.second, Role::Queen) {
        if has_role(store, c.first, Role::Flower) {
            Some((c.second, c.first))
        } else {
            None
        }
    } else {
        None
    }
}

/// Whether `index` is the first contact of the list that is a pickup.
pub open spec fn first_pickup_at(store: &BodyStore, contacts: Seq<Contact>, index: int) -> bool {
    &&& 0 <= index < contacts.len()
    &&& pickup_of(store, contacts[index]) is Some
    &&& forall|k: int| 0 <= k < index ==> pickup_of(store, #[trigger] contacts[k]) is None
}

/// Whether `h` names a body of the given role.
fn role_is(store: &BodyStore, h: Handle, role: Role) -> (yes: bool)
    ensures
        yes == has_role(store, h, role),
{
    match store.get(h) {
        Ok(body) => body.role == role,
        Err(_) => false,
    }
}

/// Reads a contact as a pickup: the queen and the flower, if it is one.
pub fn pickup(store: &BodyStore, c: Contact) -> (pair: Option<(Handle, Handle)>)
    ensures
        pair == pickup_of(store, c),
{
    if role_is(store, c.first, Role::Queen) {
        if role_is(store, c.second, Role::Flower) {
            Some((c.first, c.second))
        } else {
            None
        }
    } else if role_is(store, c.second, Role::Queen) {
        if role_is(store, c.first, Role::Flower) {
            Some((c.second, c.first))
        } else {
            None
        }
    } else {
        None
    }
}

/// A production raised by `increment`, stopping at the largest value.
pub open spec fn raised_production(production: u64, increment: u64) -> u64 {
    if production + increment > u64::MAX {
        u64::MAX
    } else {
        (production + increment) as u64
    }
}

/// The actor after `queen` collected a flower: her own production rises,
/// any other actor stays as she is.
pub open spec fn rewarded(actor: Actor, queen: Handle, increment: u64) -> Actor {
    if actor.queen == queen {
        Actor { production: raised_production(actor.production, increment), ..actor }
    } else {
        actor
    }
}

/// Raises the production of the actor whose queen is `queen`.
pub fn raise_production(actors: &mut Vec<Actor>, queen: Handle, increment: u64)
    ensures
        final(actors)@.len() == old(actors)@.len(),
        forall|i: int|
            0 <= i < old(actors)@.len() ==> #[trigger] final(actors)@[i] == rewarded(
                old(actors)@[i],
                queen,
                increment,
            ),
{
    let mut i: usize = 0;
    while i < actors.len()
        invariant
            i <= actors@.len(),
            actors@.len() == old(actors)@.len(),
            forall|k: int|
                0 <= k < i ==> #[trigger] actors@[k] == rewarded(old(actors)@[k], queen, increment),
            forall|k: int| i <= k < actors@.len() ==> actors@[k] == old(actors)@[k],
        decreases actors@.len() - i,
    {
        let actor: Actor = actors[i];
        if actor.queen == queen {
            let production: u64 = actor.production.saturating_add(increment);
            actors.set(i, Actor { production, ..actor });
        }
        i += 1;
    }
}

/// The points after one more flower, on a counter that stops at its largest
/// value.
pub open spec fn points_after(points: u64) -> u64 {
    if points < u64::MAX {
        (points + 1) as u64
    } else {
        u64::MAX
    }
}

/// Whether the pickup rule leads from the state before to the state after
/// with `collected` as its answer. Only the first contact between a queen
/// and a flower counts: it earns one point, raises that queen's production
/// by `increment`, moves the flower to the place that the clock gives, and
/// raises the pickup signal. Without such a contact nothing changes.
pub open spec fn is_pickup_step(
    before: &BodyStore,
    after: &BodyStore,
    actors0: Seq<Actor>,
    actors1: Seq<Actor>,
    score0: Score,
    score1: Score,
    actions0: Actions,
    actions1: Actions,
    contacts: Seq<Contact>,
    increment: u64,
    now: u64,
    collected: Option<usize>,
) -> bool {
    &&& actors1.len() == actors0.len()
    &&& forall|g: Handle| #[trigger] after.live(g) <==> before.live(g)
    &&& forall|g: Handle| #[trigger] after.issued(g) <==> before.issued(g)
    &&& after.slot_count() == before.slot_count()
    &&& before.precedes(after)
    &&& match collected {
        Some(index) => {
            let (queen, flower) = pickup_of(before, contacts[index as int])->Some_0;
            &&& first_pickup_at(before, contacts, index as int)
            &&& score1 == (Score {
                points: points_after(score0.points),
                ..score0
            })
            &&& actions1 == (Actions { flower_gotten: true, ..actions0 })
            &&& forall|i: int|
                0 <= i < actors0.len() ==> #[trigger] actors1[i] == rewarded(
                    actors0[i],
                    queen,
                    increment,
                )
            &&& after.body(flower) == (Body {
                position: flower_place_spec(now),
                ..before.body(flower)
            })
            &&& forall|g: Handle|
                g != flower && before.live(g) ==> #[trigger] after.body(g) == before.body(g)
        },
        None => {
            &&& forall|k: int|
                0 <= k < contacts.len() ==> pickup_of(before, #[trigger] contacts[k])
                    is None
            &&& *after == *before
            &&& score1 == score0
            &&& actions1 == actions0
            &&& actors1 == actors0
        },
    }
}

/// Applies the pickup rule to the contacts that began in this step. Only the
/// first contact between a queen and a flower counts: it earns one point,
/// raises that queen's production by `increment`, moves the flower to the
/// place that the clock gives, and raises the pickup signal. Without such a
/// contact nothing changes. The answer is the index of the contact that
/// counted.
pub fn flower_collision(
    store: &mut BodyStore,
    actors: &mut Vec<Actor>,
    score: &mut Score,
    actions: &mut Actions,
    contacts: &Vec<Contact>,
    increment: u64,
    now: u64,
) -> (collected: Option<usize>)
    ensures
        is_pickup_step(
            old(store),
            final(store),
            old(actors)@,
            final(actors)@,
            *old(score),
            *final(score),
            *old(actions),
            *final(actions),
            contacts@,
            increment,
            now,
            collected,
        ),
{
    let mut i: usize = 0;
    while i < contacts.len()
        invariant
            i <= contacts@.len(),
            *store == *old(store),
            *score == *old(score),
            *actions == *old(actions),
            actors@ == old(actors)@,
            forall|k: int| 0 <= k < i ==> pickup_of(old(store), #[trigger] contacts@[k]) is None,
        decreases contacts@.len() - i,
    {
        if let Some((queen, flower)) = pickup(store, contacts[i]) {
            score.add_point();
            actions.flower_gotten = true;
            raise_production(actors, queen, increment);
            let _ = store.set_position(flower, flower_place(now));
            return Some(i);
        }
        i += 1;
    }
    None
}

/// The number of pickups among the contacts.
pub open spec fn pickups_in(store: &BodyStore, contacts: Seq<Contact>) -> nat
    decreases contacts.len(),
{
    if contacts.len() == 0 {
        0
    } else {
        pickups_in(store, contacts.drop_last()) + if pickup_of(store, contacts.last()) is Some {
            1nat
        } else {
            0nat
        }
    }
}

/// The points after `more` flowers, on a counter that stops at its largest
/// value.
pub open spec fn points_after_many(points: u64, more: nat) -> u64 {
    if points + more > u64::MAX {
        u64::MAX
    } else {
        (points + more) as u64
    }
}

/// The actor after every pickup among the contacts: her production has
/// risen once for each flower that her queen collected.
pub open spec fn rewarded_all(
    store: &BodyStore,
    contacts: Seq<Contact>,
    actor: Actor,
    increment: u64,
) -> Actor
    decreases contacts.len(),
{
    if contacts.len() == 0 {
        actor
    } else {
        let before = rewarded_all(store, contacts.drop_last(), actor, increment);
        match pickup_of(store, contacts.last()) {
            Some(pair) => rewarded(before, pair.0, increment),
            None => before,
        }
    }
}

/// The flower of a contact that is a pickup.
pub open spec fn flower_of(store: &BodyStore, c: Contact) -> Option<Handle> {
    match pickup_of(store, c) {
        Some(pair) => Some(pair.1),
        None => None,
    }
}

/// Whether `flower` is the flower of a pickup among the contacts.
pub open spec fn is_collected(store: &BodyStore, contacts: Seq<Contact>, flower: Handle) -> bool {
    exists|k: int| 0 <= k < contacts.len() && #[trigger] flower_of(store, contacts[k]) == Some(flower)
}

/// A body after the pickups among the contacts: a collected flower stands
/// at the place that the clock gives, any other body where it stood.
pub open spec fn replanted(store: &BodyStore, contacts: Seq<Contact>, g: Handle, now: u64) -> Body {
    if is_collected(store, contacts, g) {
        Body { position: flower_place_spec(now), ..store.body(g) }
    } else {
        store.body(g)
    }
}

/// Whether the pickup rule, counting every pickup, leads from the state
/// before to the state after with `count` as its answer: each contact
/// between a queen and a flower earns a point and raises that queen's
/// production by `increment`; every collected flower moves to the place
/// that the clock gives; the pickup signal is raised if there was a pickup.
pub open spec fn is_harvest_step(
    before: &BodyStore,
    after: &BodyStore,
    actors0: Seq<Actor>,
    actors1: Seq<Actor>,
    score0: Score,
    score1: Score,
    actions0: Actions,
    actions1: Actions,
    contacts: Seq<Contact>,
    increment: u64,
    now: u64,
    count: usize,
) -> bool {
    &&& forall|g: Handle| #[trigger] after.live(g) <==> before.live(g)
    &&& forall|g: Handle| #[trigger] after.issued(g) <==> before.issued(g)
    &&& after.slot_count() == before.slot_count()
    &&& before.precedes(after)
    &&& count == pickups_in(before, contacts)
    &&& score1 == (Score { points: points_after_many(score0.points, count as nat), ..score0 })
    &&& actions1 == (Actions { flower_gotten: actions0.flower_gotten || count > 0, ..actions0 })
    &&& actors1.len() == actors0.len()
    &&& forall|i: int|
        0 <= i < actors0.len() ==> #[trigger] actors1[i] == rewarded_all(
            before,
            contacts,
            actors0[i],
            increment,
        )
    &&& forall|g: Handle|
        before.live(g) ==> #[trigger] after.body(g) == replanted(before, contacts, g, now)
}

/// A flower is collected among the contacts with one more at their end
/// if it was collected among them, or is the flower of the new one.
proof fn lemma_collected_with_one_more(
    store: &BodyStore,
    head: Seq<Contact>,
    c: Contact,
    g: Handle,
)
    ensures
        is_collected(store, head.push(c), g) <==> (is_collected(store, head, g) || flower_of(
            store,
            c,
        ) == Some(g)),
{
    let longer = head.push(c);
    if is_collected(store, head, g) {
        let k = choose|k: int| 0 <= k < head.len() && #[trigger] flower_of(store, head[k]) == Some(g);
        assert(longer[k] == head[k]);
    }
    if flower_of(store, c) == Some(g) {
        assert(longer[head.len() as int] == c);
    }
    if is_collected(store, longer, g) {
        let k = choose|k: int|
            0 <= k < longer.len() && #[trigger] flower_of(store, longer[k]) == Some(g);
        if k < head.len() {
            assert(head[k] == longer[k]);
        }
    }
}

/// Applies the pickup rule to the contacts that began in this step, counting
/// every contact between a queen and a flower, in turn. The answer is the
/// number of pickups.
#[verifier::rlimit(40)]
pub fn collect_every_flower(
    store: &mut BodyStore,
    actors: &mut Vec<Actor>,
    score: &mut Score,
    actions: &mut Actions,
    contacts: &Vec<Contact>,
    increment: u64,
    now: u64,
) -> (count: usize)
    ensures
        is_harvest_step(
            old(store),
            final(store),
            old(actors)@,
            final(actors)@,
            *old(score),
            *final(score),
            *old(actions),
            *final(actions),
            contacts@,
            increment,
            now,
            count,
        ),
{
    let mut count: usize = 0;
    let mut i: usize = 0;
    while i < contacts.len()
        invariant
            i <= contacts@.len(),
            count <= i,
            forall|g: Handle| #[trigger] store.live(g) <==> old(store).live(g),
            forall|g: Handle| #[trigger] store.issued(g) <==> old(store).issued(g),
            store.slot_count() == old(store).slot_count(),
            old(store).precedes(store),
            count == pickups_in(old(store), contacts@.take(i as int)),
            *score == (Score {
                points: points_after_many(old(score).points, count as nat),
                ..*old(score)
            }),
            *actions == (Actions {
                flower_gotten: old(actions).flower_gotten || count > 0,
                ..*old(actions)
            }),
            actors@.len() == old(actors)@.len(),
            forall|k: int|
                0 <= k < old(actors)@.len() ==> #[trigger] actors@[k] == rewarded_all(
                    old(store),
                    contacts@.take(i as int),
                    old(actors)@[k],
                    increment,
                ),
            forall|g: Handle|
                old(store).live(g) ==> #[trigger] store.body(g) == replanted(
                    old(store),
                    contacts@.take(i as int),
                    g,
                    now,
                ),
        decreases contacts@.len() - i,
    {
        let c = contacts[i];
        let ghost head = contacts@.take(i as int);
        let ghost longer = contacts@.take(i + 1);
        let ghost store_before = *store;
        proof {
            assert(longer.drop_last() == head);
            assert(longer.last() == c);
            assert(longer == head.push(c));
            assert(has_role(store, c.first, Role::Queen) == has_role(
                old(store),
                c.first,
                Role::Queen,
            ));
            assert(has_role(store, c.first, Role::Flower) == has_role(
                old(store),
                c.first,
                Role::Flower,
            ));
            assert(has_role(store, c.second, Role::Queen) == has_role(
                old(store),
                c.second,
                Role::Queen,
            ));
            assert(has_role(store, c.second, Role::Flower) == has_role(
                old(store),
                c.second,
                Role::Flower,
            ));
        }
        let found = pickup(store, c);
        assert(found == pickup_of(old(store), c));
        if let Some((queen, flower)) = found {
            score.add_point();
            actions.flower_gotten = true;
            raise_production(actors, queen, increment);
            let _ = store.set_position(flower, flower_place(now));
            count += 1;
            proof {
                lemma_precedes_is_transitive(old(store), &store_before, store);
            }
        }
        proof {
            assert forall|g: Handle| old(store).live(g) implies #[trigger] store.body(g)
                == replanted(old(store), longer, g, now) by {
                lemma_collected_with_one_more(old(store), head, c, g);
            }
        }
        i += 1;
    }
    assert(contacts@.take(contacts@.len() as int) == contacts@);
    count
}

/// What the pickup rule did in a frame.
#[derive(Clone, Copy, Debug, PartialEq, Eq, Structural)]
pub enum Harvest {
    /// Only the first pickup counted: its index among the contacts, if
    /// there was one.
    First(Option<usize>),
    /// Every pickup counted: their number.
    Every(usize),
}

/// Whether the pickup rule under the chosen policy leads from the state
/// before to the state after with this harvest.
pub open spec fn is_harvest(
    before: &BodyStore,
    after: &BodyStore,
    actors0: Seq<Actor>,
    actors1: Seq<Actor>,
    score0: Score,
    score1: Score,
    actions0: Actions,
    actions1: Actions,
    contacts: Seq<Contact>,
    increment: u64,
    now: u64,
    every: bool,
    harvest: Harvest,
) -> bool {
    match harvest {
        Harvest::First(collected) => !every && is_pickup_step(
            before,
            after,
            actors0,
            actors1,
            score0,
            score1,
            actions0,
            actions1,
            contacts,
            increment,
            now,
            collected,
        ),
        Harvest::Every(count) => every && is_harvest_step(
            before,
            after,
            actors0,
            actors1,
            score0,
            score1,
            actions0,
            actions1,
            contacts,
            increment,
            now,
            count,
        ),
    }
}

/// Applies the pickup rule under the chosen policy: every pickup counts if
/// `every` is set, else only the first.
pub fn pickup_rule(
    store: &mut BodyStore,
    actors: &mut Vec<Actor>,
    score: &mut Score,
    actions: &mut Actions,
    contacts: &Vec<Contact>,
    increment: u64,
    now: u64,
    every: bool,
) -> (harvest: Harvest)
    ensures
        is_harvest(
            old(store),
            final(store),
            old(actors)@,
            final(actors)@,
            *old(score),
            *final(score),
            *old(actions),
            *final(actions),
            contacts@,
            increment,
            now,
            every,
            harvest,
        ),
{
    if every {
        Harvest::Every(collect_every_flower(store, actors, score, actions, contacts, increment, now))
    } else {
        Harvest::First(flower_collision(store, actors, score, actions, contacts, increment, now))
    }
}

/// What the death rule makes of a contact.
#[derive(Clone, Copy, Debug, PartialEq, Eq, Structural)]
pub enum Verdict {
    /// Nobody dies: a pickup, a contact among walls and flowers, or a handle
    /// that names no body.
    Spared,
    /// A queen took part: she falls, and the round is over.
    QueenDied,
    /// No queen took part, but a worker did.
    WorkerDied,
}

/// Whether two bodies are on the same side: both of the first player, or
/// both of the second.
pub open spec fn allied(a: Body, b: Body) -> bool {
    a.owner == b.owner && a.owner != Owner::Neutral
}

/// The verdict on a contact. A queen on a flower is a pickup and spares
/// her, and bodies of one player spare each other. Otherwise a queen in the
/// pair falls, whatever she ran into. With no queen in it, a pair with a
/// worker costs that worker's life.
pub open spec fn verdict_of(store: &BodyStore, c: Contact) -> Verdict {
    if !store.live(c.first) || !store.live(c.second) {
        Verdict::Spared
    } else if pickup_of(store, c) is Some {
        Verdict::Spared
    } else if allied(store.body(c.first), store.body(c.second)) {
        Verdict::Spared
    } else if store.body(c.first).role == Role::Queen || store.body(c.second).role == Role::Queen {
        Verdict::QueenDied
    } else if store.body(c.first).role == Role::Worker || store.body(c.second).role
        == Role::Worker {
        Verdict::WorkerDied
    } else {
        Verdict::Spared
    }
}

#[verifier::when_used_as_spec(verdict_of)]
pub fn verdict(store: &BodyStore, c: Contact) -> (v: Verdict)
    ensures
        v == verdict_of(store, c),
{
    match (store.get(c.first), store.get(c.second)) {
        (Ok(a), Ok(b)) => {
            if pickup(store, c).is_some() {
                Verdict::Spared
            } else if a.owner == b.owner && a.owner != Owner::Neutral {
                Verdict::Spared
            } else if a.role == Role::Queen || b.role == Role::Queen {
                Verdict::QueenDied
            } else if a.role == Role::Worker || b.role == Role::Worker {
                Verdict::WorkerDied
            } else {
                Verdict::Spared
            }
        },
        _ => Verdict::Spared,
    }
}

/// Whether the queen `h` falls in the contact `c`.
pub open spec fn falls(store: &BodyStore, c: Contact, h: Handle) -> bool {
    verdict_of(store, c) == Verdict::QueenDied && (h == c.first || h == c.second) && has_role(
        store,
        h,
        Role::Queen,
    )
}

/// Whether a queen of `owner` falls in the contact `c`.
pub open spec fn owner_falls(store: &BodyStore, c: Contact, owner: Owner) -> bool {
    (falls(store, c, c.first) && store.body(c.first).owner == owner) || (falls(
        store,
        c,
        c.second,
    ) && store.body(c.second).owner == owner)
}

/// The actor after the contact `c`: dead if her queen fell in it.
pub open spec fn survivor(store: &BodyStore, c: Contact, actor: Actor) -> Actor {
    if falls(store, c, actor.queen) {
        Actor { alive: false, ..actor }
    } else {
        actor
    }
}

/// The workers that the contact `c` removes from the game, in the order of
/// the pair: none unless the verdict is a worker's death and the game
/// removes dead workers.
pub open spec fn casualties(store: &BodyStore, c: Contact, despawn: bool) -> Seq<Handle> {
    if despawn && verdict_of(store, c) == Verdict::WorkerDied {
        let first = if store.body(c.first).role == Role::Worker {
            seq![c.first]
        } else {
            Seq::<Handle>::empty()
        };
        if store.body(c.second).role == Role::Worker {
            first.push(c.second)
        } else {
            first
        }
    } else {
        Seq::<Handle>::empty()
    }
}

/// The signals after the death rule has seen the contact `c`.
pub open spec fn mourned(store: &BodyStore, c: Contact, actions: Actions) -> Actions {
    Actions {
        p1_queen_died: actions.p1_queen_died || owner_falls(store, c, Owner::Player1),
        p2_queen_died: actions.p2_queen_died || owner_falls(store, c, Owner::Player2),
        worker_bee_died: actions.worker_bee_died || verdict_of(store, c) == Verdict::WorkerDied,
        ..actions
    }
}

/// Marks the actor whose queen is `queen` as dead.
fn bury(actors: &mut Vec<Actor>, queen: Handle)
    ensures
        final(actors)@.len() == old(actors)@.len(),
        forall|i: int|
            0 <= i < old(actors)@.len() ==> #[trigger] final(actors)@[i] == if old(
                actors,
            )@[i].queen == queen {
                Actor { alive: false, ..old(actors)@[i] }
            } else {
                old(actors)@[i]
            },
{
    let mut i: usize = 0;
    while i < actors.len()
        invariant
            i <= actors@.len(),
            actors@.len() == old(actors)@.len(),
            forall|k: int|
                0 <= k < i ==> #[trigger] actors@[k] == if old(actors)@[k].queen == queen {
                    Actor { alive: false, ..old(actors)@[k] }
                } else {
                    old(actors)@[k]
                },
            forall|k: int| i <= k < actors@.len() ==> actors@[k] == old(actors)@[k],
        decreases actors@.len() - i,
    {
        let actor: Actor = actors[i];
        if actor.queen == queen {
            actors.set(i, Actor { alive: false, ..actor });
        }
        i += 1;
    }
}

/// Raises the signal that a queen of `owner` fell. A neutral queen has no
/// signal.
fn mourn_queen(actions: &mut Actions, owner: Owner)
    ensures
        *final(actions) == (Actions {
            p1_queen_died: old(actions).p1_queen_died || owner == Owner::Player1,
            p2_queen_died: old(actions).p2_queen_died || owner == Owner::Player2,
            ..*old(actions)
        }),
{
    match owner {
        Owner::Player1 => {
            actions.p1_queen_died = true;
        },
        Owner::Player2 => {
            actions.p2_queen_died = true;
        },
        Owner::Neutral => {},
    }
}

/// Applies the death rule to one contact that began in this step. A fallen
/// queen raises her owner's signal and her actor is marked dead. A dead
/// worker raises the worker signal; if `despawn` is set, the workers of the
/// pair are added to `doomed`, to be removed once all rules have run. No
/// body leaves the store here.
pub fn death_rule(
    store: &BodyStore,
    actors: &mut Vec<Actor>,
    actions: &mut Actions,
    doomed: &mut Vec<Handle>,
    contact: Contact,
    despawn: bool,
) -> (v: Verdict)
    ensures
        v == verdict_of(store, contact),
        *final(actions) == mourned(store, contact, *old(actions)),
        final(actors)@.len() == old(actors)@.len(),
        forall|i: int|
            0 <= i < old(actors)@.len() ==> #[trigger] final(actors)@[i] == survivor(
                store,
                contact,
                old(actors)@[i],
            ),
        final(doomed)@ == old(doomed)@ + casualties(store, contact, despawn),
{
    let v = verdict(store, contact);
    match v {
        Verdict::Spared => {},
        Verdict::QueenDied => {
            if let Ok(a) = store.get(contact.first) {
                if a.role == Role::Queen {
                    mourn_queen(actions, a.owner);
                    bury(actors, contact.first);
                }
            }
            if let Ok(b) = store.get(contact.second) {
                if b.role == Role::Queen {
                    mourn_queen(actions, b.owner);
                    bury(actors, contact.second);
                }
            }
        },
        Verdict::WorkerDied => {
            actions.worker_bee_died = true;
            if despawn {
                if role_is(store, contact.first, Role::Worker) {
                    doomed.push(contact.first);
                }
                if role_is(store, contact.second, Role::Worker) {
                    doomed.push(contact.second);
                }
            }
        },
    }
    assert(doomed@ =~= old(doomed)@ + casualties(store, contact, despawn));
    v
}

/// The signals after the death rule has seen the contacts in turn.
pub open spec fn mourned_all(store: &BodyStore, contacts: Seq<Contact>, actions: Actions) -> Actions
    decreases contacts.len(),
{
    if contacts.len() == 0 {
        actions
    } else {
        mourned(store, contacts.last(), mourned_all(store, contacts.drop_last(), actions))
    }
}

/// The actor after the contacts: dead if her queen fell in one of them.
pub open spec fn survivor_of_all(store: &BodyStore, contacts: Seq<Contact>, actor: Actor) -> Actor
    decreases contacts.len(),
{
    if contacts.len() == 0 {
        actor
    } else {
        survivor(store, contacts.last(), survivor_of_all(store, contacts.drop_last(), actor))
    }
}

/// The workers that the contacts remove from the game, contact after
/// contact.
pub open spec fn all_casualties(store: &BodyStore, contacts: Seq<Contact>, despawn: bool) -> Seq<
    Handle,
>
    decreases contacts.len(),
{
    if contacts.len() == 0 {
        Seq::<Handle>::empty()
    } else {
        all_casualties(store, contacts.drop_last(), despawn) + casualties(
            store,
            contacts.last(),
            despawn,
        )
    }
}

/// Applies the death rule to every contact that began in this step, in
/// turn.
pub fn death_rules(
    store: &BodyStore,
    actors: &mut Vec<Actor>,
    actions: &mut Actions,
    doomed: &mut Vec<Handle>,
    contacts: &Vec<Contact>,
    despawn: bool,
)
    ensures
        *final(actions) == mourned_all(store, contacts@, *old(actions)),
        final(actors)@.len() == old(actors)@.len(),
        forall|i: int|
            0 <= i < old(actors)@.len() ==> #[trigger] final(actors)@[i] == survivor_of_all(
                store,
                contacts@,
                old(actors)@[i],
            ),
        final(doomed)@ == old(doomed)@ + all_casualties(store, contacts@, despawn),
{
    let mut k: usize = 0;
    while k < contacts.len()
        invariant
            k <= contacts@.len(),
            *actions == mourned_all(store, contacts@.take(k as int), *old(actions)),
            actors@.len() == old(actors)@.len(),
            forall|i: int|
                0 <= i < old(actors)@.len() ==> #[trigger] actors@[i] == survivor_of_all(
                    store,
                    contacts@.take(k as int),
                    old(actors)@[i],
                ),
            doomed@ == old(doomed)@ + all_casualties(store, contacts@.take(k as int), despawn),
        decreases contacts@.len() - k,
    {
        let ghost doomed_before = doomed@;
        death_rule(store, actors, actions, doomed, contacts[k], despawn);
        proof {
            assert(contacts@.take(k + 1).drop_last() == contacts@.take(k as int));
            assert(doomed@ =~= old(doomed)@ + all_casualties(
                store,
                contacts@.take(k + 1),
                despawn,
            ));
        }
        k += 1;
    }
    assert(contacts@.take(contacts@.len() as int) == contacts@);
}

/// Whether removing the bodies named in `doomed` leads from `before` to
/// `after`: exactly these leave, every other body stays as it is, and no
/// handle is given out.
pub open spec fn is_despawn_step(before: &BodyStore, after: &BodyStore, doomed: Seq<Handle>) -> bool {
    &&& forall|g: Handle| #[trigger] after.live(g) <==> (before.live(g) && !doomed.contains(g))
    &&& forall|g: Handle| #[trigger] after.live(g) ==> after.body(g) == before.body(g)
    &&& forall|g: Handle| #[trigger] after.issued(g) <==> before.issued(g)
    &&& after.slot_count() == before.slot_count()
    &&& before.precedes(after)
}

/// Removes the doomed bodies from the store, once all rules of the step
/// have run. A handle that names no body any more, because it was doomed
/// twice, is passed over.
pub fn apply_despawns(store: &mut BodyStore, doomed: &Vec<Handle>)
    ensures
        is_despawn_step(old(store), final(store), doomed@),
{
    let mut i: usize = 0;
    while i < doomed.len()
        invariant
            i <= doomed@.len(),
            forall|g: Handle| #[trigger]
                store.live(g) <==> (old(store).live(g) && !doomed@.take(i as int).contains(g)),
            forall|g: Handle| #[trigger] store.live(g) ==> store.body(g) == old(store).body(g),
            forall|g: Handle| #[trigger] store.issued(g) <==> old(store).issued(g),
            store.slot_count() == old(store).slot_count(),
            old(store).precedes(store),
        decreases doomed@.len() - i,
    {
        let h = doomed[i];
        let ghost store_before = *store;
        let _ = store.destroy(h);
        proof {
            let head = doomed@.take(i as int);
            let longer = doomed@.take(i + 1);
            assert(longer == head.push(h));
            assert forall|g: Handle| #[trigger]
                store.live(g) <==> (old(store).live(g) && !longer.contains(g)) by {
                if longer.contains(g) {
                    let k = choose|k: int| 0 <= k < longer.len() && longer[k] == g;
                    if k < i {
                        assert(head[k] == g);
                    }
                }
                if head.contains(g) {
                    let k = choose|k: int| 0 <= k < head.len() && head[k] == g;
                    assert(longer[k] == g);
                }
                assert(longer[i as int] == h);
            }
        }
        i += 1;
    }
    assert(doomed@.take(doomed@.len() as int) == doomed@);
}

/// Who has won, once a queen has fallen: the owner of the other queen. If
/// both fell, nobody has: the answer is the neutral owner. While both live
/// there is no answer.
pub fn winner(actions: &Actions) -> (won: Option<Owner>)
    ensures
        won == if actions.p1_queen_died && actions.p2_queen_died {
            Some(Owner::Neutral)
        } else if actions.p1_queen_died {
            Some(Owner::Player2)
        } else if actions.p2_queen_died {
            Some(Owner::Player1)
        } else {
            None::<Owner>
        },
{
    if actions.p1_queen_died && actions.p2_queen_died {
        Some(Owner::Neutral)
    } else if actions.p1_queen_died {
        Some(Owner::Player2)
    } else if actions.p2_queen_died {
        Some(Owner::Player1)
    } else {
        None
    }
}

} // verus!
