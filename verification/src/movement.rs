//! Steering: a held direction speeds a body up; it never sets its speed.

use crate::actions::Actions;
use crate::body::{Body, BodyKind, BodyStore, Handle, Owner, Role};
use crate::vector::Vector;
use vstd::prelude::*;

verus! {

/// The speed-up of a queen under full input, in arena units per second
/// squared.
pub const QUEEN_MOVEMENT_SCALING: u32 = 700;

/// The speed-up of a worker under full input, in arena units per second
/// squared.
pub const BEE_MOVEMENT_SCALING: u32 = 1000;

/// What one component of input adds to a velocity in thousandths of a unit
/// per second: `input` millionths of full input, times `scale` units per
/// second squared, over `dt` microseconds, rounded toward zero.
pub open spec fn impulse(input: int, scale: int, dt: int) -> int {
    if input >= 0 {
        (input * scale * dt) / 1_000_000_000
    } else {
        -(((-input) * scale * dt) / 1_000_000_000)
    }
}

/// `value`, or the nearest end of the range of `i64`.
pub open spec fn clamped(value: int) -> int {
    if value < i64::MIN {
        i64::MIN as int
    } else if value > i64::MAX {
        i64::MAX as int
    } else {
        value
    }
}

/// The velocity after one step of steering: each component gains its
/// impulse, and stops at the ends of the range of `i64`.
pub open spec fn steer_spec(velocity: Vector, input: Vector, scale: u32, dt: u32) -> Vector {
    Vector {
        x: clamped(velocity.x + impulse(input.x as int, scale as int, dt as int)) as i64,
        y: clamped(velocity.y + impulse(input.y as int, scale as int, dt as int)) as i64,
    }
}

/// The velocity after `frames` equal steps of steering.
pub open spec fn steer_many(velocity: Vector, input: Vector, scale: u32, dt: u32, frames: nat)
    -> Vector
    decreases frames,
{
    if frames == 0 {
        velocity
    } else {
        steer_spec(steer_many(velocity, input, scale, dt, (frames - 1) as nat), input, scale, dt)
    }
}

proof fn lemma_product_bound(a: int, b: int, bound_a: int, bound_b: int)
    requires
        0 <= a <= bound_a,
        0 <= b <= bound_b,
    ensures
        0 <= a * b <= bound_a * bound_b,
{
    assert(0 <= a * b <= bound_a * bound_b) by (nonlinear_arith)
        requires
            0 <= a <= bound_a,
            0 <= b <= bound_b,
    ;
}

/// One component after a step of steering.
fn steer_component(velocity: i64, input: i64, scale: u32, dt: u32) -> (v: i64)
    ensures
        v == clamped(velocity + impulse(input as int, scale as int, dt as int)),
{
    let size: u128 = if input >= 0 {
        input as u128
    } else {
        (-(input as i128)) as u128
    };
    proof {
        lemma_product_bound(size as int, scale as int, 0x8000_0000_0000_0000, 0xffff_ffff);
        lemma_product_bound(
            size as int * scale as int,
            dt as int,
            0x8000_0000_0000_0000int * 0xffff_ffffint,
            0xffff_ffff,
        );
        assert(0x8000_0000_0000_0000int * 0xffff_ffffint * 0xffff_ffffint
            < 0x8000_0000_0000_0000_0000_0000_0000_0000int) by (nonlinear_arith);
    }
    let product: u128 = size * (scale as u128) * (dt as u128);
    let push: u128 = product / 1_000_000_000u128;
    let signed: i128 = if input >= 0 {
        push as i128
    } else {
        -(push as i128)
    };
    let sum: i128 = velocity as i128 + signed;
    if sum < i64::MIN as i128 {
        i64::MIN
    } else if sum > i64::MAX as i128 {
        i64::MAX
    } else {
        sum as i64
    }
}

/// Speeds `velocity` up by `input` for one step. A zero input changes
/// nothing: the body keeps drifting as it did.
pub fn steer(velocity: Vector, input: Vector, scale: u32, dt: u32) -> (v: Vector)
    ensures
        v == steer_spec(velocity, input, scale, dt),
        input.is_zero() ==> v == velocity,
{
    proof {
        lemma_zero_input_keeps_velocity(velocity, scale, dt, 1);
        reveal_with_fuel(steer_many, 2);
    }
    Vector {
        x: steer_component(velocity.x, input.x, scale, dt),
        y: steer_component(velocity.y, input.y, scale, dt),
    }
}

/// Without input a velocity stays what it is, over any number of frames:
/// steering leaves no drift of its own.
pub proof fn lemma_zero_input_keeps_velocity(velocity: Vector, scale: u32, dt: u32, frames: nat)
    ensures
        steer_many(velocity, Vector { x: 0, y: 0 }, scale, dt, frames) == velocity,
    decreases frames,
{
    if frames > 0 {
        lemma_zero_input_keeps_velocity(velocity, scale, dt, (frames - 1) as nat);
        assert(0 * (scale as int) * (dt as int) == 0) by (nonlinear_arith);
        assert(impulse(0, scale as int, dt as int) == 0);
    }
}

/// Whether steering reaches `body`: a dynamic body of the given role and
/// owner. Static and kinematic bodies take no force.
pub open spec fn is_steered(body: Body, role: Role, owner: Owner) -> bool {
    body.kind == BodyKind::Dynamic && body.role == role && body.owner == owner
}

/// `body` after a step of steering aimed at `role` and `owner`.
pub open spec fn accelerated(body: Body, role: Role, owner: Owner, input: Vector, scale: u32, dt: u32)
    -> Body {
    if is_steered(body, role, owner) {
        Body { velocity: steer_spec(body.velocity, input, scale, dt), ..body }
    } else {
        body
    }
}

/// Speeds up every dynamic body of `role` and `owner` by `input` for `dt`
/// microseconds. No body comes or goes, and no other body changes.
pub fn accelerate(
    store: &mut BodyStore,
    role: Role,
    owner: Owner,
    input: Vector,
    scale: u32,
    dt: u32,
)
    ensures
        final(store).slot_count() == old(store).slot_count(),
        forall|g: Handle| #[trigger] final(store).live(g) <==> old(store).live(g),
        forall|g: Handle| #[trigger] final(store).issued(g) <==> old(store).issued(g),
        forall|g: Handle| #[trigger]
            final(store).live(g) ==> final(store).body(g) == accelerated(
                old(store).body(g),
                role,
                owner,
                input,
                scale,
                dt,
            ),
        old(store).precedes(final(store)),
{
    let n: usize = store.slots();
    let mut i: usize = 0;
    while i < n
        invariant
            i <= n,
            n == store.slot_count(),
            store.slot_count() == old(store).slot_count(),
            forall|g: Handle| #[trigger] store.live(g) <==> old(store).live(g),
            forall|g: Handle| #[trigger] store.issued(g) <==> old(store).issued(g),
            forall|g: Handle| #[trigger]
                store.live(g) && g.index < i ==> store.body(g) == accelerated(
                    old(store).body(g),
                    role,
                    owner,
                    input,
                    scale,
                    dt,
                ),
            forall|g: Handle| #[trigger]
                store.live(g) && g.index >= i ==> store.body(g) == old(store).body(g),
        decreases n - i,
    {
        if let Some(h) = store.handle_at(i) {
            if let Ok(body) = store.get(h) {
                if body.kind == BodyKind::Dynamic && body.role == role && body.owner == owner {
                    let velocity = steer(body.velocity, input, scale, dt);
                    let _ = store.set_velocity(h, velocity);
                }
            }
        }
        i += 1;
    }
    proof {
        assert forall|g: Handle| #[trigger] store.live(g) implies g.index < n by {
            store.lemma_live_in_range(g);
        }
    }
}

/// Steers the queens: each player's queen speeds up along that player's
/// movement wish.
pub fn queen_bee_movement(store: &mut BodyStore, actions: &Actions, scale: u32, dt: u32)
    ensures
        final(store).slot_count() == old(store).slot_count(),
        forall|g: Handle| #[trigger] final(store).live(g) <==> old(store).live(g),
        forall|g: Handle| #[trigger] final(store).issued(g) <==> old(store).issued(g),
        forall|g: Handle| #[trigger]
            final(store).live(g) ==> final(store).body(g) == accelerated(
                accelerated(
                    old(store).body(g),
                    Role::Queen,
                    Owner::Player1,
                    actions.p1_movement,
                    scale,
                    dt,
                ),
                Role::Queen,
                Owner::Player2,
                actions.p2_movement,
                scale,
                dt,
            ),
        old(store).precedes(final(store)),
{
    accelerate(store, Role::Queen, Owner::Player1, actions.p1_movement, scale, dt);
    accelerate(store, Role::Queen, Owner::Player2, actions.p2_movement, scale, dt);
}

/// Steers the swarms: every worker speeds up along the swarm wish of the
/// player that owns it.
pub fn worker_bee_movement(store: &mut BodyStore, actions: &Actions, scale: u32, dt: u32)
    ensures
        final(store).slot_count() == old(store).slot_count(),
        forall|g: Handle| #[trigger] final(store).live(g) <==> old(store).live(g),
        forall|g: Handle| #[trigger] final(store).issued(g) <==> old(store).issued(g),
        forall|g: Handle| #[trigger]
            final(store).live(g) ==> final(store).body(g) == accelerated(
                accelerated(
                    old(store).body(g),
                    Role::Worker,
                    Owner::Player1,
                    actions.p1_bee_movement,
                    scale,
                    dt,
                ),
                Role::Worker,
                Owner::Player2,
                actions.p2_bee_movement,
                scale,
                dt,
            ),
        old(store).precedes(final(store)),
{
    accelerate(store, Role::Worker, Owner::Player1, actions.p1_bee_movement, scale, dt);
    accelerate(store, Role::Worker, Owner::Player2, actions.p2_bee_movement, scale, dt);
}

} // verus!
