//! Moving the bodies through a frame in equal sub-steps: gravity, steering,
//! motion, and the parting of bodies that ran into each other. Every rate
//! is applied over the length of a sub-step.

use crate::actions::Actions;
use crate::bees::Settings;
use crate::body::{Body, BodyKind, BodyStore, Handle, Owner, Role, Shape};
use crate::collision::{
    detect, distance, fresh, half_extents, lists_contacts, lists_fresh, Contact, Events,
};
use crate::sticks::{lemma_squares, root_of, whole_root};
use crate::movement::{
    accelerated, clamped, lemma_zero_input_keeps_velocity, queen_bee_movement, steer_many,
    worker_bee_movement,
};
use crate::vector::Vector;
use vstd::prelude::*;

verus! {

/// What a rate per second comes to over `dt` microseconds, rounded toward
/// zero.
pub open spec fn over_time(rate: int, dt: int) -> int {
    if rate >= 0 {
        (rate * dt) / 1_000_000
    } else {
        -(((-rate) * dt) / 1_000_000)
    }
}

/// A vector after `dt` microseconds of change at `rate` per second, each
/// component stopping at the ends of the range of `i64`.
pub open spec fn drifted(v: Vector, rate: Vector, dt: u32) -> Vector {
    Vector {
        x: clamped(v.x + over_time(rate.x as int, dt as int)) as i64,
        y: clamped(v.y + over_time(rate.y as int, dt as int)) as i64,
    }
}

fn drift_component(value: i64, rate: i64, dt: u32) -> (v: i64)
    ensures
        v == clamped(value + over_time(rate as int, dt as int)),
{
    let size: u128 = if rate >= 0 {
        rate as u128
    } else {
        (-(rate as i128)) as u128
    };
    proof {
        assert(0 <= size * dt <= 0x8000_0000_0000_0000 * 0xffff_ffff) by (nonlinear_arith)
            requires
                0 <= size <= 0x8000_0000_0000_0000,
                0 <= dt <= 0xffff_ffff,
        ;
    }
    let change: u128 = size * (dt as u128) / 1_000_000u128;
    let signed: i128 = if rate >= 0 {
        change as i128
    } else {
        -(change as i128)
    };
    let sum: i128 = value as i128 + signed;
    if sum < i64::MIN as i128 {
        i64::MIN
    } else if sum > i64::MAX as i128 {
        i64::MAX
    } else {
        sum as i64
    }
}

/// Lets `v` change at `rate` per second for `dt` microseconds.
pub fn drift(v: Vector, rate: Vector, dt: u32) -> (after: Vector)
    ensures
        after == drifted(v, rate, dt),
{
    Vector { x: drift_component(v.x, rate.x, dt), y: drift_component(v.y, rate.y, dt) }
}

/// A body after gravity has pulled at it for `dt` microseconds: a dynamic
/// body gains speed, any other body is untouched.
pub open spec fn pulled(body: Body, gravity: Vector, dt: u32) -> Body {
    if body.kind == BodyKind::Dynamic {
        Body { velocity: drifted(body.velocity, gravity, dt), ..body }
    } else {
        body
    }
}

/// A body after it has moved at its velocity for `dt` microseconds: a
/// static body stays where it is.
pub open spec fn carried(body: Body, dt: u32) -> Body {
    if body.kind != BodyKind::Static {
        Body { position: drifted(body.position, body.velocity, dt), ..body }
    } else {
        body
    }
}

/// The bodies after gravity has pulled at each for `dt` microseconds.
pub open spec fn all_pulled(bodies: Map<Handle, Body>, gravity: Vector, dt: u32) -> Map<
    Handle,
    Body,
> {
    Map::new(|h: Handle| bodies.dom().contains(h), |h: Handle| pulled(bodies[h], gravity, dt))
}

/// The bodies after each has moved for `dt` microseconds.
pub open spec fn all_carried(bodies: Map<Handle, Body>, dt: u32) -> Map<Handle, Body> {
    Map::new(|h: Handle| bodies.dom().contains(h), |h: Handle| carried(bodies[h], dt))
}

/// Pulls at every dynamic body with `gravity` for `dt` microseconds.
pub fn apply_gravity(store: &mut BodyStore, gravity: Vector, dt: u32)
    ensures
        final(store)@ == all_pulled(old(store)@, gravity, dt),
        final(store).slot_count() == old(store).slot_count(),
        forall|g: Handle| #[trigger] final(store).issued(g) <==> old(store).issued(g),
        old(store).precedes(final(store)),
{
    let n: usize = store.slots();
    let mut i: usize = 0;
    while i < n
        invariant
            i <= n,
            n == store.slot_count(),
            store.slot_count() == old(store).slot_count(),
            forall|g: Handle| #[trigger] store.live(g) <==> old(store).live(g),
            forall|g: Handle| #[trigger] store.issued(g) <==> old(store).issued(g),
            forall|g: Handle| #[trigger]
                store.live(g) && g.index < i ==> store.body(g) == pulled(
                    old(store).body(g),
                    gravity,
                    dt,
                ),
            forall|g: Handle| #[trigger]
                store.live(g) && g.index >= i ==> store.body(g) == old(store).body(g),
        decreases n - i,
    {
        if let Some(h) = store.handle_at(i) {
            if let Ok(body) = store.get(h) {
                if body.kind == BodyKind::Dynamic {
                    let _ = store.set_velocity(h, drift(body.velocity, gravity, dt));
                }
            }
        }
        i += 1;
    }
    proof {
        assert forall|g: Handle| #[trigger] store.live(g) implies g.index < n by {
            store.lemma_live_in_range(g);
        }
        assert(store@ =~= all_pulled(old(store)@, gravity, dt));
    }
}

/// Moves every body that is not static at its velocity for `dt`
/// microseconds.
pub fn advance_positions(store: &mut BodyStore, dt: u32)
    ensures
        final(store)@ == all_carried(old(store)@, dt),
        final(store).slot_count() == old(store).slot_count(),
        forall|g: Handle| #[trigger] final(store).issued(g) <==> old(store).issued(g),
        old(store).precedes(final(store)),
{
    let n: usize = store.slots();
    let mut i: usize = 0;
    while i < n
        invariant
            i <= n,
            n == store.slot_count(),
            store.slot_count() == old(store).slot_count(),
            forall|g: Handle| #[trigger] store.live(g) <==> old(store).live(g),
            forall|g: Handle| #[trigger] store.issued(g) <==> old(store).issued(g),
            forall|g: Handle| #[trigger]
                store.live(g) && g.index < i ==> store.body(g) == carried(old(store).body(g), dt),
            forall|g: Handle| #[trigger]
                store.live(g) && g.index >= i ==> store.body(g) == old(store).body(g),
        decreases n - i,
    {
        if let Some(h) = store.handle_at(i) {
            if let Ok(body) = store.get(h) {
                if body.kind != BodyKind::Static {
                    let _ = store.set_position(h, drift(body.position, body.velocity, dt));
                }
            }
        }
        i += 1;
    }
    proof {
        assert forall|g: Handle| #[trigger] store.live(g) implies g.index < n by {
            store.lemma_live_in_range(g);
        }
        assert(store@ =~= all_carried(old(store)@, dt));
    }
}

/// How deep two stretches with middles `a` and `b` reach into each other,
/// where `reach` is the sum of their half lengths; not positive if they do
/// not.
pub open spec fn depth(a: int, b: int, reach: int) -> int {
    if a >= b {
        reach - (a - b)
    } else {
        reach - (b - a)
    }
}

/// `n` over `d`, rounded toward zero.
pub open spec fn toward_zero(n: int, d: int) -> int {
    if n >= 0 {
        n / d
    } else {
        -((-n) / d)
    }
}

/// The push that takes the first of two circles out of the second, where
/// `reach` is the sum of their radii: along the line from the second centre
/// to the first, by what the distance of the centres lacks of `reach`, each
/// component rounded toward zero. Circles with one centre are pushed apart
/// along x. Circles that do not reach into each other are not pushed.
pub open spec fn radial_push(a: Body, b: Body, reach: int) -> (int, int) {
    let dx = a.position.x - b.position.x;
    let dy = a.position.y - b.position.y;
    let squared = dx * dx + dy * dy;
    if squared >= reach * reach {
        (0, 0)
    } else if squared == 0 {
        (reach, 0)
    } else {
        let length = root_of(squared);
        (toward_zero(dx * (reach - length), length), toward_zero(dy * (reach - length), length))
    }
}

/// The push that takes the first of two bodies out of the second by the
/// boxes around them: along the axis on which the boxes reach less deep
/// into each other (along x if both are the same), away from the second
/// body, by that depth. Boxes that do not reach into each other on both
/// axes are not pushed.
pub open spec fn axial_push(a: Body, b: Body) -> (int, int) {
    let deep_x = depth(
        a.position.x as int,
        b.position.x as int,
        half_extents(a.shape).0 + half_extents(b.shape).0,
    );
    let deep_y = depth(
        a.position.y as int,
        b.position.y as int,
        half_extents(a.shape).1 + half_extents(b.shape).1,
    );
    if deep_x <= 0 || deep_y <= 0 {
        (0, 0)
    } else if deep_x <= deep_y {
        if a.position.x >= b.position.x {
            (deep_x, 0)
        } else {
            (-deep_x, 0)
        }
    } else {
        if a.position.y >= b.position.y {
            (0, deep_y)
        } else {
            (0, -deep_y)
        }
    }
}

/// The shortest move that takes the first body out of the second: for two
/// circles along the line of their centres, for any other pair along an
/// axis.
pub open spec fn push_of(a: Body, b: Body) -> (int, int) {
    match (a.shape, b.shape) {
        (Shape::Circle { radius: ra }, Shape::Circle { radius: rb }) => radial_push(a, b, ra + rb),
        _ => axial_push(a, b),
    }
}

/// How one component of a push is shared between the first and the second
/// body of a pair. Two dynamic bodies share it, the first taking the half
/// rounded toward zero and the second the rest, the other way; a dynamic
/// body gives way alone to a static one; no other pair is parted.
pub open spec fn split(first: BodyKind, second: BodyKind, push: int) -> (int, int) {
    match (first, second) {
        (BodyKind::Dynamic, BodyKind::Dynamic) => (
            toward_zero(push, 2),
            -(push - toward_zero(push, 2)),
        ),
        (BodyKind::Dynamic, BodyKind::Static) => (push, 0),
        (BodyKind::Static, BodyKind::Dynamic) => (0, -push),
        _ => (0, 0),
    }
}

/// The moves that part two bodies: each body's share of the push that
/// takes the first out of the second.
pub open spec fn parting(a: Body, b: Body) -> (Vector, Vector) {
    let push = push_of(a, b);
    let along_x = split(a.kind, b.kind, push.0);
    let along_y = split(a.kind, b.kind, push.1);
    (
        Vector { x: along_x.0 as i64, y: along_y.0 as i64 },
        Vector { x: along_x.1 as i64, y: along_y.1 as i64 },
    )
}

/// A body moved by `by`, each coordinate stopping at the ends of the range
/// of `i64`.
pub open spec fn shifted(body: Body, by: Vector) -> Body {
    Body {
        position: Vector {
            x: clamped(body.position.x + by.x) as i64,
            y: clamped(body.position.y + by.y) as i64,
        },
        ..body
    }
}

/// The bodies after the two of the contact `c` have been parted.
pub open spec fn resolved(bodies: Map<Handle, Body>, c: Contact) -> Map<Handle, Body> {
    if bodies.dom().contains(c.first) && bodies.dom().contains(c.second) && c.first != c.second {
        let moves = parting(bodies[c.first], bodies[c.second]);
        bodies.insert(c.first, shifted(bodies[c.first], moves.0)).insert(
            c.second,
            shifted(bodies[c.second], moves.1),
        )
    } else {
        bodies
    }
}

/// The bodies after the pairs of `contacts` have been parted in turn.
pub open spec fn resolved_all(bodies: Map<Handle, Body>, contacts: Seq<Contact>) -> Map<
    Handle,
    Body,
>
    decreases contacts.len(),
{
    if contacts.len() == 0 {
        bodies
    } else {
        resolved(resolved_all(bodies, contacts.drop_last()), contacts.last())
    }
}

/// The depth of two stretches, held to zero where they do not reach into
/// each other.
fn depth_of(a: i64, b: i64, reach: i64) -> (deep: i64)
    requires
        0 <= reach <= 0x2_0000_0000,
    ensures
        deep == if depth(a as int, b as int, reach as int) > 0 {
            depth(a as int, b as int, reach as int)
        } else {
            0
        },
{
    let apart: i128 = if a >= b {
        a as i128 - b as i128
    } else {
        b as i128 - a as i128
    };
    if apart >= reach as i128 {
        0
    } else {
        (reach as i128 - apart) as i64
    }
}

fn extents_of(shape: Shape) -> (reach: (i64, i64))
    ensures
        reach.0 == half_extents(shape).0,
        reach.1 == half_extents(shape).1,
{
    match shape {
        Shape::Circle { radius } => (radius as i64, radius as i64),
        Shape::Rectangle { half_width, half_height } => (half_width as i64, half_height as i64),
    }
}

fn axial(a: Body, b: Body) -> (push: (i64, i64))
    ensures
        push.0 == axial_push(a, b).0,
        push.1 == axial_push(a, b).1,
        -0x2_0000_0000 <= push.0 <= 0x2_0000_0000,
        -0x2_0000_0000 <= push.1 <= 0x2_0000_0000,
{
    let ra = extents_of(a.shape);
    let rb = extents_of(b.shape);
    let deep_x = depth_of(a.position.x, b.position.x, ra.0 + rb.0);
    let deep_y = depth_of(a.position.y, b.position.y, ra.1 + rb.1);
    if deep_x <= 0 || deep_y <= 0 {
        (0, 0)
    } else if deep_x <= deep_y {
        if a.position.x >= b.position.x {
            (deep_x, 0)
        } else {
            (-deep_x, 0)
        }
    } else {
        if a.position.y >= b.position.y {
            (0, deep_y)
        } else {
            (0, -deep_y)
        }
    }
}

/// One component of the push between two circles: `size` is how far the
/// centres lie apart along the axis, `forth` whether the first lies on the
/// side of the greater coordinates.
fn radial_component(size: u64, forth: bool, deep: u64, length: u64) -> (push: i64)
    requires
        size <= length,
        1 <= length,
        deep <= 0x2_0000_0000,
        length <= 0x2_0000_0000,
    ensures
        push == toward_zero(
            if forth {
                size * deep
            } else {
                -(size * deep)
            },
            length as int,
        ),
        -0x2_0000_0000 <= push <= 0x2_0000_0000,
{
    proof {
        assert(0 <= size * deep <= length * deep) by (nonlinear_arith)
            requires
                0 <= size <= length,
                0 <= deep,
        ;
        assert(length * deep <= 0x2_0000_0000 * 0x2_0000_0000) by (nonlinear_arith)
            requires
                0 <= length <= 0x2_0000_0000,
                0 <= deep <= 0x2_0000_0000,
        ;
        assert(0x2_0000_0000int * 0x2_0000_0000int == 0x4_0000_0000_0000_0000int)
            by (nonlinear_arith);
        let n = size * deep;
        let d = length as int;
        assert(0 <= n / d <= deep) by (nonlinear_arith)
            requires
                0 <= n <= d * deep,
                1 <= d,
        ;
    }
    let whole: u128 = (size as u128) * (deep as u128) / (length as u128);
    if forth {
        whole as i64
    } else {
        -(whole as i64)
    }
}

fn radial(a: Body, b: Body, reach: u64) -> (push: (i64, i64))
    requires
        reach <= 0x1_ffff_fffe,
    ensures
        push.0 == radial_push(a, b, reach as int).0,
        push.1 == radial_push(a, b, reach as int).1,
        -0x2_0000_0000 <= push.0 <= 0x2_0000_0000,
        -0x2_0000_0000 <= push.1 <= 0x2_0000_0000,
{
    let apart_x = distance(a.position.x, b.position.x);
    let apart_y = distance(a.position.y, b.position.y);
    let ghost dx = a.position.x - b.position.x;
    let ghost dy = a.position.y - b.position.y;
    proof {
        assert(dx * dx == apart_x * apart_x) by (nonlinear_arith)
            requires
                apart_x == dx || apart_x == -dx,
        ;
        assert(dy * dy == apart_y * apart_y) by (nonlinear_arith)
            requires
                apart_y == dy || apart_y == -dy,
        ;
        lemma_squares(reach as int, apart_x as int);
        lemma_squares(reach as int, apart_y as int);
        lemma_squares(0, apart_x as int);
        lemma_squares(0, apart_y as int);
        lemma_squares(reach as int, 0x2_0000_0000);
        assert(0x2_0000_0000int * 0x2_0000_0000int == 0x4_0000_0000_0000_0000int)
            by (nonlinear_arith);
    }
    if apart_x > reach as u128 || apart_y > reach as u128 {
        return (0, 0);
    }
    proof {
        lemma_squares(apart_x as int, reach as int);
        lemma_squares(apart_y as int, reach as int);
    }
    let squared: u128 = apart_x * apart_x + apart_y * apart_y;
    if squared >= (reach as u128) * (reach as u128) {
        (0, 0)
    } else if squared == 0 {
        (reach as i64, 0)
    } else {
        let length = whole_root(squared);
        proof {
            if length >= reach {
                lemma_squares(reach as int, length as int);
            }
            if length == 0 {
                assert((length + 1) * (length + 1) == 1) by (nonlinear_arith)
                    requires
                        length == 0,
                ;
            }
            if apart_x > length {
                lemma_squares(length as int + 1, apart_x as int);
            }
            if apart_y > length {
                lemma_squares(length as int + 1, apart_y as int);
            }
        }
        let deep: u64 = reach - length;
        let forth_x = a.position.x >= b.position.x;
        let forth_y = a.position.y >= b.position.y;
        proof {
            assert(dx * (reach - length) == if forth_x {
                apart_x * deep
            } else {
                -(apart_x * deep)
            }) by (nonlinear_arith)
                requires
                    deep == reach - length,
                    forth_x ==> dx == apart_x,
                    !forth_x ==> dx == -apart_x,
            ;
            assert(dy * (reach - length) == if forth_y {
                apart_y * deep
            } else {
                -(apart_y * deep)
            }) by (nonlinear_arith)
                requires
                    deep == reach - length,
                    forth_y ==> dy == apart_y,
                    !forth_y ==> dy == -apart_y,
            ;
        }
        (
            radial_component(apart_x as u64, forth_x, deep, length),
            radial_component(apart_y as u64, forth_y, deep, length),
        )
    }
}

fn split_of(first: BodyKind, second: BodyKind, push: i64) -> (parts: (i64, i64))
    requires
        -0x2_0000_0000 <= push <= 0x2_0000_0000,
    ensures
        parts.0 == split(first, second, push as int).0,
        parts.1 == split(first, second, push as int).1,
{
    match (first, second) {
        (BodyKind::Dynamic, BodyKind::Dynamic) => {
            let half: i64 = if push >= 0 {
                push / 2
            } else {
                -((-push) / 2)
            };
            (half, -(push - half))
        },
        (BodyKind::Dynamic, BodyKind::Static) => (push, 0),
        (BodyKind::Static, BodyKind::Dynamic) => (0, -push),
        _ => (0, 0),
    }
}

/// The moves that part two bodies.
#[verifier::when_used_as_spec(parting)]
pub fn part(a: Body, b: Body) -> (moves: (Vector, Vector))
    ensures
        moves == parting(a, b),
{
    let push = match (a.shape, b.shape) {
        (Shape::Circle { radius: ra }, Shape::Circle { radius: rb }) => radial(
            a,
            b,
            ra as u64 + rb as u64,
        ),
        _ => axial(a, b),
    };
    let along_x = split_of(a.kind, b.kind, push.0);
    let along_y = split_of(a.kind, b.kind, push.1);
    (Vector { x: along_x.0, y: along_y.0 }, Vector { x: along_x.1, y: along_y.1 })
}

/// The place of a body moved by `by`.
fn shift(position: Vector, by: Vector) -> (place: Vector)
    ensures
        place.x == clamped(position.x + by.x),
        place.y == clamped(position.y + by.y),
{
    Vector { x: shift_component(position.x, by.x), y: shift_component(position.y, by.y) }
}

fn shift_component(value: i64, by: i64) -> (v: i64)
    ensures
        v == clamped(value + by),
{
    let sum: i128 = value as i128 + by as i128;
    if sum < i64::MIN as i128 {
        i64::MIN
    } else if sum > i64::MAX as i128 {
        i64::MAX
    } else {
        sum as i64
    }
}

/// Parts the two bodies of a contact. A contact with a handle that names no
/// body, or with one body twice, changes nothing.
pub fn resolve(store: &mut BodyStore, c: Contact)
    ensures
        final(store)@ == resolved(old(store)@, c),
        final(store).slot_count() == old(store).slot_count(),
        forall|g: Handle| #[trigger] final(store).issued(g) <==> old(store).issued(g),
        old(store).precedes(final(store)),
{
    if c.first == c.second {
        return ;
    }
    if let Ok(a) = store.get(c.first) {
        if let Ok(b) = store.get(c.second) {
            let (move_a, move_b) = part(a, b);
            let _ = store.set_position(c.first, shift(a.position, move_a));
            let _ = store.set_position(c.second, shift(b.position, move_b));
            assert(store@ =~= resolved(old(store)@, c));
        }
    }
}

/// Parts the pairs of `contacts` in turn, each as the bodies stand after
/// the pairs before it.
pub fn resolve_all(store: &mut BodyStore, contacts: &Vec<Contact>)
    ensures
        final(store)@ == resolved_all(old(store)@, contacts@),
        final(store).slot_count() == old(store).slot_count(),
        forall|g: Handle| #[trigger] final(store).issued(g) <==> old(store).issued(g),
        old(store).precedes(final(store)),
{
    let mut i: usize = 0;
    while i < contacts.len()
        invariant
            i <= contacts@.len(),
            store@ == resolved_all(old(store)@, contacts@.take(i as int)),
            store.slot_count() == old(store).slot_count(),
            forall|g: Handle| #[trigger] store.issued(g) <==> old(store).issued(g),
            old(store).precedes(store),
        decreases contacts@.len() - i,
    {
        resolve(store, contacts[i]);
        proof {
            assert(contacts@.take(i + 1).drop_last() == contacts@.take(i as int));
        }
        i += 1;
    }
    assert(contacts@.take(contacts@.len() as int) == contacts@);
}

/// A body after the players have steered for `dt` microseconds: the queens
/// by their players' movement wishes, the workers by the swarm wishes.
pub open spec fn steered_body(
    body: Body,
    actions: Actions,
    queen_scale: u32,
    worker_scale: u32,
    dt: u32,
) -> Body {
    let queens = accelerated(
        accelerated(body, Role::Queen, Owner::Player1, actions.p1_movement, queen_scale, dt),
        Role::Queen,
        Owner::Player2,
        actions.p2_movement,
        queen_scale,
        dt,
    );
    accelerated(
        accelerated(
            queens,
            Role::Worker,
            Owner::Player1,
            actions.p1_bee_movement,
            worker_scale,
            dt,
        ),
        Role::Worker,
        Owner::Player2,
        actions.p2_bee_movement,
        worker_scale,
        dt,
    )
}

/// The bodies after the players have steered for `dt` microseconds.
pub open spec fn all_steered(
    bodies: Map<Handle, Body>,
    actions: Actions,
    queen_scale: u32,
    worker_scale: u32,
    dt: u32,
) -> Map<Handle, Body> {
    Map::new(
        |h: Handle| bodies.dom().contains(h),
        |h: Handle| steered_body(bodies[h], actions, queen_scale, worker_scale, dt),
    )
}

/// The bodies of a sub-step as the detector sees them: after gravity, then
/// steering, then motion, each over the `dt` microseconds of the sub-step.
pub open spec fn in_motion(
    bodies: Map<Handle, Body>,
    actions: Actions,
    settings: Settings,
    dt: u32,
) -> Map<Handle, Body> {
    all_carried(
        all_steered(
            all_pulled(bodies, settings.gravity, dt),
            actions,
            settings.queen_scale,
            settings.worker_scale,
            dt,
        ),
        dt,
    )
}

/// Whether a sub-step of `dt` microseconds leads from `before` to `after`
/// with `contacts` as what it detected: the contacts are those of the
/// bodies in motion, and the bodies end as these contacts part them.
pub open spec fn is_substep(
    before: Map<Handle, Body>,
    after: Map<Handle, Body>,
    contacts: Seq<Contact>,
    actions: Actions,
    settings: Settings,
    dt: u32,
) -> bool {
    let moving = in_motion(before, actions, settings, dt);
    lists_contacts(contacts, moving) && after == resolved_all(moving, contacts)
}

/// Simulates one sub-step of `dt` microseconds: gravity pulls, the players
/// steer, the bodies move, and those that ran into each other are parted.
/// The answer is what touched before the parting.
pub fn substep(store: &mut BodyStore, actions: &Actions, settings: &Settings, dt: u32) -> (contacts:
    Vec<Contact>)
    ensures
        is_substep(old(store)@, final(store)@, contacts@, *actions, *settings, dt),
        final(store).slot_count() == old(store).slot_count(),
        forall|g: Handle| #[trigger] final(store).issued(g) <==> old(store).issued(g),
        old(store).precedes(final(store)),
{
    apply_gravity(store, settings.gravity, dt);
    let ghost pulled_store = *store;
    queen_bee_movement(store, actions, settings.queen_scale, dt);
    let ghost queens_store = *store;
    worker_bee_movement(store, actions, settings.worker_scale, dt);
    proof {
        assert(store@ =~= all_steered(
            pulled_store@,
            *actions,
            settings.queen_scale,
            settings.worker_scale,
            dt,
        ));
    }
    advance_positions(store, dt);
    let contacts = detect(store);
    resolve_all(store, &contacts);
    contacts
}

/// Whether `steps` sub-steps of `dt` microseconds lead from `before` to
/// `after`, where `previous` is what touched before the first of them: each
/// step's contacts are those of its sub-step, and what it tells as begun
/// and ended is told against the contacts of the step before.
pub open spec fn is_run(
    before: Map<Handle, Body>,
    previous: Seq<Contact>,
    after: Map<Handle, Body>,
    steps: Seq<Events>,
    actions: Actions,
    settings: Settings,
    dt: u32,
) -> bool
    decreases steps.len(),
{
    if steps.len() == 0 {
        after == before
    } else {
        let earlier = steps.drop_last();
        let then = if earlier.len() == 0 {
            previous
        } else {
            earlier.last().contacts@
        };
        &&& lists_fresh(steps.last().started@, steps.last().contacts@, then)
        &&& lists_fresh(steps.last().ended@, then, steps.last().contacts@)
        &&& exists|mid: Map<Handle, Body>|
            is_run(before, previous, mid, earlier, actions, settings, dt) && #[trigger] is_substep(
                mid,
                after,
                steps.last().contacts@,
                actions,
                settings,
                dt,
            )
    }
}

/// The length of a sub-step of a frame of `frame_dt` microseconds: the
/// frame divided by the number of sub-steps. A remainder is dropped.
pub open spec fn substep_length(settings: Settings, frame_dt: u32) -> u32 {
    (frame_dt / settings.substeps) as u32
}

/// Simulates a frame of `frame_dt` microseconds in the configured number of
/// equal sub-steps. Every rate is applied over the length of a sub-step,
/// never over that of the frame. The answer holds, for each sub-step, what
/// touched in it and which contacts began and ended with it; `previous` is
/// what touched in the last sub-step of the frame before.
pub fn simulate(
    store: &mut BodyStore,
    previous: &Vec<Contact>,
    actions: &Actions,
    settings: &Settings,
    frame_dt: u32,
) -> (steps: Vec<Events>)
    requires
        settings.valid(),
    ensures
        steps@.len() == settings.substeps,
        is_run(
            old(store)@,
            previous@,
            final(store)@,
            steps@,
            *actions,
            *settings,
            substep_length(*settings, frame_dt),
        ),
        final(store).slot_count() == old(store).slot_count(),
        forall|g: Handle| #[trigger] final(store).issued(g) <==> old(store).issued(g),
        old(store).precedes(final(store)),
{
    let dt: u32 = frame_dt / settings.substeps;
    let mut steps: Vec<Events> = Vec::new();
    let mut i: u32 = 0;
    while i < settings.substeps
        invariant
            i <= settings.substeps,
            steps@.len() == i,
            dt == substep_length(*settings, frame_dt),
            is_run(old(store)@, previous@, store@, steps@, *actions, *settings, dt),
            store.slot_count() == old(store).slot_count(),
            forall|g: Handle| #[trigger] store.issued(g) <==> old(store).issued(g),
            old(store).precedes(store),
        decreases settings.substeps - i,
    {
        let ghost mid = store@;
        let ghost earlier = steps@;
        let contacts = substep(store, actions, settings, dt);
        let n: usize = steps.len();
        let ghost then = if n == 0 {
            previous@
        } else {
            earlier.last().contacts@
        };
        let (started, ended) = if n == 0 {
            (fresh(&contacts, previous), fresh(previous, &contacts))
        } else {
            (fresh(&contacts, &steps[n - 1].contacts), fresh(&steps[n - 1].contacts, &contacts))
        };
        assert(lists_fresh(started@, contacts@, then));
        assert(lists_fresh(ended@, then, contacts@));
        let ghost found = contacts@;
        let events = Events { contacts, started, ended };
        assert(events.contacts@ == found);
        steps.push(events);
        proof {
            assert(steps@.drop_last() == earlier);
            assert(steps@.last() == events);
            assert(is_run(old(store)@, previous@, mid, earlier, *actions, *settings, dt));
            assert(is_substep(mid, store@, found, *actions, *settings, dt));
        }
        i += 1;
    }
    steps
}

/// The contacts that began in the sub-steps of `steps`, in turn.
pub open spec fn all_begun(steps: Seq<Events>) -> Seq<Contact>
    decreases steps.len(),
{
    if steps.len() == 0 {
        Seq::<Contact>::empty()
    } else {
        all_begun(steps.drop_last()) + steps.last().started@
    }
}

/// Gathers the contacts that began in a frame, sub-step after sub-step, for
/// the rules of the game.
pub fn begun_in(steps: &Vec<Events>) -> (begun: Vec<Contact>)
    ensures
        begun@ == all_begun(steps@),
{
    let mut begun: Vec<Contact> = Vec::new();
    let mut i: usize = 0;
    while i < steps.len()
        invariant
            i <= steps@.len(),
            begun@ == all_begun(steps@.take(i as int)),
        decreases steps@.len() - i,
    {
        let ghost start = begun@;
        let list = &steps[i].started;
        let mut j: usize = 0;
        while j < list.len()
            invariant
                j <= list@.len(),
                begun@ == start + list@.take(j as int),
            decreases list@.len() - j,
        {
            begun.push(list[j]);
            assert(list@.take(j + 1) == list@.take(j as int).push(list@[j as int]));
            j += 1;
        }
        proof {
            assert(list@.take(list@.len() as int) == list@);
            assert(steps@.take(i + 1).drop_last() == steps@.take(i as int));
        }
        i += 1;
    }
    assert(steps@.take(steps@.len() as int) == steps@);
    begun
}

/// Parting moves bodies and does nothing else: the same handles name
/// bodies afterwards, each with the velocity it had.
pub proof fn lemma_parting_keeps_velocity(
    bodies: Map<Handle, Body>,
    contacts: Seq<Contact>,
    h: Handle,
)
    ensures
        resolved_all(bodies, contacts).dom().contains(h) <==> bodies.dom().contains(h),
        bodies.dom().contains(h) ==> resolved_all(bodies, contacts)[h].velocity
            == bodies[h].velocity,
    decreases contacts.len(),
{
    if contacts.len() > 0 {
        lemma_parting_keeps_velocity(bodies, contacts.drop_last(), h);
        lemma_parting_keeps_velocity(bodies, contacts.drop_last(), contacts.last().first);
        lemma_parting_keeps_velocity(bodies, contacts.drop_last(), contacts.last().second);
    }
}

/// Whether nobody steers: all four wishes are zero.
pub open spec fn idle(actions: Actions) -> bool {
    &&& actions.p1_movement.is_zero()
    &&& actions.p2_movement.is_zero()
    &&& actions.p1_bee_movement.is_zero()
    &&& actions.p2_bee_movement.is_zero()
}

/// While nobody steers and there is no gravity, a sub-step leaves every
/// velocity as it was: no drift arises by itself, whatever the bodies run
/// into.
pub proof fn lemma_idle_substep_keeps_velocity(
    before: Map<Handle, Body>,
    after: Map<Handle, Body>,
    contacts: Seq<Contact>,
    actions: Actions,
    settings: Settings,
    dt: u32,
    h: Handle,
)
    requires
        is_substep(before, after, contacts, actions, settings, dt),
        idle(actions),
        settings.gravity.is_zero(),
        before.dom().contains(h),
    ensures
        after.dom().contains(h),
        after[h].velocity == before[h].velocity,
{
    let zero = Vector { x: 0, y: 0 };
    let velocity = before[h].velocity;
    assert(0 * (dt as int) == 0) by (nonlinear_arith);
    assert(over_time(0, dt as int) == 0);
    assert(drifted(velocity, zero, dt) == velocity);
    lemma_zero_input_keeps_velocity(velocity, settings.queen_scale, dt, 1);
    lemma_zero_input_keeps_velocity(velocity, settings.worker_scale, dt, 1);
    reveal_with_fuel(steer_many, 2);
    let moving = in_motion(before, actions, settings, dt);
    assert(moving[h].velocity == velocity);
    lemma_parting_keeps_velocity(moving, contacts, h);
}

/// While nobody steers and there is no gravity, a run of sub-steps leaves
/// every velocity as it was, however many they are.
pub proof fn lemma_idle_run_keeps_velocity(
    before: Map<Handle, Body>,
    previous: Seq<Contact>,
    after: Map<Handle, Body>,
    steps: Seq<Events>,
    actions: Actions,
    settings: Settings,
    dt: u32,
    h: Handle,
)
    requires
        is_run(before, previous, after, steps, actions, settings, dt),
        idle(actions),
        settings.gravity.is_zero(),
        before.dom().contains(h),
    ensures
        after.dom().contains(h),
        after[h].velocity == before[h].velocity,
    decreases steps.len(),
{
    if steps.len() > 0 {
        let earlier = steps.drop_last();
        let mid = choose|mid: Map<Handle, Body>|
            is_run(before, previous, mid, earlier, actions, settings, dt) && #[trigger] is_substep(
                mid,
                after,
                steps.last().contacts@,
                actions,
                settings,
                dt,
            );
        lemma_idle_run_keeps_velocity(before, previous, mid, earlier, actions, settings, dt, h);
        lemma_idle_substep_keeps_velocity(
            mid,
            after,
            steps.last().contacts@,
            actions,
            settings,
            dt,
            h,
        );
    }
}

} // verus!
