//! Which bodies touch: what layers and masks admit, the exact test per
//! pair of shapes, and the contacts that begin and end between two steps.

use crate::body::{Body, BodyKind, BodyStore, Handle, Shape};
use crate::vector::Vector;
use vstd::prelude::*;

verus! {

/// Two bodies that touch, the one in the lower slot first.
#[derive(Clone, Copy, Debug, PartialEq, Eq, Structural)]
pub struct Contact {
    pub first: Handle,
    pub second: Handle,
}

/// Whether two bodies may touch at all: each one's mask admits a group that
/// the other belongs to.
pub open spec fn may_collide_spec(a: Body, b: Body) -> bool {
    (a.mask & b.layer) != 0 && (b.mask & a.layer) != 0
}

#[verifier::when_used_as_spec(may_collide_spec)]
pub fn may_collide(a: Body, b: Body) -> (allowed: bool)
    ensures
        allowed == may_collide_spec(a, b),
        allowed == may_collide_spec(b, a),
{
    (a.mask & b.layer) != 0 && (b.mask & a.layer) != 0
}

/// How far `c` lies outside the stretch of half-width `half` around
/// `center`; zero inside it.
pub open spec fn gap(c: int, center: int, half: int) -> int {
    if c < center - half {
        center - half - c
    } else if c > center + half {
        c - center - half
    } else {
        0
    }
}

/// Whether a circle reaches a rectangle: the point of the rectangle nearest
/// to the circle's centre is no farther from it than the radius.
pub open spec fn circle_meets_box(
    centre: Vector,
    radius: int,
    middle: Vector,
    half_width: int,
    half_height: int,
) -> bool {
    let gx = gap(centre.x as int, middle.x as int, half_width);
    let gy = gap(centre.y as int, middle.y as int, half_height);
    gx * gx + gy * gy <= radius * radius
}

/// The distance of two coordinates.
pub open spec fn apart(a: int, b: int) -> int {
    if a < b {
        b - a
    } else {
        a - b
    }
}

/// Whether the shapes of two bodies overlap or touch where they stand.
pub open spec fn overlap_spec(a: Body, b: Body) -> bool {
    match (a.shape, b.shape) {
        (Shape::Circle { radius: ra }, Shape::Circle { radius: rb }) => {
            let dx = a.position.x - b.position.x;
            let dy = a.position.y - b.position.y;
            dx * dx + dy * dy <= (ra + rb) * (ra + rb)
        },
        (Shape::Circle { radius }, Shape::Rectangle { half_width, half_height }) => {
            circle_meets_box(
                a.position,
                radius as int,
                b.position,
                half_width as int,
                half_height as int,
            )
        },
        (Shape::Rectangle { half_width, half_height }, Shape::Circle { radius }) => {
            circle_meets_box(
                b.position,
                radius as int,
                a.position,
                half_width as int,
                half_height as int,
            )
        },
        (
            Shape::Rectangle { half_width: wa, half_height: ha },
            Shape::Rectangle { half_width: wb, half_height: hb },
        ) => {
            apart(a.position.x as int, b.position.x as int) <= wa + wb && apart(
                a.position.y as int,
                b.position.y as int,
            ) <= ha + hb
        },
    }
}

proof fn lemma_square_grows(a: int, b: int)
    requires
        0 <= a,
        0 <= b,
    ensures
        a <= b ==> a * a <= b * b,
        a > b ==> a * a > b * b,
        0 <= a * a,
{
    assert(a <= b ==> a * a <= b * b) by (nonlinear_arith)
        requires
            0 <= a,
            0 <= b,
    ;
    assert(a > b ==> a * a > b * b) by (nonlinear_arith)
        requires
            0 <= a,
            0 <= b,
    ;
    assert(0 <= a * a) by (nonlinear_arith);
}

/// Whether two offsets, each given by its size, lie within `reach` of the
/// origin together.
fn within(dx: u128, dy: u128, reach: u64) -> (inside: bool)
    requires
        reach <= 0x2_0000_0000,
    ensures
        inside == (dx * dx + dy * dy <= reach * reach),
{
    proof {
        lemma_square_grows(dx as int, reach as int);
        lemma_square_grows(dy as int, reach as int);
        lemma_square_grows(reach as int, 0x2_0000_0000);
        assert(0x2_0000_0000int * 0x2_0000_0000int == 0x4_0000_0000_0000_0000int)
            by (nonlinear_arith);
    }
    if dx > reach as u128 || dy > reach as u128 {
        false
    } else {
        dx * dx + dy * dy <= (reach as u128) * (reach as u128)
    }
}

/// The distance of two coordinates.
pub fn distance(a: i64, b: i64) -> (d: u128)
    ensures
        d == apart(a as int, b as int),
{
    if a < b {
        (b as i128 - a as i128) as u128
    } else {
        (a as i128 - b as i128) as u128
    }
}

/// How far `c` lies outside the stretch around `center`.
fn gap_of(c: i64, center: i64, half: u32) -> (g: u128)
    ensures
        g == gap(c as int, center as int, half as int),
{
    let low: i128 = center as i128 - half as i128;
    let high: i128 = center as i128 + half as i128;
    if (c as i128) < low {
        (low - c as i128) as u128
    } else if (c as i128) > high {
        (c as i128 - high) as u128
    } else {
        0
    }
}

/// The exact test of two bodies' shapes against each other.
#[verifier::when_used_as_spec(overlap_spec)]
pub fn overlap(a: Body, b: Body) -> (touching: bool)
    ensures
        touching == overlap_spec(a, b),
{
    match (a.shape, b.shape) {
        (Shape::Circle { radius: ra }, Shape::Circle { radius: rb }) => {
            let dx = distance(a.position.x, b.position.x);
            let dy = distance(a.position.y, b.position.y);
            proof {
                let sx = a.position.x - b.position.x;
                let sy = a.position.y - b.position.y;
                assert(sx * sx == dx * dx) by (nonlinear_arith)
                    requires
                        dx == sx || dx == -sx,
                ;
                assert(sy * sy == dy * dy) by (nonlinear_arith)
                    requires
                        dy == sy || dy == -sy,
                ;
            }
            within(dx, dy, ra as u64 + rb as u64)
        },
        (Shape::Circle { radius }, Shape::Rectangle { half_width, half_height }) => {
            let gx = gap_of(a.position.x, b.position.x, half_width);
            let gy = gap_of(a.position.y, b.position.y, half_height);
            within(gx, gy, radius as u64)
        },
        (Shape::Rectangle { half_width, half_height }, Shape::Circle { radius }) => {
            let gx = gap_of(b.position.x, a.position.x, half_width);
            let gy = gap_of(b.position.y, a.position.y, half_height);
            within(gx, gy, radius as u64)
        },
        (
            Shape::Rectangle { half_width: wa, half_height: ha },
            Shape::Rectangle { half_width: wb, half_height: hb },
        ) => {
            distance(a.position.x, b.position.x) <= (wa as u128 + wb as u128) && distance(
                a.position.y,
                b.position.y,
            ) <= (ha as u128 + hb as u128)
        },
    }
}

/// How far a shape reaches from its middle along x and along y: the half
/// extents of the box around it.
pub open spec fn half_extents(shape: Shape) -> (int, int) {
    match shape {
        Shape::Circle { radius } => (radius as int, radius as int),
        Shape::Rectangle { half_width, half_height } => (half_width as int, half_height as int),
    }
}

/// Whether the boxes around two bodies overlap or touch. Bodies whose boxes
/// lie apart cannot overlap, so the exact test is spared for them.
pub open spec fn boxes_meet_spec(a: Body, b: Body) -> bool {
    &&& apart(a.position.x as int, b.position.x as int) <= half_extents(a.shape).0
        + half_extents(b.shape).0
    &&& apart(a.position.y as int, b.position.y as int) <= half_extents(a.shape).1
        + half_extents(b.shape).1
}

/// The coarse test of two bodies by the boxes around them. Whatever
/// overlaps passes it.
#[verifier::when_used_as_spec(boxes_meet_spec)]
pub fn boxes_meet(a: Body, b: Body) -> (near: bool)
    ensures
        near == boxes_meet_spec(a, b),
        overlap_spec(a, b) ==> near,
{
    proof {
        if overlap_spec(a, b) {
            lemma_overlap_within_boxes(a, b);
        }
    }
    let (wa, ha) = match a.shape {
        Shape::Circle { radius } => (radius as u128, radius as u128),
        Shape::Rectangle { half_width, half_height } => (half_width as u128, half_height as u128),
    };
    let (wb, hb) = match b.shape {
        Shape::Circle { radius } => (radius as u128, radius as u128),
        Shape::Rectangle { half_width, half_height } => (half_width as u128, half_height as u128),
    };
    distance(a.position.x, b.position.x) <= wa + wb && distance(a.position.y, b.position.y) <= ha
        + hb
}

/// Shapes that overlap have overlapping boxes around them.
pub proof fn lemma_overlap_within_boxes(a: Body, b: Body)
    requires
        overlap_spec(a, b),
    ensures
        boxes_meet_spec(a, b),
{
    match (a.shape, b.shape) {
        (Shape::Circle { radius: ra }, Shape::Circle { radius: rb }) => {
            let dx = a.position.x - b.position.x;
            let dy = a.position.y - b.position.y;
            let reach = ra + rb;
            assert(apart(a.position.x as int, b.position.x as int) <= reach && apart(
                a.position.y as int,
                b.position.y as int,
            ) <= reach) by (nonlinear_arith)
                requires
                    dx * dx + dy * dy <= reach * reach,
                    reach >= 0,
                    apart(a.position.x as int, b.position.x as int) == dx || apart(
                        a.position.x as int,
                        b.position.x as int,
                    ) == -dx,
                    apart(a.position.y as int, b.position.y as int) == dy || apart(
                        a.position.y as int,
                        b.position.y as int,
                    ) == -dy,
            ;
        },
        (Shape::Circle { radius }, Shape::Rectangle { half_width, half_height }) => {
            lemma_gaps_within_radius(
                gap(a.position.x as int, b.position.x as int, half_width as int),
                gap(a.position.y as int, b.position.y as int, half_height as int),
                radius as int,
            );
        },
        (Shape::Rectangle { half_width, half_height }, Shape::Circle { radius }) => {
            lemma_gaps_within_radius(
                gap(b.position.x as int, a.position.x as int, half_width as int),
                gap(b.position.y as int, a.position.y as int, half_height as int),
                radius as int,
            );
        },
        (Shape::Rectangle { .. }, Shape::Rectangle { .. }) => {},
    }
}

proof fn lemma_gaps_within_radius(gx: int, gy: int, radius: int)
    requires
        0 <= gx,
        0 <= gy,
        0 <= radius,
        gx * gx + gy * gy <= radius * radius,
    ensures
        gx <= radius,
        gy <= radius,
{
    lemma_square_grows(gx, radius);
    lemma_square_grows(gy, radius);
    lemma_square_grows(gx, 0);
    lemma_square_grows(gy, 0);
}

/// Whether two bodies can come into contact: their layers and masks admit
/// each other, and they are not both static. Two static bodies never make a
/// contact, since neither can have moved into the other.
pub open spec fn can_meet(a: Body, b: Body) -> bool {
    may_collide_spec(a, b) && !(a.kind == BodyKind::Static && b.kind == BodyKind::Static)
}

/// Whether the pair touches among `bodies`: both handles name a body, the
/// first in a lower slot, the two can come into contact, and their shapes
/// overlap.
pub open spec fn touching_in(bodies: Map<Handle, Body>, c: Contact) -> bool {
    &&& bodies.dom().contains(c.first)
    &&& bodies.dom().contains(c.second)
    &&& c.first.index < c.second.index
    &&& can_meet(bodies[c.first], bodies[c.second])
    &&& overlap_spec(bodies[c.first], bodies[c.second])
}

/// Whether the detector reports the pair for this store.
pub open spec fn touching(store: &BodyStore, c: Contact) -> bool {
    touching_in(store@, c)
}

/// Whether `contacts` is the list of what touches among `bodies`: every
/// touching pair once, in rising order, and nothing else.
pub open spec fn lists_contacts(contacts: Seq<Contact>, bodies: Map<Handle, Body>) -> bool {
    &&& forall|c: Contact| #[trigger] contacts.contains(c) <==> touching_in(bodies, c)
    &&& in_order(contacts)
}

/// The test that a contact stands in no place of `then`.
pub open spec fn absent_from(then: Seq<Contact>) -> spec_fn(Contact) -> bool {
    |c: Contact| !then.contains(c)
}

/// Whether `begun` is the list of the contacts of `now` that `then` lacks,
/// in the order of `now`.
pub open spec fn lists_fresh(begun: Seq<Contact>, now: Seq<Contact>, then: Seq<Contact>) -> bool {
    begun == now.filter(absent_from(then))
}

/// Whether `c` comes before `d` in the order of a contact list: by the slot
/// of the first body, then by the slot of the second.
pub open spec fn comes_before(c: Contact, d: Contact) -> bool {
    c.first.index < d.first.index || (c.first.index == d.first.index && c.second.index
        < d.second.index)
}

/// Whether a contact list runs in strictly rising order, which leaves no
/// room for a pair to stand in it twice.
pub open spec fn in_order(contacts: Seq<Contact>) -> bool {
    forall|k: int, l: int|
        0 <= k < l < contacts.len() ==> comes_before(#[trigger] contacts[k], #[trigger] contacts[l])
}

/// Finds every pair of bodies that touch now. Pairs are first sifted by
/// kind, by layers and masks, and by the boxes around the shapes; the exact
/// test decides on the rest. A pair whose layers and masks do not admit
/// each other is never reported, however its shapes lie.
pub fn detect(store: &BodyStore) -> (contacts: Vec<Contact>)
    ensures
        forall|k: int| 0 <= k < contacts@.len() ==> touching(store, #[trigger] contacts@[k]),
        forall|c: Contact| #[trigger] touching(store, c) ==> contacts@.contains(c),
        in_order(contacts@),
        lists_contacts(contacts@, store@),
{
    let mut contacts: Vec<Contact> = Vec::new();
    let n: usize = store.slots();
    let mut i: usize = 0;
    while i < n
        invariant
            i <= n,
            n == store.slot_count(),
            forall|k: int| 0 <= k < contacts@.len() ==> touching(store, #[trigger] contacts@[k]),
            forall|k: int| 0 <= k < contacts@.len() ==> (#[trigger] contacts@[k]).first.index < i,
            forall|c: Contact| #[trigger]
                touching(store, c) && c.first.index < i ==> contacts@.contains(c),
            in_order(contacts@),
        decreases n - i,
    {
        if let Some(a) = store.handle_at(i) {
            if let Ok(body_a) = store.get(a) {
                let mut j: usize = i + 1;
                while j < n
                    invariant
                        i < j <= n,
                        i < n,
                        n == store.slot_count(),
                        a.index == i,
                        store.live(a),
                        body_a == store.body(a),
                        forall|g: Handle| g.index == i && #[trigger] store.live(g) ==> g == a,
                        forall|k: int|
                            0 <= k < contacts@.len() ==> touching(store, #[trigger] contacts@[k]),
                        forall|k: int|
                            0 <= k < contacts@.len() ==> {
                                let c = #[trigger] contacts@[k];
                                c.first.index < i || (c.first.index == i && c.second.index < j)
                            },
                        forall|c: Contact| #[trigger]
                            touching(store, c) && (c.first.index < i || (c.first.index == i
                                && c.second.index < j)) ==> contacts@.contains(c),
                        in_order(contacts@),
                    decreases n - j,
                {
                    let ghost before = contacts@;
                    if let Some(b) = store.handle_at(j) {
                        if let Ok(body_b) = store.get(b) {
                            let both_static = body_a.kind == BodyKind::Static && body_b.kind
                                == BodyKind::Static;
                            if !both_static && may_collide(body_a, body_b) && boxes_meet(
                                body_a,
                                body_b,
                            ) && overlap(body_a, body_b) {
                                contacts.push(Contact { first: a, second: b });
                            }
                        }
                    }
                    proof {
                        assert forall|c: Contact| #[trigger]
                            touching(store, c) && (c.first.index < i || (c.first.index == i
                                && c.second.index < j + 1)) implies contacts@.contains(c) by {
                            if c.first.index == i && c.second.index == j {
                                assert(c.first == a);
                                assert(contacts@[contacts@.len() - 1] == c);
                            } else {
                                let k = choose|k: int| 0 <= k < before.len() && before[k] == c;
                                assert(contacts@[k] == c);
                            }
                        }
                    }
                    j += 1;
                }
                proof {
                    assert forall|c: Contact| #[trigger]
                        touching(store, c) && c.first.index < i + 1 implies contacts@.contains(
                        c,
                    ) by {
                        store.lemma_live_in_range(c.second);
                    }
                }
            }
        }
        i += 1;
    }
    proof {
        assert forall|c: Contact| #[trigger] touching(store, c) implies contacts@.contains(c) by {
            store.lemma_live_in_range(c.first);
        }
        assert forall|c: Contact| #[trigger] contacts@.contains(c) implies touching_in(
            store@,
            c,
        ) by {
            let k = choose|k: int| 0 <= k < contacts@.len() && contacts@[k] == c;
            assert(touching(store, contacts@[k]));
        }
        assert forall|c: Contact| touching_in(store@, c) implies #[trigger] contacts@.contains(
            c,
        ) by {
            assert(touching(store, c));
        }
    }
    contacts
}

/// Whether `c` stands in `list`.
pub fn holds(list: &Vec<Contact>, c: Contact) -> (found: bool)
    ensures
        found == list@.contains(c),
{
    let mut i: usize = 0;
    while i < list.len()
        invariant
            i <= list@.len(),
            forall|k: int| 0 <= k < i ==> list@[k] != c,
        decreases list@.len() - i,
    {
        if list[i] == c {
            return true;
        }
        i += 1;
    }
    false
}

/// A list with the same contacts in the same order.
pub fn copy_of(list: &Vec<Contact>) -> (copy: Vec<Contact>)
    ensures
        copy@ == list@,
{
    let mut copy: Vec<Contact> = Vec::new();
    let mut i: usize = 0;
    while i < list.len()
        invariant
            i <= list@.len(),
            copy@ == list@.take(i as int),
        decreases list@.len() - i,
    {
        copy.push(list[i]);
        assert(list@.take(i + 1) == list@.take(i as int).push(list@[i as int]));
        i += 1;
    }
    assert(list@.take(list@.len() as int) == list@);
    copy
}

/// The contacts of `now` that `then` does not hold, in the order of `now`.
/// With the contacts of this step as `now` and those of the step before as
/// `then`, these are the contacts that have just begun; the other way
/// round, those that have just ended. A contact that lasts is in neither.
pub fn fresh(now: &Vec<Contact>, then: &Vec<Contact>) -> (begun: Vec<Contact>)
    ensures
        forall|c: Contact| #[trigger]
            begun@.contains(c) <==> (now@.contains(c) && !then@.contains(c)),
        in_order(now@) ==> in_order(begun@),
        lists_fresh(begun@, now@, then@),
{
    let mut begun: Vec<Contact> = Vec::new();
    let mut i: usize = 0;
    while i < now.len()
        invariant
            i <= now@.len(),
            forall|c: Contact| #[trigger]
                begun@.contains(c) <==> (now@.take(i as int).contains(c) && !then@.contains(c)),
            in_order(now@) ==> in_order(begun@),
            in_order(now@) ==> forall|k: int, l: int|
                0 <= k < begun@.len() && i <= l < now@.len() ==> comes_before(
                    #[trigger] begun@[k],
                    #[trigger] now@[l],
                ),
            begun@ == now@.take(i as int).filter(absent_from(then@)),
        decreases now@.len() - i,
    {
        let c = now[i];
        let ghost before = begun@;
        let keep = !holds(then, c);
        if keep {
            begun.push(c);
        }
        proof {
            let head = now@.take(i as int);
            let longer = now@.take(i + 1);
            assert(longer == head.push(c));
            assert(longer.drop_last() == head);
            reveal_with_fuel(Seq::filter, 2);
            assert(begun@ == longer.filter(absent_from(then@)));
            assert forall|d: Contact| #[trigger]
                begun@.contains(d) <==> (longer.contains(d) && !then@.contains(d)) by {
                if begun@.contains(d) {
                    let k = choose|k: int| 0 <= k < begun@.len() && begun@[k] == d;
                    if k < before.len() {
                        assert(before.contains(d));
                        let m = choose|m: int| 0 <= m < head.len() && head[m] == d;
                        assert(longer[m] == d);
                    } else {
                        assert(longer[i as int] == d);
                    }
                }
                if longer.contains(d) && !then@.contains(d) {
                    let m = choose|m: int| 0 <= m < longer.len() && longer[m] == d;
                    if m < i {
                        assert(head[m] == d);
                        assert(before.contains(d));
                        let k = choose|k: int| 0 <= k < before.len() && before[k] == d;
                        assert(begun@[k] == d);
                    } else {
                        assert(begun@[begun@.len() - 1] == d);
                    }
                }
            }
        }
        i += 1;
    }
    assert(now@.take(now@.len() as int) == now@);
    proof {
        reveal_with_fuel(Seq::filter, 2);
    }
    begun
}

/// What one step of detection tells the rules of the game.
#[derive(Debug)]
pub struct Events {
    /// Every pair that touches now.
    pub contacts: Vec<Contact>,
    /// The pairs that touch now and did not a step ago.
    pub started: Vec<Contact>,
    /// The pairs that touched a step ago and do not now.
    pub ended: Vec<Contact>,
}

/// Detects the contacts of this step and tells which have begun and which
/// have ended since `previous`, the contacts of the step before. A contact
/// that lasts over several steps begins once. No contact begins between two
/// bodies whose layers and masks do not admit each other.
pub fn collision_events(store: &BodyStore, previous: &Vec<Contact>) -> (events: Events)
    ensures
        lists_contacts(events.contacts@, store@),
        lists_fresh(events.started@, events.contacts@, previous@),
        lists_fresh(events.ended@, previous@, events.contacts@),
        in_order(events.started@),
        forall|a: Handle, b: Handle|
            !#[trigger] may_collide_spec(store.body(a), store.body(b))
                ==> !events.started@.contains(Contact { first: a, second: b })
                && !events.started@.contains(Contact { first: b, second: a }),
{
    let contacts = detect(store);
    let started = fresh(&contacts, previous);
    let ended = fresh(previous, &contacts);
    Events { contacts, started, ended }
}

/// Between two bodies whose layers and masks do not admit each other no
/// contact ever begins, however their shapes lie: whatever list tells the
/// contacts of the bodies, and whatever was told a step ago, the list of
/// what has begun holds the pair in neither order.
pub proof fn lemma_no_contact_begins_between_barred_bodies(
    bodies: Map<Handle, Body>,
    contacts: Seq<Contact>,
    then: Seq<Contact>,
    begun: Seq<Contact>,
    a: Handle,
    b: Handle,
)
    requires
        lists_contacts(contacts, bodies),
        lists_fresh(begun, contacts, then),
        !may_collide_spec(bodies[a], bodies[b]),
    ensures
        !begun.contains(Contact { first: a, second: b }),
        !begun.contains(Contact { first: b, second: a }),
{
    let forth = Contact { first: a, second: b };
    let back = Contact { first: b, second: a };
    assert(!touching_in(bodies, forth));
    assert(!touching_in(bodies, back));
    assert(!contacts.contains(forth));
    assert(!contacts.contains(back));
    if begun.contains(forth) {
        contacts.lemma_filter_contains_rev(absent_from(then), forth);
    }
    if begun.contains(back) {
        contacts.lemma_filter_contains_rev(absent_from(then), back);
    }
}

/// In a list in rising order, an element of the list that is not its last
/// stands in the list without its last.
proof fn lemma_member_of_front(list: Seq<Contact>, c: Contact)
    requires
        list.len() > 0,
        in_order(list),
    ensures
        list.drop_last().contains(c) <==> (list.contains(c) && c != list.last()),
        in_order(list.drop_last()),
{
    let front = list.drop_last();
    if front.contains(c) {
        let k = choose|k: int| 0 <= k < front.len() && front[k] == c;
        assert(list[k] == c);
        assert(comes_before(list[k], list[list.len() - 1]));
    }
    if list.contains(c) && c != list.last() {
        let k = choose|k: int| 0 <= k < list.len() && list[k] == c;
        assert(front[k] == c);
    }
    assert forall|k: int, l: int| 0 <= k < l < front.len() implies comes_before(
        #[trigger] front[k],
        #[trigger] front[l],
    ) by {
        assert(comes_before(list[k], list[l]));
    }
}

/// Two lists in rising order that hold the same contacts are one list.
pub proof fn lemma_ordered_lists_agree(a: Seq<Contact>, b: Seq<Contact>)
    requires
        in_order(a),
        in_order(b),
        forall|c: Contact| #[trigger] a.contains(c) <==> b.contains(c),
    ensures
        a == b,
    decreases a.len(),
{
    if a.len() == 0 {
        if b.len() > 0 {
            assert(b.contains(b[0]));
            assert(a.contains(b[0]));
            let i = choose|i: int| 0 <= i < a.len() && a[i] == b[0];
            assert(false);
        }
        assert(a =~= b);
    } else {
        let top = a.last();
        assert(a.contains(a[a.len() - 1]));
        assert(b.contains(top));
        let j = choose|j: int| 0 <= j < b.len() && b[j] == top;
        if j < b.len() - 1 {
            let other = b.last();
            assert(comes_before(b[j], b[b.len() - 1]));
            assert(b.contains(b[b.len() - 1]));
            assert(a.contains(other));
            let i = choose|i: int| 0 <= i < a.len() && a[i] == other;
            if i < a.len() - 1 {
                assert(comes_before(a[i], a[a.len() - 1]));
            }
            assert(false);
        }
        assert(b.last() == top);
        lemma_member_of_front(a, top);
        lemma_member_of_front(b, top);
        assert forall|c: Contact| #[trigger]
            a.drop_last().contains(c) <==> b.drop_last().contains(c) by {
            lemma_member_of_front(a, c);
            lemma_member_of_front(b, c);
        }
        lemma_ordered_lists_agree(a.drop_last(), b.drop_last());
        assert(a =~= a.drop_last().push(top));
        assert(b =~= b.drop_last().push(top));
    }
}

/// What touches among given bodies has one list: the detector's answer is
/// settled by the bodies alone.
pub proof fn lemma_contact_list_is_unique(
    a: Seq<Contact>,
    b: Seq<Contact>,
    bodies: Map<Handle, Body>,
)
    requires
        lists_contacts(a, bodies),
        lists_contacts(b, bodies),
    ensures
        a == b,
{
    lemma_ordered_lists_agree(a, b);
}

} // verus!
