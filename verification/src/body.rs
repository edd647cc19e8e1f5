//! The store of rigid bodies and the handles that name them.

use crate::vector::Vector;
use vstd::prelude::*;

verus! {

/// How a body takes part in the physics.
#[derive(Clone, Copy, Debug, PartialEq, Eq, Structural)]
pub enum BodyKind {
    /// Never moves.
    Static,
    /// Moves by its own velocity; no force acts on it.
    Kinematic,
    /// Moves and is pushed by forces and contacts.
    Dynamic,
}

/// The outline of a body, in thousandths of an arena unit.
#[derive(Clone, Copy, Debug, PartialEq, Eq, Structural)]
pub enum Shape {
    Circle { radius: u32 },
    Rectangle { half_width: u32, half_height: u32 },
}

/// What a body is in the game.
#[derive(Clone, Copy, Debug, PartialEq, Eq, Structural)]
pub enum Role {
    Queen,
    Worker,
    Flower,
    Wall,
}

/// Who commands a body. Walls and flowers are neutral.
#[derive(Clone, Copy, Debug, PartialEq, Eq, Structural)]
pub enum Owner {
    Player1,
    Player2,
    Neutral,
}

/// One rigid body. `layer` holds the groups it belongs to and `mask` the
/// groups it may touch, one bit each.
#[derive(Clone, Copy, Debug, PartialEq, Eq, Structural)]
pub struct Body {
    pub kind: BodyKind,
    pub position: Vector,
    pub velocity: Vector,
    pub shape: Shape,
    pub layer: u32,
    pub mask: u32,
    pub role: Role,
    pub owner: Owner,
}

/// The name of a body in a store: a slot and the generation of its tenant.
#[derive(Clone, Copy, Debug, PartialEq, Eq, Structural)]
pub struct Handle {
    pub index: usize,
    pub generation: u64,
}

/// Why the store refused an operation.
#[derive(Clone, Copy, Debug, PartialEq, Eq, Structural)]
pub enum StoreError {
    /// The handle names no body of the store: it was destroyed, or never
    /// given out.
    InvalidHandle,
}

/// A slot of the store: the generation of its latest tenant, and the tenant
/// while it lives.
#[derive(Clone, Copy, Debug)]
struct Slot {
    generation: u64,
    body: Option<Body>,
}

/// All bodies of the arena. A slot is used again after its body is
/// destroyed, under the next generation, so a handle never names two bodies.
#[derive(Debug)]
pub struct BodyStore {
    slots: Vec<Slot>,
}

impl BodyStore {
    /// Whether `h` was given out by this store at some time.
    pub closed spec fn issued(&self, h: Handle) -> bool {
        h.index < self.slots@.len() && h.generation <= self.slots@[h.index as int].generation
    }

    /// Whether `h` names a body that is in the store now.
    pub closed spec fn live(&self, h: Handle) -> bool {
        &&& h.index < self.slots@.len()
        &&& h.generation == self.slots@[h.index as int].generation
        &&& self.slots@[h.index as int].body is Some
    }

    /// Whether `h` was given out and its body is gone.
    pub open spec fn retired(&self, h: Handle) -> bool {
        self.issued(h) && !self.live(h)
    }

    /// The body that a live handle names.
    pub closed spec fn body(&self, h: Handle) -> Body {
        self.slots@[h.index as int].body->Some_0
    }

    /// The bodies of the store, each under its handle.
    pub open spec fn view(&self) -> Map<Handle, Body> {
        Map::new(|h: Handle| self.live(h), |h: Handle| self.body(h))
    }

    /// The number of slots, free ones included: every live handle has its
    /// index below it.
    pub closed spec fn slot_count(&self) -> nat {
        self.slots@.len()
    }

    /// Whether slot `index` can take a new body: it holds none, and its
    /// generation is not the last one.
    pub closed spec fn reusable(&self, index: int) -> bool {
        &&& 0 <= index < self.slots@.len()
        &&& self.slots@[index].body is None
        &&& self.slots@[index].generation < u64::MAX
    }

    /// What every operation keeps between the store before and after it:
    /// a handle once given out stays given out, and one whose body is gone
    /// never names a body again.
    pub open spec fn precedes(&self, later: &BodyStore) -> bool {
        &&& forall|g: Handle| #[trigger] self.issued(g) ==> later.issued(g)
        &&& forall|g: Handle| #[trigger] self.retired(g) ==> later.retired(g)
        &&& self.slot_count() <= later.slot_count()
    }

    /// A live handle points into the slots.
    pub proof fn lemma_live_in_range(&self, h: Handle)
        requires
            self.live(h),
        ensures
            h.index < self.slot_count(),
            self.issued(h),
    {
    }

    /// No two handles of living bodies share a slot.
    pub proof fn lemma_live_handles_keep_apart(&self, a: Handle, b: Handle)
        requires
            self.live(a),
            self.live(b),
            a.index == b.index,
        ensures
            a == b,
    {
    }

    /// The number of slots.
    pub fn slots(&self) -> (n: usize)
        ensures
            n == self.slot_count(),
    {
        self.slots.len()
    }

    /// The handle of the body in slot `index`, if a body is there.
    pub fn handle_at(&self, index: usize) -> (found: Option<Handle>)
        ensures
            match found {
                Some(h) => h.index == index && self.live(h) && forall|g: Handle|
                    g.index == index && #[trigger] self.live(g) ==> g == h,
                None => forall|g: Handle| g.index == index ==> !#[trigger] self.live(g),
            },
    {
        if index < self.slots.len() && self.slots[index].body.is_some() {
            Some(Handle { index, generation: self.slots[index].generation })
        } else {
            None
        }
    }

    /// A store without bodies.
    pub fn new() -> (store: BodyStore)
        ensures
            forall|g: Handle| !#[trigger] store.issued(g),
            forall|g: Handle| !#[trigger] store.live(g),
            store.slot_count() == 0,
    {
        BodyStore { slots: Vec::new() }
    }

    /// The first free slot that can still take a new generation; none only
    /// if no slot can.
    fn free_slot(&self) -> (found: Option<usize>)
        ensures
            match found {
                Some(i) => self.reusable(i as int) && forall|j: int|
                    0 <= j < i ==> !#[trigger] self.reusable(j),
                None => forall|j: int| !#[trigger] self.reusable(j),
            },
    {
        let mut i: usize = 0;
        while i < self.slots.len()
            invariant
                i <= self.slots@.len(),
                forall|j: int| 0 <= j < i ==> !#[trigger] self.reusable(j),
            decreases self.slots@.len() - i,
        {
            if self.slots[i].body.is_none() && self.slots[i].generation < u64::MAX {
                return Some(i);
            }
            i += 1;
        }
        None
    }

    /// Puts `body` into the store and gives out its handle. The handle was
    /// never given out before; every other handle means what it meant.
    pub fn create(&mut self, body: Body) -> (h: Handle)
        ensures
            !old(self).issued(h),
            !old(self).live(h),
            final(self).live(h),
            final(self).body(h) == body,
            forall|g: Handle| #[trigger]
                final(self).issued(g) <==> (old(self).issued(g) || g == h),
            forall|g: Handle|
                g != h ==> (#[trigger] final(self).live(g) <==> old(self).live(g)),
            forall|g: Handle|
                g != h && old(self).live(g) ==> #[trigger] final(self).body(g) == old(self).body(
                    g,
                ),
            old(self).precedes(final(self)),
    {
        match self.free_slot() {
            Some(i) => {
                let generation: u64 = self.slots[i].generation + 1;
                self.slots.set(i, Slot { generation, body: Some(body) });
                Handle { index: i, generation }
            },
            None => {
                let index: usize = self.slots.len();
                self.slots.push(Slot { generation: 0, body: Some(body) });
                Handle { index, generation: 0 }
            },
        }
    }

    /// Removes the body that `h` names and hands it back. A handle that
    /// names no body is refused and the store stays as it is.
    pub fn destroy(&mut self, h: Handle) -> (removed: Result<Body, StoreError>)
        ensures
            removed is Ok <==> old(self).live(h),
            removed is Ok ==> removed == Ok::<Body, StoreError>(old(self).body(h)),
            removed is Ok ==> final(self).retired(h),
            removed is Err ==> *final(self) == *old(self),
            forall|g: Handle| #[trigger]
                final(self).live(g) <==> (old(self).live(g) && g != h),
            forall|g: Handle| #[trigger] final(self).live(g) ==> final(self).body(g) == old(
                self,
            ).body(g),
            forall|g: Handle| #[trigger] final(self).issued(g) <==> old(self).issued(g),
            final(self).slot_count() == old(self).slot_count(),
            old(self).precedes(final(self)),
    {
        if h.index < self.slots.len() {
            let slot: Slot = self.slots[h.index];
            if slot.generation == h.generation {
                if let Some(body) = slot.body {
                    self.slots.set(h.index, Slot { generation: slot.generation, body: None });
                    return Ok(body);
                }
            }
        }
        Err(StoreError::InvalidHandle)
    }

    /// Whether `h` names a body of the store.
    pub fn contains(&self, h: Handle) -> (found: bool)
        ensures
            found == self.live(h),
    {
        h.index < self.slots.len() && self.slots[h.index].generation == h.generation
            && self.slots[h.index].body.is_some()
    }

    /// The body that `h` names.
    pub fn get(&self, h: Handle) -> (found: Result<Body, StoreError>)
        ensures
            found == if self.live(h) {
                Ok::<Body, StoreError>(self.body(h))
            } else {
                Err::<Body, StoreError>(StoreError::InvalidHandle)
            },
    {
        if h.index < self.slots.len() {
            let slot: Slot = self.slots[h.index];
            if slot.generation == h.generation {
                if let Some(body) = slot.body {
                    return Ok(body);
                }
            }
        }
        Err(StoreError::InvalidHandle)
    }

    /// Replaces the body that `h` names. Only this module calls it, with a
    /// body that keeps what a body keeps for life.
    fn replace(&mut self, h: Handle, body: Body)
        requires
            old(self).live(h),
        ensures
            final(self).live(h),
            final(self).body(h) == body,
            final(self).slots@.len() == old(self).slots@.len(),
            forall|g: Handle| #[trigger] final(self).live(g) <==> old(self).live(g),
            forall|g: Handle|
                g != h && old(self).live(g) ==> #[trigger] final(self).body(g) == old(self).body(
                    g,
                ),
            forall|g: Handle| #[trigger] final(self).issued(g) <==> old(self).issued(g),
            final(self).slot_count() == old(self).slot_count(),
            old(self).precedes(final(self)),
    {
        self.slots.set(h.index, Slot { generation: h.generation, body: Some(body) });
    }

    /// The velocity of the body that `h` names.
    pub fn velocity(&self, h: Handle) -> (found: Result<Vector, StoreError>)
        ensures
            found == if self.live(h) {
                Ok::<Vector, StoreError>(self.body(h).velocity)
            } else {
                Err::<Vector, StoreError>(StoreError::InvalidHandle)
            },
    {
        match self.get(h) {
            Ok(body) => Ok(body.velocity),
            Err(e) => Err(e),
        }
    }

    /// The position of the body that `h` names.
    pub fn position(&self, h: Handle) -> (found: Result<Vector, StoreError>)
        ensures
            found == if self.live(h) {
                Ok::<Vector, StoreError>(self.body(h).position)
            } else {
                Err::<Vector, StoreError>(StoreError::InvalidHandle)
            },
    {
        match self.get(h) {
            Ok(body) => Ok(body.position),
            Err(e) => Err(e),
        }
    }

    /// Gives the body that `h` names the velocity `velocity`; nothing else of
    /// it changes, and no other body. A static body has no velocity to set:
    /// callers keep such a handle away.
    pub fn set_velocity(&mut self, h: Handle, velocity: Vector) -> (done: Result<(), StoreError>)
        requires
            old(self).live(h) ==> old(self).body(h).kind != BodyKind::Static,
        ensures
            done is Ok <==> old(self).live(h),
            done is Err ==> *final(self) == *old(self),
            done is Ok ==> final(self).body(h) == (Body { velocity, ..old(self).body(h) }),
            forall|g: Handle| #[trigger] final(self).live(g) <==> old(self).live(g),
            forall|g: Handle|
                g != h && old(self).live(g) ==> #[trigger] final(self).body(g) == old(self).body(
                    g,
                ),
            forall|g: Handle| #[trigger] final(self).issued(g) <==> old(self).issued(g),
            final(self).slot_count() == old(self).slot_count(),
            old(self).precedes(final(self)),
    {
        match self.get(h) {
            Ok(body) => {
                self.replace(h, Body { velocity, ..body });
                Ok(())
            },
            Err(e) => Err(e),
        }
    }

    /// Moves the body that `h` names to `position`; nothing else of it
    /// changes, and no other body.
    pub fn set_position(&mut self, h: Handle, position: Vector) -> (done: Result<(), StoreError>)
        ensures
            done is Ok <==> old(self).live(h),
            done is Err ==> *final(self) == *old(self),
            done is Ok ==> final(self).body(h) == (Body { position, ..old(self).body(h) }),
            forall|g: Handle| #[trigger] final(self).live(g) <==> old(self).live(g),
            forall|g: Handle|
                g != h && old(self).live(g) ==> #[trigger] final(self).body(g) == old(self).body(
                    g,
                ),
            forall|g: Handle| #[trigger] final(self).issued(g) <==> old(self).issued(g),
            final(self).slot_count() == old(self).slot_count(),
            old(self).precedes(final(self)),
    {
        match self.get(h) {
            Ok(body) => {
                self.replace(h, Body { position, ..body });
                Ok(())
            },
            Err(e) => Err(e),
        }
    }
}

/// A handle whose body is gone names no body after any further operations:
/// what one operation keeps, a chain of them keeps.
pub proof fn lemma_precedes_is_transitive(a: &BodyStore, b: &BodyStore, c: &BodyStore)
    requires
        a.precedes(b),
        b.precedes(c),
    ensures
        a.precedes(c),
{
}

/// Once the body of a handle has been destroyed, the handle is invalid in
/// every later state of the store: it names no body, so each operation on it
/// answers `InvalidHandle`.
pub proof fn lemma_destroyed_handle_stays_invalid(then: &BodyStore, later: &BodyStore, h: Handle)
    requires
        then.retired(h),
        then.precedes(later),
    ensures
        !later.live(h),
        later.retired(h),
{
}

} // verus!
