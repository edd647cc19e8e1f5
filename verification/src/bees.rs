//! Setting the game up: what must be known before a round, the arena and
//! its first bodies, and the state of a round.

use crate::actions::Actions;
use crate::bee_spawner::{is_spawn_step, spawn_worker_bee, Actor, ONE_PER_SECOND};
use crate::movement::{BEE_MOVEMENT_SCALING, QUEEN_MOVEMENT_SCALING};
use crate::body::{Body, BodyKind, BodyStore, Handle, Owner, Role, Shape};
use crate::collision::{copy_of, Contact, Events};
use crate::integrator::{all_begun, begun_in, is_run, simulate, substep_length};
use crate::rules::{
    all_casualties, apply_despawns, death_rules, is_despawn_step, is_harvest, mourned_all,
    pickup_rule, survivor_of_all, Harvest,
};
use crate::scoreboard::Score;
use crate::vector::Vector;
use vstd::prelude::*;

verus! {

/// Half the thickness of a wall, in thousandths of an arena unit.
pub const WALL_HALF: i64 = 25_000;

/// No coordinate of the arena lies farther from the origin than this, in
/// thousandths of an arena unit.
pub const ARENA_LIMIT: i64 = 1_000_000_000;

/// The radius of a queen, in thousandths of an arena unit.
pub const QUEEN_RADIUS: u32 = 30_000;

/// The radius of a flower, in thousandths of an arena unit.
pub const FLOWER_RADIUS: u32 = 20_000;

/// Every collision group at once: the layer and the mask of a body that
/// touches everything.
pub const ALL_GROUPS: u32 = 0xffff_ffff;

/// The inside of the arena: a rectangle, in thousandths of an arena unit.
#[derive(Clone, Copy, Debug, PartialEq, Eq, Structural)]
pub struct Bounds {
    pub min: Vector,
    pub max: Vector,
}

impl Bounds {
    /// Whether the rectangle has an inside and keeps within the limit.
    pub open spec fn valid(self) -> bool {
        &&& -ARENA_LIMIT <= self.min.x < self.max.x <= ARENA_LIMIT
        &&& -ARENA_LIMIT <= self.min.y < self.max.y <= ARENA_LIMIT
    }

    /// Whether `p` lies in the rectangle, its edge included.
    pub open spec fn contains_spec(self, p: Vector) -> bool {
        self.min.x <= p.x <= self.max.x && self.min.y <= p.y <= self.max.y
    }

    #[verifier::when_used_as_spec(contains_spec)]
    pub fn contains(self, p: Vector) -> (inside: bool)
        ensures
            inside == self.contains_spec(p),
    {
        self.min.x <= p.x && p.x <= self.max.x && self.min.y <= p.y && p.y <= self.max.y
    }
}

/// What the host hands over before a round. The arena and the base
/// production have no default: a round does not start without them.
#[derive(Clone, Copy, Debug, PartialEq, Eq, Structural)]
pub struct Config {
    pub arena: Option<Bounds>,
    /// Workers per second of a queen before her first flower, in
    /// thousandths.
    pub base_production: Option<u64>,
    /// What a flower adds to a production, in thousandths.
    pub production_increment: u64,
    /// The number of equal parts in which a frame is simulated.
    pub substeps: u32,
    /// In thousandths of an arena unit per second squared.
    pub gravity: Vector,
    pub queen_scale: u32,
    pub worker_scale: u32,
    /// Whether workers that die leave the arena.
    pub despawn_on_worker_collision: bool,
    /// Whether every pickup of a frame counts, or only the first.
    pub collect_every_pickup: bool,
}

/// Why a round cannot start.
#[derive(Clone, Copy, Debug, PartialEq, Eq, Structural)]
pub enum ConfigError {
    MissingArena,
    /// The arena has no inside, or reaches beyond the limit.
    BadArena,
    MissingProduction,
    /// The base production is zero.
    NoProduction,
    /// A frame cannot be simulated in zero parts.
    NoSubsteps,
}

/// A configuration that was found complete.
#[derive(Clone, Copy, Debug, PartialEq, Eq, Structural)]
pub struct Settings {
    pub arena: Bounds,
    pub base_production: u64,
    pub production_increment: u64,
    pub substeps: u32,
    pub gravity: Vector,
    pub queen_scale: u32,
    pub worker_scale: u32,
    /// Whether workers that die leave the arena.
    pub despawn_on_worker_collision: bool,
    /// Whether every pickup of a frame counts, or only the first.
    pub collect_every_pickup: bool,
}

impl Settings {
    /// Whether a round can be played with these settings: the arena has an
    /// inside within the limit, the base production is positive, and a
    /// frame has at least one sub-step.
    pub open spec fn valid(self) -> bool {
        self.arena.valid() && self.base_production > 0 && self.substeps >= 1
    }

    /// Finds out whether a round can be played with these settings.
    pub fn is_valid(&self) -> (sound: bool)
        ensures
            sound == self.valid(),
    {
        let arena = self.arena;
        -ARENA_LIMIT <= arena.min.x && arena.min.x < arena.max.x && arena.max.x <= ARENA_LIMIT
            && -ARENA_LIMIT <= arena.min.y && arena.min.y < arena.max.y && arena.max.y
            <= ARENA_LIMIT && self.base_production > 0 && self.substeps >= 1
    }
}

impl Config {
    /// What `check` answers: the first fault in the order arena, production,
    /// sub-steps, or the settings.
    pub open spec fn checked(self) -> Result<Settings, ConfigError> {
        if self.arena is None {
            Err(ConfigError::MissingArena)
        } else if !self.arena->Some_0.valid() {
            Err(ConfigError::BadArena)
        } else if self.base_production is None {
            Err(ConfigError::MissingProduction)
        } else if self.base_production->Some_0 == 0 {
            Err(ConfigError::NoProduction)
        } else if self.substeps == 0 {
            Err(ConfigError::NoSubsteps)
        } else {
            Ok(
                Settings {
                    arena: self.arena->Some_0,
                    base_production: self.base_production->Some_0,
                    production_increment: self.production_increment,
                    substeps: self.substeps,
                    gravity: self.gravity,
                    queen_scale: self.queen_scale,
                    worker_scale: self.worker_scale,
                    despawn_on_worker_collision: self.despawn_on_worker_collision,
                    collect_every_pickup: self.collect_every_pickup,
                },
            )
        }
    }

    /// The values the game was tuned with, but for the two that have no
    /// default: six sub-steps, no gravity, one more worker per second for
    /// each flower, dead workers stay in the arena, and only the first
    /// pickup of a frame counts.
    pub fn new() -> (config: Config)
        ensures
            config == (Config {
                arena: None,
                base_production: None,
                production_increment: ONE_PER_SECOND,
                substeps: 6,
                gravity: Vector { x: 0, y: 0 },
                queen_scale: QUEEN_MOVEMENT_SCALING,
                worker_scale: BEE_MOVEMENT_SCALING,
                despawn_on_worker_collision: false,
                collect_every_pickup: false,
            }),
    {
        Config {
            arena: None,
            base_production: None,
            production_increment: ONE_PER_SECOND,
            substeps: 6,
            gravity: Vector { x: 0, y: 0 },
            queen_scale: QUEEN_MOVEMENT_SCALING,
            worker_scale: BEE_MOVEMENT_SCALING,
            despawn_on_worker_collision: false,
            collect_every_pickup: false,
        }
    }

    /// Finds the configuration complete, or names what is wrong with it.
    pub fn check(&self) -> (found: Result<Settings, ConfigError>)
        ensures
            found == self.checked(),
            found is Ok ==> found->Ok_0.valid(),
    {
        let arena = match self.arena {
            Some(arena) => arena,
            None => {
                return Err(ConfigError::MissingArena);
            },
        };
        if !(-ARENA_LIMIT <= arena.min.x && arena.min.x < arena.max.x && arena.max.x <= ARENA_LIMIT
            && -ARENA_LIMIT <= arena.min.y && arena.min.y < arena.max.y && arena.max.y
            <= ARENA_LIMIT) {
            return Err(ConfigError::BadArena);
        }
        let base_production = match self.base_production {
            Some(production) => production,
            None => {
                return Err(ConfigError::MissingProduction);
            },
        };
        if base_production == 0 {
            return Err(ConfigError::NoProduction);
        }
        if self.substeps == 0 {
            return Err(ConfigError::NoSubsteps);
        }
        Ok(
            Settings {
                arena,
                base_production,
                production_increment: self.production_increment,
                substeps: self.substeps,
                gravity: self.gravity,
                queen_scale: self.queen_scale,
                worker_scale: self.worker_scale,
                despawn_on_worker_collision: self.despawn_on_worker_collision,
                collect_every_pickup: self.collect_every_pickup,
            },
        )
    }
}

/// The arena in which the game was tuned: the inside of its four walls.
pub fn home_arena() -> (arena: Bounds)
    ensures
        arena == (Bounds {
            min: Vector { x: -393_000i64, y: -293_000i64 },
            max: Vector { x: 393_000, y: 275_000 },
        }),
        arena.valid(),
{
    Bounds { min: Vector { x: -393_000, y: -293_000 }, max: Vector { x: 393_000, y: 275_000 } }
}

/// A wall: a static rectangle that touches everything.
pub open spec fn wall(middle: Vector, half_width: u32, half_height: u32) -> Body {
    Body {
        kind: BodyKind::Static,
        position: middle,
        velocity: Vector { x: 0, y: 0 },
        shape: Shape::Rectangle { half_width, half_height },
        layer: ALL_GROUPS,
        mask: ALL_GROUPS,
        role: Role::Wall,
        owner: Owner::Neutral,
    }
}

/// A queen at rest: a dynamic circle that touches everything.
pub open spec fn queen(position: Vector, owner: Owner) -> Body {
    Body {
        kind: BodyKind::Dynamic,
        position,
        velocity: Vector { x: 0, y: 0 },
        shape: Shape::Circle { radius: QUEEN_RADIUS },
        layer: ALL_GROUPS,
        mask: ALL_GROUPS,
        role: Role::Queen,
        owner,
    }
}

/// A flower: a kinematic circle that touches everything.
pub open spec fn flower(position: Vector) -> Body {
    Body {
        kind: BodyKind::Kinematic,
        position,
        velocity: Vector { x: 0, y: 0 },
        shape: Shape::Circle { radius: FLOWER_RADIUS },
        layer: ALL_GROUPS,
        mask: ALL_GROUPS,
        role: Role::Flower,
        owner: Owner::Neutral,
    }
}

/// The horizontal wall that closes the arena at the height `face`, its
/// middle half a thickness beyond it on the side of `outward`. It reaches a
/// whole thickness past both corners.
pub open spec fn level_wall(arena: Bounds, face: i64, outward: int) -> Body {
    wall(
        Vector {
            x: (arena.min.x + (arena.max.x - arena.min.x) / 2) as i64,
            y: (face + outward * WALL_HALF) as i64,
        },
        ((arena.max.x - arena.min.x) / 2 + 1 + 2 * WALL_HALF) as u32,
        WALL_HALF as u32,
    )
}

/// The upright wall that closes the arena at `face`, its middle half a
/// thickness beyond it on the side of `outward`.
pub open spec fn upright_wall(arena: Bounds, face: i64, outward: int) -> Body {
    wall(
        Vector {
            x: (face + outward * WALL_HALF) as i64,
            y: (arena.min.y + (arena.max.y - arena.min.y) / 2) as i64,
        },
        WALL_HALF as u32,
        ((arena.max.y - arena.min.y) / 2 + 1 + 2 * WALL_HALF) as u32,
    )
}

/// The bodies that a round begins with.
#[derive(Clone, Copy, Debug, PartialEq, Eq, Structural)]
pub struct Arena {
    pub queen: Handle,
    pub flower: Handle,
    pub ceiling: Handle,
    pub floor: Handle,
    pub left_wall: Handle,
    pub right_wall: Handle,
}

impl Arena {
    /// The six handles, in the order in which the bodies were made.
    pub open spec fn handles(self) -> Seq<Handle> {
        seq![self.queen, self.flower, self.ceiling, self.floor, self.left_wall, self.right_wall]
    }
}

/// Where the first player's queen starts, in thousandths of an arena unit.
pub open spec fn queen_start() -> Vector {
    Vector { x: -350_000i64, y: 0 }
}

/// Where the flower first stands, in thousandths of an arena unit.
pub open spec fn flower_start() -> Vector {
    Vector { x: 350_000, y: 5_000 }
}

/// The actor of a queen at the start of a round.
pub open spec fn newcomer(queen: Handle, owner: Owner, production: u64) -> Actor {
    Actor { queen, owner, production, last_spawn: 0, alive: true }
}

fn make_wall(store: &mut BodyStore, middle: Vector, half_width: u32, half_height: u32) -> (h:
    Handle)
    ensures
        !old(store).issued(h),
        final(store).live(h),
        final(store).body(h) == wall(middle, half_width, half_height),
        forall|g: Handle| #[trigger]
            final(store).issued(g) <==> (old(store).issued(g) || g == h),
        forall|g: Handle| g != h ==> (#[trigger] final(store).live(g) <==> old(store).live(g)),
        forall|g: Handle|
            g != h && old(store).live(g) ==> #[trigger] final(store).body(g) == old(store).body(g),
        old(store).precedes(final(store)),
{
    store.create(
        Body {
            kind: BodyKind::Static,
            position: middle,
            velocity: Vector { x: 0, y: 0 },
            shape: Shape::Rectangle { half_width, half_height },
            layer: ALL_GROUPS,
            mask: ALL_GROUPS,
            role: Role::Wall,
            owner: Owner::Neutral,
        },
    )
}

/// Puts the first bodies of a round into the store: the first player's
/// queen, the flower, and the four walls that close the arena, each wall
/// with its inner face on the arena's edge. The queen gets an actor with
/// the base production. Bodies that were in the store stay as they are.
pub fn setup(store: &mut BodyStore, actors: &mut Vec<Actor>, settings: &Settings) -> (arena: Arena)
    requires
        settings.valid(),
    ensures
        final(actors)@ == old(actors)@.push(
            newcomer(arena.queen, Owner::Player1, settings.base_production),
        ),
        forall|k: int|
            0 <= k < 6 ==> !old(store).issued(#[trigger] arena.handles()[k]) && final(store).live(
                arena.handles()[k],
            ),
        forall|k: int, l: int| 0 <= k < l < 6 ==> arena.handles()[k] != arena.handles()[l],
        final(store).body(arena.queen) == queen(queen_start(), Owner::Player1),
        final(store).body(arena.flower) == flower(flower_start()),
        final(store).body(arena.ceiling) == level_wall(settings.arena, settings.arena.max.y, 1),
        final(store).body(arena.floor) == level_wall(settings.arena, settings.arena.min.y, -1),
        final(store).body(arena.left_wall) == upright_wall(
            settings.arena,
            settings.arena.min.x,
            -1,
        ),
        final(store).body(arena.right_wall) == upright_wall(
            settings.arena,
            settings.arena.max.x,
            1,
        ),
        forall|g: Handle|
            old(store).live(g) ==> #[trigger] final(store).live(g) && final(store).body(g) == old(
                store,
            ).body(g),
        forall|g: Handle| #[trigger]
            final(store).live(g) && !old(store).live(g) ==> arena.handles().contains(g),
        old(store).precedes(final(store)),
{
    let bounds = settings.arena;
    let queen = store.create(
        Body {
            kind: BodyKind::Dynamic,
            position: Vector { x: -350_000, y: 0 },
            velocity: Vector { x: 0, y: 0 },
            shape: Shape::Circle { radius: QUEEN_RADIUS },
            layer: ALL_GROUPS,
            mask: ALL_GROUPS,
            role: Role::Queen,
            owner: Owner::Player1,
        },
    );
    actors.push(
        Actor {
            queen,
            owner: Owner::Player1,
            production: settings.base_production,
            last_spawn: 0,
            alive: true,
        },
    );
    let ghost one = *store;
    let flower = store.create(
        Body {
            kind: BodyKind::Kinematic,
            position: Vector { x: 350_000, y: 5_000 },
            velocity: Vector { x: 0, y: 0 },
            shape: Shape::Circle { radius: FLOWER_RADIUS },
            layer: ALL_GROUPS,
            mask: ALL_GROUPS,
            role: Role::Flower,
            owner: Owner::Neutral,
        },
    );
    let ghost two = *store;
    let middle_x: i64 = bounds.min.x + (bounds.max.x - bounds.min.x) / 2;
    let middle_y: i64 = bounds.min.y + (bounds.max.y - bounds.min.y) / 2;
    let half_span_x: u32 = ((bounds.max.x - bounds.min.x) / 2 + 1 + 2 * WALL_HALF) as u32;
    let half_span_y: u32 = ((bounds.max.y - bounds.min.y) / 2 + 1 + 2 * WALL_HALF) as u32;
    let thickness: u32 = WALL_HALF as u32;
    let ceiling = make_wall(
        store,
        Vector { x: middle_x, y: bounds.max.y + WALL_HALF },
        half_span_x,
        thickness,
    );
    let ghost three = *store;
    let floor = make_wall(
        store,
        Vector { x: middle_x, y: bounds.min.y - WALL_HALF },
        half_span_x,
        thickness,
    );
    let ghost four = *store;
    let left_wall = make_wall(
        store,
        Vector { x: bounds.min.x - WALL_HALF, y: middle_y },
        thickness,
        half_span_y,
    );
    let ghost five = *store;
    let right_wall = make_wall(
        store,
        Vector { x: bounds.max.x + WALL_HALF, y: middle_y },
        thickness,
        half_span_y,
    );
    let arena = Arena { queen, flower, ceiling, floor, left_wall, right_wall };
    proof {
        assert(one.issued(queen));
        assert(two.issued(queen) && two.issued(flower));
        assert(three.issued(queen) && three.issued(flower) && three.issued(ceiling));
        assert(four.issued(queen) && four.issued(flower) && four.issued(ceiling) && four.issued(
            floor,
        ));
        assert(five.issued(queen) && five.issued(flower) && five.issued(ceiling) && five.issued(
            floor,
        ) && five.issued(left_wall));
        assert(old(store).precedes(&one));
        assert(one.precedes(&two));
        assert(two.precedes(&three));
        assert(three.precedes(&four));
        assert(four.precedes(&five));
        assert forall|g: Handle| old(store).live(g) implies #[trigger] store.live(g)
            && store.body(g) == old(store).body(g) by {
            old(store).lemma_live_in_range(g);
            assert(one.live(g) && one.body(g) == old(store).body(g));
            one.lemma_live_in_range(g);
            assert(two.live(g) && two.body(g) == old(store).body(g));
            two.lemma_live_in_range(g);
            assert(three.live(g) && three.body(g) == old(store).body(g));
            three.lemma_live_in_range(g);
            assert(four.live(g) && four.body(g) == old(store).body(g));
            four.lemma_live_in_range(g);
            assert(five.live(g) && five.body(g) == old(store).body(g));
            five.lemma_live_in_range(g);
        }
        assert forall|g: Handle| #[trigger]
            store.live(g) && !old(store).live(g) implies arena.handles().contains(g) by {
            if g == queen {
                assert(arena.handles()[0] == g);
            } else if g == flower {
                assert(arena.handles()[1] == g);
            } else if g == ceiling {
                assert(arena.handles()[2] == g);
            } else if g == floor {
                assert(arena.handles()[3] == g);
            } else if g == left_wall {
                assert(arena.handles()[4] == g);
            } else if g == right_wall {
                assert(arena.handles()[5] == g);
            } else {
                assert(five.live(g));
                assert(four.live(g));
                assert(three.live(g));
                assert(two.live(g));
                assert(one.live(g));
            }
        }
    }
    arena
}

/// Everything that a round keeps from frame to frame.
#[derive(Debug)]
pub struct Game {
    pub settings: Settings,
    pub store: BodyStore,
    pub actors: Vec<Actor>,
    pub score: Score,
    pub actions: Actions,
    /// The contacts of the last step, by which the next tells what began.
    pub contacts: Vec<Contact>,
    /// Bodies to be removed when the rules of the step have run.
    pub doomed: Vec<Handle>,
}

/// The actor at the start of a round: alive, at the base production, her
/// interval counted from the round's first moment.
pub open spec fn revived(actor: Actor, settings: Settings) -> Actor {
    Actor { production: settings.base_production, last_spawn: 0, alive: true, ..actor }
}

impl Game {
    /// Starts from a configuration: with the arena's first bodies in the
    /// store, if the configuration is complete; else with what it lacks.
    pub fn new(config: &Config) -> (made: Result<(Game, Arena), ConfigError>)
        ensures
            made is Ok <==> config.checked() is Ok,
            made is Err ==> made->Err_0 == config.checked()->Err_0,
            made is Ok ==> {
                let (game, arena) = made->Ok_0;
                &&& game.settings == config.checked()->Ok_0
                &&& game.settings.valid()
                &&& game.score == (Score { points: 0, bees: 0 })
                &&& game.actions == Actions::idle()
                &&& game.contacts@.len() == 0
                &&& game.doomed@.len() == 0
                &&& game.actors@ == seq![
                    newcomer(arena.queen, Owner::Player1, game.settings.base_production),
                ]
                &&& forall|g: Handle| #[trigger]
                    game.store.live(g) <==> arena.handles().contains(g)
                &&& forall|k: int, l: int|
                    0 <= k < l < 6 ==> arena.handles()[k] != arena.handles()[l]
                &&& game.store.body(arena.queen) == queen(queen_start(), Owner::Player1)
                &&& game.store.body(arena.flower) == flower(flower_start())
                &&& game.store.body(arena.ceiling) == level_wall(
                    game.settings.arena,
                    game.settings.arena.max.y,
                    1,
                )
                &&& game.store.body(arena.floor) == level_wall(
                    game.settings.arena,
                    game.settings.arena.min.y,
                    -1,
                )
                &&& game.store.body(arena.left_wall) == upright_wall(
                    game.settings.arena,
                    game.settings.arena.min.x,
                    -1,
                )
                &&& game.store.body(arena.right_wall) == upright_wall(
                    game.settings.arena,
                    game.settings.arena.max.x,
                    1,
                )
            },
    {
        let settings = match config.check() {
            Ok(settings) => settings,
            Err(e) => {
                return Err(e);
            },
        };
        let mut store = BodyStore::new();
        let mut actors: Vec<Actor> = Vec::new();
        let arena = setup(&mut store, &mut actors, &settings);
        let game = Game {
            settings,
            store,
            actors,
            score: Score::new(),
            actions: Actions::default(),
            contacts: Vec::new(),
            doomed: Vec::new(),
        };
        proof {
            assert(game.actors@ =~= seq![
                newcomer(arena.queen, Owner::Player1, game.settings.base_production),
            ]);
            assert forall|g: Handle| arena.handles().contains(g) implies #[trigger] game.store.live(
                g,
            ) by {
                let k = choose|k: int| 0 <= k < 6 && arena.handles()[k] == g;
                assert(game.store.live(arena.handles()[k]));
            }
        }
        Ok((game, arena))
    }

    /// Starts the round over: the score returns to zero, every signal is
    /// taken down and every wish dropped, every actor is alive again at the
    /// base production, and nothing is held against the next step. The
    /// bodies, the settings and the chosen input device stay.
    pub fn reset(&mut self)
        ensures
            final(self).settings == old(self).settings,
            final(self).store == old(self).store,
            final(self).score == (Score { points: 0, bees: 0 }),
            final(self).actions == (Actions {
                input_device: old(self).actions.input_device,
                ..Actions::idle()
            }),
            final(self).contacts@.len() == 0,
            final(self).doomed@.len() == 0,
            final(self).actors@.len() == old(self).actors@.len(),
            forall|i: int|
                0 <= i < old(self).actors@.len() ==> #[trigger] final(self).actors@[i] == revived(
                    old(self).actors@[i],
                    old(self).settings,
                ),
    {
        self.score.reset();
        let device = self.actions.input_device;
        self.actions = Actions::default();
        self.actions.input_device = device;
        self.contacts = Vec::new();
        self.doomed = Vec::new();
        let mut i: usize = 0;
        while i < self.actors.len()
            invariant
                i <= self.actors@.len(),
                self.actors@.len() == old(self).actors@.len(),
                self.settings == old(self).settings,
                self.store == old(self).store,
                self.score == (Score { points: 0, bees: 0 }),
                self.actions == (Actions {
                    input_device: old(self).actions.input_device,
                    ..Actions::idle()
                }),
                self.contacts@.len() == 0,
                self.doomed@.len() == 0,
                forall|k: int|
                    0 <= k < i ==> #[trigger] self.actors@[k] == revived(
                        old(self).actors@[k],
                        old(self).settings,
                    ),
                forall|k: int| i <= k < self.actors@.len() ==> self.actors@[k] == old(
                    self,
                ).actors@[k],
            decreases self.actors@.len() - i,
        {
            let actor: Actor = self.actors[i];
            self.actors.set(
                i,
                Actor {
                    production: self.settings.base_production,
                    last_spawn: 0,
                    alive: true,
                    ..actor
                },
            );
            i += 1;
        }
    }
}

/// What a frame brought about.
#[derive(Debug)]
pub struct FrameReport {
    /// What touched, began and ended in each sub-step.
    pub steps: Vec<Events>,
    /// The contacts that began in the frame, sub-step after sub-step.
    pub begun: Vec<Contact>,
    /// What the pickup rule made of the contacts in `begun`.
    pub harvest: Harvest,
    /// The handles that were doomed and removed when the rules had run.
    pub removed: Vec<Handle>,
    /// For each actor, the worker that her queen brought forth, if any.
    pub spawned: Vec<Option<Handle>>,
}

/// The actors after the death rule has seen the contacts.
pub open spec fn survivors(store: &BodyStore, contacts: Seq<Contact>, actors: Seq<Actor>) -> Seq<
    Actor,
> {
    Seq::new(actors.len(), |i: int| survivor_of_all(store, contacts, actors[i]))
}

/// Whether a frame of `frame_dt` microseconds that ends at `now` leads from
/// `before` to `after` with this report. The stages follow each other in a
/// fixed order: the bodies are simulated in sub-steps under the wishes of
/// `before`; the pickup rule sees the contacts that began, under the policy
/// of the settings; the death rule
/// sees them too, with the bodies as the pickup left them; then the doomed
/// bodies leave together; then the spawner runs; and the contacts of the
/// last sub-step are kept for the next frame.
pub open spec fn is_frame(
    before: &Game,
    after: &Game,
    report: &FrameReport,
    frame_dt: u32,
    now: u64,
) -> bool {
    let settings = before.settings;
    let begun = report.begun@;
    &&& after.settings == settings
    &&& report.steps@.len() == settings.substeps
    &&& begun == all_begun(report.steps@)
    &&& after.contacts@ == report.steps@.last().contacts@
    &&& after.doomed@.len() == 0
    &&& exists|
        moved: BodyStore,
        picked: BodyStore,
        cleared: BodyStore,
        actors1: Seq<Actor>,
        score1: Score,
        actions1: Actions,
    |
        #![trigger
            is_harvest(
                &moved,
                &picked,
                before.actors@,
                actors1,
                before.score,
                score1,
                before.actions,
                actions1,
                begun,
                settings.production_increment,
                now,
                settings.collect_every_pickup,
                report.harvest,
            ),
            is_despawn_step(&picked, &cleared, report.removed@)
        ]
        {
            &&& is_run(
                before.store@,
                before.contacts@,
                moved@,
                report.steps@,
                before.actions,
                settings,
                substep_length(settings, frame_dt),
            )
            &&& is_harvest(
                &moved,
                &picked,
                before.actors@,
                actors1,
                before.score,
                score1,
                before.actions,
                actions1,
                begun,
                settings.production_increment,
                now,
                settings.collect_every_pickup,
                report.harvest,
            )
            &&& after.actions == mourned_all(&picked, begun, actions1)
            &&& report.removed@ == before.doomed@ + all_casualties(
                &picked,
                begun,
                settings.despawn_on_worker_collision,
            )
            &&& is_despawn_step(&picked, &cleared, report.removed@)
            &&& is_spawn_step(
                &cleared,
                &after.store,
                survivors(&picked, begun, actors1),
                after.actors@,
                score1,
                after.score,
                now,
                report.spawned@,
            )
        }
}

impl Game {
    /// Plays one frame of `frame_dt` microseconds that ends at `now`, with
    /// the wishes that stand in `actions`: simulation, pickup rule, death
    /// rule, removal of the doomed, spawner, in this order.
    pub fn frame(&mut self, frame_dt: u32, now: u64) -> (report: FrameReport)
        requires
            old(self).settings.valid(),
        ensures
            is_frame(old(self), final(self), &report, frame_dt, now),
    {
        let steps = simulate(
            &mut self.store,
            &self.contacts,
            &self.actions,
            &self.settings,
            frame_dt,
        );
        let begun = begun_in(&steps);
        let ghost moved = self.store;
        let harvest = pickup_rule(
            &mut self.store,
            &mut self.actors,
            &mut self.score,
            &mut self.actions,
            &begun,
            self.settings.production_increment,
            now,
            self.settings.collect_every_pickup,
        );
        let ghost picked = self.store;
        let ghost actors1 = self.actors@;
        let ghost score1 = self.score;
        let ghost actions1 = self.actions;
        death_rules(
            &self.store,
            &mut self.actors,
            &mut self.actions,
            &mut self.doomed,
            &begun,
            self.settings.despawn_on_worker_collision,
        );
        assert(self.actors@ =~= survivors(&picked, begun@, actors1));
        apply_despawns(&mut self.store, &self.doomed);
        let ghost cleared = self.store;
        let mut removed: Vec<Handle> = Vec::new();
        std::mem::swap(&mut self.doomed, &mut removed);
        let spawned = spawn_worker_bee(&mut self.store, &mut self.actors, &mut self.score, now);
        self.contacts = copy_of(&steps[steps.len() - 1].contacts);
        let report = FrameReport { steps, begun, harvest, removed, spawned };
        proof {
            assert(is_harvest(
                &moved,
                &picked,
                old(self).actors@,
                actors1,
                old(self).score,
                score1,
                old(self).actions,
                actions1,
                report.begun@,
                old(self).settings.production_increment,
                now,
                old(self).settings.collect_every_pickup,
                report.harvest,
            ));
            assert(is_despawn_step(&picked, &cleared, report.removed@));
        }
        report
    }
}

} // verus!
