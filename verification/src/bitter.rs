//! World simulation core of the villager/farm ecosystem game.
//!
//! A world advances one tick at a time. Each tick seeds a small set of
//! top-level stage events onto a last-in-first-out event stack and then
//! drains the stack; handling one event may emit follow-up events, which are
//! pushed onto the same stack and handled before anything queued earlier, so
//! every cascade resolves depth-first before the next stage begins.

use vstd::prelude::*;

use crate::queue::EventQueue;
use crate::rng::pick_index;
use crate::store::{lemma_tbl_at, lemma_tbl_push, tbl_has, tbl_idx, tbl_val, EntityKey,
    EntityStore, Table};

verus! {

pub const GRID_WIDTH: u8 = 8;

pub const GRID_HEIGHT: u8 = 8;

/// Upper clamp for a villager's satiation counter.
pub const MAX_SATIATION: u8 = 5;

/// A villager feels hunger once more than this many ticks passed since it last ate.
pub const HUNGER_PATIENCE: usize = 4;

/// A farm is ready to grow once more than this many ticks passed since it last grew.
pub const GROWTH_PATIENCE: usize = 3;

pub type Ticks = usize;

pub type Coords = (u8, u8);

#[derive(Copy, Clone, PartialEq, Eq, Structural, Debug)]
pub enum Direction {
    Up,
    Down,
    Left,
    Right,
}

/// Both coordinates lie on the grid.
pub open spec fn in_bounds(c: Coords) -> bool {
    c.0 < GRID_WIDTH && c.1 < GRID_HEIGHT
}

/// Moving is blocked at the grid border, inset by one cell on every edge to
/// leave room for the border sprites.
pub open spec fn spec_can_move_in_dir(c: Coords, dir: Direction) -> bool {
    match dir {
        Direction::Up => c.1 > 1,
        Direction::Down => c.1 < GRID_HEIGHT - 2,
        Direction::Left => c.0 > 1,
        Direction::Right => c.0 < GRID_WIDTH - 2,
    }
}

/// One step in the given direction, staying put when the move is blocked.
pub open spec fn spec_coords_after_move(c: Coords, dir: Direction) -> Coords {
    match dir {
        Direction::Up => if c.1 > 1 {
            (c.0, (c.1 - 1) as u8)
        } else {
            c
        },
        Direction::Down => if c.1 < GRID_HEIGHT - 2 {
            (c.0, (c.1 + 1) as u8)
        } else {
            c
        },
        Direction::Left => if c.0 > 1 {
            ((c.0 - 1) as u8, c.1)
        } else {
            c
        },
        Direction::Right => if c.0 < GRID_WIDTH - 2 {
            ((c.0 + 1) as u8, c.1)
        } else {
            c
        },
    }
}

pub fn can_move_in_dir(coords: Coords, dir: Direction) -> (b: bool)
    ensures
        b == spec_can_move_in_dir(coords, dir),
{
    let (x, y) = coords;
    match dir {
        Direction::Up => y > 1,
        Direction::Down => y < GRID_HEIGHT - 2,
        Direction::Left => x > 1,
        Direction::Right => x < GRID_WIDTH - 2,
    }
}

/// Moves one cell in the given direction; a move blocked at the border
/// leaves the position unchanged, so positions on the grid stay on the grid.
pub fn coords_after_move(coords: Coords, dir: Direction) -> (r: Coords)
    ensures
        r == spec_coords_after_move(coords, dir),
        in_bounds(coords) ==> in_bounds(r),
{
    let (x, y) = coords;
    match dir {
        Direction::Up => {
            if y > 1 {
                (x, y - 1)
            } else {
                (x, y)
            }
        },
        Direction::Down => {
            if y < GRID_HEIGHT - 2 {
                (x, y + 1)
            } else {
                (x, y)
            }
        },
        Direction::Left => {
            if x > 1 {
                (x - 1, y)
            } else {
                (x, y)
            }
        },
        Direction::Right => {
            if x < GRID_WIDTH - 2 {
                (x + 1, y)
            } else {
                (x, y)
            }
        },
    }
}

/// An entity has no intrinsic data of its own: its identity lives in the
/// entity store and everything else in the component tables.
#[derive(Copy, Clone, PartialEq, Eq, Structural, Debug)]
pub struct GameEntity;

/// Transient visual marker left at a villager's last position upon death;
/// cleared in bulk at the start of every tick.
#[derive(Copy, Clone, PartialEq, Eq, Structural, Debug)]
pub struct DeathMarker {
    pub key: EntityKey,
}

#[derive(Copy, Clone, PartialEq, Eq, Structural, Debug)]
pub struct Villager {
    pub key: EntityKey,
    pub last_ate: Ticks,
}

impl Villager {
    pub fn new(key: EntityKey, now: Ticks) -> (v: Villager)
        ensures
            v == (Villager { key, last_ate: now }),
    {
        Villager { key, last_ate: now }
    }
}

#[derive(Copy, Clone, PartialEq, Eq, Structural, Debug)]
pub struct Farm {
    pub key: EntityKey,
    pub last_grew: Ticks,
    pub x: u8,
    pub y: u8,
}

impl Farm {
    pub fn new(key: EntityKey, x: u8, y: u8, now: Ticks) -> (f: Farm)
        ensures
            f == (Farm { key, last_grew: now, x, y }),
    {
        Farm { key, last_grew: now, x, y }
    }
}

/// One pending unit of simulation work, created and consumed within a tick.
#[derive(Copy, Clone, PartialEq, Eq, Debug)]
pub enum WorldEvent {
    GravesCleared,
    FarmsCultivated,
    VillagersMoved,
    FarmAdded(Coords),
    VillagerMoved(EntityKey, Direction),
    VillagerAte(EntityKey),
    VillagersHungered,
    VillagerHungered(EntityKey),
    VillagerHarvested(EntityKey),
    FarmGrew(EntityKey),
    FarmHarvested(EntityKey),
    VillagerDied(EntityKey),
    EggLaid(Coords),
}

/// Stage events are seeded once per tick and fan out into one event per
/// matching entity; no handler ever emits a stage event.
pub open spec fn is_stage(e: WorldEvent) -> bool {
    e is GravesCleared || e is FarmsCultivated || e is VillagersMoved || e is VillagersHungered
}

/// Events able to create a villager or a farm. While none is queued, a world
/// with no villagers and no farms stays that way.
pub open spec fn is_spawning(e: WorldEvent) -> bool {
    e is EggLaid || e is FarmAdded
}

/// Weight of one cascade event: handling a non-stage event only emits events
/// of strictly smaller total weight, which bounds every cascade.
pub open spec fn cascade_weight(e: WorldEvent) -> nat {
    if e is VillagerHungered {
        4
    } else if e is VillagerHarvested {
        3
    } else if e is FarmGrew {
        2
    } else {
        1
    }
}

/// Total cascade weight of a queued sequence of events.
pub open spec fn queue_weight(s: Seq<WorldEvent>) -> nat
    decreases s.len(),
{
    if s.len() == 0 {
        0
    } else {
        queue_weight(s.drop_last()) + cascade_weight(s.last())
    }
}

/// Number of stage events in a queued sequence.
pub open spec fn queue_stages(s: Seq<WorldEvent>) -> nat
    decreases s.len(),
{
    if s.len() == 0 {
        0
    } else {
        queue_stages(s.drop_last()) + (if is_stage(s.last()) {
            1nat
        } else {
            0nat
        })
    }
}

proof fn lemma_queue_measures_push(s: Seq<WorldEvent>, e: WorldEvent)
    ensures
        queue_weight(s.push(e)) == queue_weight(s) + cascade_weight(e),
        queue_stages(s.push(e)) == queue_stages(s) + (if is_stage(e) {
            1nat
        } else {
            0nat
        }),
{
    assert(s.push(e).drop_last() =~= s);
    assert(s.push(e).last() == e);
}

/// Some farm stands on cell `c`.
pub open spec fn spec_farm_at(
    farms: Seq<(EntityKey, Farm)>,
    coords: Seq<(EntityKey, Coords)>,
    c: Coords,
) -> bool {
    exists|k: EntityKey| #[trigger] tbl_has(farms, k) && tbl_val(coords, k) == c
}

/// Cell `c` is one unblocked step away from `fc` in some direction.
pub open spec fn spec_adjacent_step(fc: Coords, c: Coords) -> bool {
    exists|dir: Direction|
        #[trigger] spec_can_move_in_dir(fc, dir) && c == spec_coords_after_move(fc, dir)
}

/// A legal growth target for a farm standing at `fc`: one unblocked step
/// away in some direction, and not occupied by any farm.
pub open spec fn spec_growth_candidate(
    farms: Seq<(EntityKey, Farm)>,
    coords: Seq<(EntityKey, Coords)>,
    fc: Coords,
    c: Coords,
) -> bool {
    &&& spec_adjacent_step(fc, c)
    &&& !spec_farm_at(farms, coords, c)
}

/// The world simulation: entity identities, their component tables, and the
/// current tick count. All mutation happens through `tick` and the action
/// requests, each of which drains a full event cascade.
pub struct World {
    entities: EntityStore,
    coords: Table<Coords>,
    death_markers: Table<DeathMarker>,
    farms: Table<Farm>,
    ticks: Ticks,
    satiation: Table<u8>,
    villagers: Table<Villager>,
}

impl World {
    pub closed spec fn now(self) -> Ticks {
        self.ticks
    }

    pub closed spec fn villager_entries(self) -> Seq<(EntityKey, Villager)> {
        self.villagers@
    }

    pub closed spec fn farm_entries(self) -> Seq<(EntityKey, Farm)> {
        self.farms@
    }

    pub closed spec fn coord_entries(self) -> Seq<(EntityKey, Coords)> {
        self.coords@
    }

    pub closed spec fn satiation_entries(self) -> Seq<(EntityKey, u8)> {
        self.satiation@
    }

    pub closed spec fn marker_entries(self) -> Seq<(EntityKey, DeathMarker)> {
        self.death_markers@
    }

    /// Well-formedness of a world: tables keyed at most once per handle; every
    /// handle stored anywhere is live; villagers carry a position and a
    /// bounded satiation; farms carry a position agreeing with their own
    /// coordinates; every stored position is on the grid; and no handle is
    /// two kinds of entity at once.
    pub closed spec fn wf(self) -> bool {
        &&& self.coords.wf()
        &&& self.death_markers.wf()
        &&& self.farms.wf()
        &&& self.satiation.wf()
        &&& self.villagers.wf()
        &&& forall|k: EntityKey| #[trigger] tbl_has(self.villagers@, k) ==> {
            &&& tbl_val(self.villagers@, k).key == k
            &&& tbl_val(self.villagers@, k).last_ate <= self.ticks
            &&& self.entities.live(k)
            &&& tbl_has(self.coords@, k)
            &&& tbl_has(self.satiation@, k)
            &&& !tbl_has(self.farms@, k)
            &&& !tbl_has(self.death_markers@, k)
        }
        &&& forall|k: EntityKey| #[trigger] tbl_has(self.farms@, k) ==> {
            &&& tbl_val(self.farms@, k).key == k
            &&& tbl_val(self.farms@, k).last_grew <= self.ticks
            &&& self.entities.live(k)
            &&& tbl_has(self.coords@, k)
            &&& tbl_val(self.coords@, k) == (tbl_val(self.farms@, k).x, tbl_val(self.farms@, k).y)
            &&& !tbl_has(self.death_markers@, k)
        }
        &&& forall|k: EntityKey| #[trigger] tbl_has(self.death_markers@, k) ==> {
            &&& tbl_val(self.death_markers@, k).key == k
            &&& self.entities.live(k)
            &&& tbl_has(self.coords@, k)
        }
        &&& forall|k: EntityKey| #[trigger] tbl_has(self.coords@, k) ==> {
            &&& self.entities.live(k)
            &&& in_bounds(tbl_val(self.coords@, k))
        }
        &&& forall|k: EntityKey| #[trigger] tbl_has(self.satiation@, k) ==> {
            &&& tbl_has(self.villagers@, k)
            &&& tbl_val(self.satiation@, k) <= MAX_SATIATION
        }
    }

    /// The example world: two villagers and three farms at fixed positions.
    pub fn new() -> (w: World)
        ensures
            w.wf(),
            w.now() == 0,
            w.villager_entries().len() == 2,
            w.farm_entries().len() == 3,
            w.marker_entries().len() == 0,
            tbl_val(w.coord_entries(), w.villager_entries()[0].0) == (4u8, 4u8),
            tbl_val(w.coord_entries(), w.villager_entries()[1].0) == (4u8, 5u8),
            tbl_val(w.coord_entries(), w.farm_entries()[0].0) == (5u8, 4u8),
            tbl_val(w.coord_entries(), w.farm_entries()[1].0) == (5u8, 5u8),
            tbl_val(w.coord_entries(), w.farm_entries()[2].0) == (5u8, 6u8),
            tbl_val(w.satiation_entries(), w.villager_entries()[0].0) == 4u8,
            tbl_val(w.satiation_entries(), w.villager_entries()[1].0) == 4u8,
    {
        let mut world = World {
            entities: EntityStore::new(),
            coords: Table::new(),
            death_markers: Table::new(),
            farms: Table::new(),
            ticks: 0,
            satiation: Table::new(),
            villagers: Table::new(),
        };
        world.add_villager_at(4, 4);
        world.add_villager_at(4, 5);
        world.add_farm_at(5, 4);
        world.add_farm_at(5, 5);
        world.add_farm_at(5, 6);
        world
    }

    /// Builds an otherwise empty world holding no entities at all.
    pub fn empty() -> (w: World)
        ensures
            w.wf(),
            w.now() == 0,
            w.villager_entries().len() == 0,
            w.farm_entries().len() == 0,
            w.satiation_entries().len() == 0,
            w.coord_entries().len() == 0,
            w.marker_entries().len() == 0,
    {
        World {
            entities: EntityStore::new(),
            coords: Table::new(),
            death_markers: Table::new(),
            farms: Table::new(),
            ticks: 0,
            satiation: Table::new(),
            villagers: Table::new(),
        }
    }

    /// Adds a villager at the given on-grid position, with full starting
    /// satiation, fed at the current tick. Returns its fresh handle.
    pub fn add_villager_at(&mut self, x: u8, y: u8) -> (k: EntityKey)
        requires
            old(self).wf(),
            x < GRID_WIDTH,
            y < GRID_HEIGHT,
        ensures
            final(self).wf(),
            final(self).now() == old(self).now(),
            !tbl_has(old(self).coord_entries(), k),
            tbl_has(final(self).coord_entries(), k),
            tbl_val(final(self).coord_entries(), k) == (x, y),
            tbl_has(final(self).satiation_entries(), k),
            tbl_val(final(self).satiation_entries(), k) == 4u8,
            final(self).villager_entries() == old(self).villager_entries().push(
                (k, Villager { key: k, last_ate: old(self).now() }),
            ),
            final(self).coord_entries() == old(self).coord_entries().push((k, (x, y))),
            final(self).satiation_entries() == old(self).satiation_entries().push((k, 4u8)),
            final(self).farm_entries() == old(self).farm_entries(),
            final(self).marker_entries() == old(self).marker_entries(),
            forall|k2: EntityKey|
                tbl_has(old(self).coord_entries(), k2) ==> tbl_has(final(self).coord_entries(), k2)
                    && tbl_val(final(self).coord_entries(), k2) == tbl_val(
                    old(self).coord_entries(),
                    k2,
                ),
            forall|k2: EntityKey|
                tbl_has(old(self).satiation_entries(), k2) ==> tbl_has(
                    final(self).satiation_entries(),
                    k2,
                ) && tbl_val(final(self).satiation_entries(), k2) == tbl_val(
                    old(self).satiation_entries(),
                    k2,
                ),
    {
        let key = self.entities.allocate();
        proof {
            assert(!tbl_has(self.coords@, key));
            assert(!tbl_has(self.villagers@, key));
            assert(!tbl_has(self.farms@, key));
            assert(!tbl_has(self.satiation@, key));
            assert(!tbl_has(self.death_markers@, key));
        }
        let villager = Villager::new(key, self.ticks);
        self.villagers.insert(key, villager);
        self.coords.insert(key, (x, y));
        self.satiation.insert(key, 4);
        key
    }

    /// Adds a farm at the given on-grid position, last grown at the current
    /// tick. Returns its fresh handle.
    pub fn add_farm_at(&mut self, x: u8, y: u8) -> (k: EntityKey)
        requires
            old(self).wf(),
            x < GRID_WIDTH,
            y < GRID_HEIGHT,
        ensures
            final(self).wf(),
            final(self).now() == old(self).now(),
            !tbl_has(old(self).coord_entries(), k),
            tbl_has(final(self).coord_entries(), k),
            tbl_val(final(self).coord_entries(), k) == (x, y),
            final(self).farm_entries() == old(self).farm_entries().push(
                (k, Farm { key: k, last_grew: old(self).now(), x, y }),
            ),
            final(self).coord_entries() == old(self).coord_entries().push((k, (x, y))),
            final(self).villager_entries() == old(self).villager_entries(),
            final(self).satiation_entries() == old(self).satiation_entries(),
            final(self).marker_entries() == old(self).marker_entries(),
            forall|k2: EntityKey|
                tbl_has(old(self).coord_entries(), k2) ==> tbl_has(final(self).coord_entries(), k2)
                    && tbl_val(final(self).coord_entries(), k2) == tbl_val(
                    old(self).coord_entries(),
                    k2,
                ),
    {
        let key = self.entities.allocate();
        proof {
            assert(!tbl_has(self.coords@, key));
            assert(!tbl_has(self.villagers@, key));
            assert(!tbl_has(self.farms@, key));
            assert(!tbl_has(self.satiation@, key));
            assert(!tbl_has(self.death_markers@, key));
        }
        let farm = Farm::new(key, x, y, self.ticks);
        self.farms.insert(key, farm);
        self.coords.insert(key, (x, y));
        key
    }

    /// One villager takes one step; a handle that no longer names a live
    /// villager is ignored.
    fn villager_moved(&mut self, key: EntityKey, dir: Direction) -> (out: Vec<WorldEvent>)
        requires
            old(self).wf(),
        ensures
            final(self).wf(),
            final(self).ticks == old(self).ticks,
            out@.len() == 0,
            final(self).villagers@ == old(self).villagers@,
            final(self).farms@ == old(self).farms@,
            final(self).satiation@ == old(self).satiation@,
            final(self).death_markers@ == old(self).death_markers@,
            !tbl_has(old(self).villagers@, key) ==> *final(self) == *old(self),
            tbl_has(old(self).villagers@, key) ==> {
                &&& tbl_val(final(self).coords@, key) == spec_coords_after_move(
                    tbl_val(old(self).coords@, key),
                    dir,
                )
                &&& forall|k2: EntityKey| k2 != key ==> tbl_has(final(self).coords@, k2)
                    == tbl_has(old(self).coords@, k2)
                &&& forall|k2: EntityKey|
                    k2 != key && tbl_has(old(self).coords@, k2) ==> tbl_val(
                        final(self).coords@,
                        k2,
                    ) == tbl_val(old(self).coords@, k2)
            },
    {
        if self.villagers.contains_key(key) {
            let c = self.coords.get(key).unwrap();
            let c2 = coords_after_move(c, dir);
            self.coords.insert(key, c2);
        }
        Vec::new()
    }

    /// One villager finishes a meal: satiation rises by one (clamped at its
    /// upper bound) and the feeding clock resets to the current tick.
    fn villager_ate(&mut self, key: EntityKey) -> (out: Vec<WorldEvent>)
        requires
            old(self).wf(),
        ensures
            final(self).wf(),
            final(self).ticks == old(self).ticks,
            out@.len() == 0,
            final(self).coords@ == old(self).coords@,
            final(self).farms@ == old(self).farms@,
            final(self).death_markers@ == old(self).death_markers@,
            !tbl_has(old(self).villagers@, key) ==> *final(self) == *old(self),
            tbl_has(old(self).villagers@, key) ==> {
                &&& tbl_has(final(self).villagers@, key)
                &&& tbl_has(final(self).satiation@, key)
                &&& tbl_val(final(self).villagers@, key) == (Villager {
                    key,
                    last_ate: old(self).ticks,
                })
                &&& tbl_val(final(self).satiation@, key) == (if tbl_val(old(self).satiation@, key)
                    < MAX_SATIATION {
                    (tbl_val(old(self).satiation@, key) + 1) as u8
                } else {
                    MAX_SATIATION
                })
                &&& forall|k2: EntityKey| k2 != key ==> tbl_has(final(self).villagers@, k2)
                    == tbl_has(old(self).villagers@, k2) && tbl_has(final(self).satiation@, k2)
                    == tbl_has(old(self).satiation@, k2)
                &&& forall|k2: EntityKey|
                    k2 != key && tbl_has(old(self).villagers@, k2) ==> tbl_val(
                        final(self).villagers@,
                        k2,
                    ) == tbl_val(old(self).villagers@, k2)
                &&& forall|k2: EntityKey|
                    k2 != key && tbl_has(old(self).satiation@, k2) ==> tbl_val(
                        final(self).satiation@,
                        k2,
                    ) == tbl_val(old(self).satiation@, k2)
                &&& final(self).villagers@.len() == old(self).villagers@.len()
            },
    {
        if self.villagers.contains_key(key) {
            self.villagers.insert(key, Villager::new(key, self.ticks));
            let s = self.satiation.get(key).unwrap();
            let s2 = if s < MAX_SATIATION {
                s + 1
            } else {
                s
            };
            self.satiation.insert(key, s2);
        }
        Vec::new()
    }

    /// Stage fan-out: one hunger event per villager, in table order.
    fn villagers_hungered(&self) -> (out: Vec<WorldEvent>)
        requires
            self.wf(),
        ensures
            out@.len() == self.villagers@.len(),
            forall|i: int|
                0 <= i < out@.len() ==> out@[i] == WorldEvent::VillagerHungered(
                    self.villagers@[i].0,
                ),
    {
        let mut out: Vec<WorldEvent> = Vec::new();
        let mut i: usize = 0;
        while i < self.villagers.len()
            invariant
                i <= self.villagers@.len(),
                out@.len() == i,
                forall|j: int|
                    0 <= j < i ==> out@[j] == WorldEvent::VillagerHungered(self.villagers@[j].0),
            decreases self.villagers@.len() - i,
        {
            let e = self.villagers.entry_at(i);
            out.push(WorldEvent::VillagerHungered(e.0));
            i = i + 1;
        }
        out
    }

    /// Stage fan-out: one growth event per farm, in table order.
    fn farms_cultivated(&self) -> (out: Vec<WorldEvent>)
        requires
            self.wf(),
        ensures
            out@.len() == self.farms@.len(),
            forall|i: int|
                0 <= i < out@.len() ==> out@[i] == WorldEvent::FarmGrew(self.farms@[i].0),
    {
        let mut out: Vec<WorldEvent> = Vec::new();
        let mut i: usize = 0;
        while i < self.farms.len()
            invariant
                i <= self.farms@.len(),
                out@.len() == i,
                forall|j: int| 0 <= j < i ==> out@[j] == WorldEvent::FarmGrew(self.farms@[j].0),
            decreases self.farms@.len() - i,
        {
            let e = self.farms.entry_at(i);
            out.push(WorldEvent::FarmGrew(e.0));
            i = i + 1;
        }
        out
    }

    /// Stage fan-out: one move event per villager, each in a direction drawn
    /// at random.
    fn villagers_moved(&self) -> (out: Vec<WorldEvent>)
        requires
            self.wf(),
        ensures
            out@.len() == self.villagers@.len(),
            forall|i: int|
                0 <= i < out@.len() ==> (#[trigger] out@[i]) is VillagerMoved
                    && out@[i]->VillagerMoved_0 == self.villagers@[i].0,
    {
        let mut out: Vec<WorldEvent> = Vec::new();
        let mut i: usize = 0;
        while i < self.villagers.len()
            invariant
                i <= self.villagers@.len(),
                out@.len() == i,
                forall|j: int|
                    0 <= j < i ==> (#[trigger] out@[j]) is VillagerMoved
                        && out@[j]->VillagerMoved_0 == self.villagers@[j].0,
            decreases self.villagers@.len() - i,
        {
            let e = self.villagers.entry_at(i);
            let d = random_direction();
            out.push(WorldEvent::VillagerMoved(e.0, d));
            proof {
                assert(out@[i as int] == WorldEvent::VillagerMoved(self.villagers@[i as int].0, d));
            }
            i = i + 1;
        }
        out
    }

    /// Clears every death marker, freeing the marked entities.
    fn graves_cleared(&mut self) -> (out: Vec<WorldEvent>)
        requires
            old(self).wf(),
        ensures
            final(self).wf(),
            final(self).ticks == old(self).ticks,
            out@.len() == 0,
            final(self).death_markers@.len() == 0,
            final(self).villagers@ == old(self).villagers@,
            final(self).farms@ == old(self).farms@,
            final(self).satiation@ == old(self).satiation@,
            forall|k2: EntityKey|
                !tbl_has(old(self).death_markers@, k2) ==> tbl_has(final(self).coords@, k2)
                    == tbl_has(old(self).coords@, k2),
            forall|k2: EntityKey|
                !tbl_has(old(self).death_markers@, k2) && tbl_has(old(self).coords@, k2)
                    ==> tbl_val(final(self).coords@, k2) == tbl_val(old(self).coords@, k2),
    {
        while self.death_markers.len() > 0
            invariant
                self.wf(),
                self.ticks == old(self).ticks,
                self.villagers@ == old(self).villagers@,
                self.farms@ == old(self).farms@,
                self.satiation@ == old(self).satiation@,
                forall|k2: EntityKey| #[trigger] tbl_has(self.death_markers@, k2) ==> tbl_has(
                    old(self).death_markers@,
                    k2,
                ),
                forall|k2: EntityKey|
                    !tbl_has(old(self).death_markers@, k2) ==> tbl_has(self.coords@, k2)
                        == tbl_has(old(self).coords@, k2),
                forall|k2: EntityKey|
                    !tbl_has(old(self).death_markers@, k2) && tbl_has(old(self).coords@, k2)
                        ==> tbl_val(self.coords@, k2) == tbl_val(old(self).coords@, k2),
            decreases self.death_markers@.len(),
        {
            let n = self.death_markers.len();
            let e = self.death_markers.entry_at(n - 1);
            proof {
                lemma_tbl_at(self.death_markers@, n - 1);
            }
            self.coords.remove(e.0);
            self.entities.deallocate(e.0);
            self.death_markers.remove(e.0);
        }
        Vec::new()
    }

    /// Removes a harvested farm entirely; a stale handle is ignored.
    fn farm_harvested(&mut self, key: EntityKey) -> (out: Vec<WorldEvent>)
        requires
            old(self).wf(),
        ensures
            final(self).wf(),
            final(self).ticks == old(self).ticks,
            out@.len() == 0,
            final(self).villagers@ == old(self).villagers@,
            final(self).satiation@ == old(self).satiation@,
            final(self).death_markers@ == old(self).death_markers@,
            !tbl_has(final(self).farms@, key),
            forall|k2: EntityKey| k2 != key ==> tbl_has(final(self).farms@, k2) == tbl_has(
                old(self).farms@,
                k2,
            ),
            forall|k2: EntityKey|
                k2 != key && tbl_has(old(self).farms@, k2) ==> tbl_val(final(self).farms@, k2)
                    == tbl_val(old(self).farms@, k2),
            forall|k2: EntityKey| k2 != key ==> tbl_has(final(self).coords@, k2) == tbl_has(
                old(self).coords@,
                k2,
            ),
            forall|k2: EntityKey|
                k2 != key && tbl_has(old(self).coords@, k2) ==> tbl_val(final(self).coords@, k2)
                    == tbl_val(old(self).coords@, k2),
            final(self).farms@.len() == old(self).farms@.len() - (if tbl_has(
                old(self).farms@,
                key,
            ) {
                1int
            } else {
                0int
            }),
            !tbl_has(old(self).farms@, key) ==> *final(self) == *old(self),
    {
        if self.farms.contains_key(key) {
            self.farms.remove(key);
            self.coords.remove(key);
            self.entities.deallocate(key);
        }
        Vec::new()
    }

    /// One villager feels the passage of time. Nothing happens until more
    /// than `HUNGER_PATIENCE` ticks passed since it last ate; then it either
    /// goes looking for a harvest (spending one point of satiation) or, with
    /// no satiation left, dies.
    fn villager_hungered(&mut self, key: EntityKey) -> (out: Vec<WorldEvent>)
        requires
            old(self).wf(),
        ensures
            final(self).wf(),
            final(self).ticks == old(self).ticks,
            final(self).coords@ == old(self).coords@,
            final(self).farms@ == old(self).farms@,
            final(self).death_markers@ == old(self).death_markers@,
            final(self).villagers@.len() == old(self).villagers@.len(),
            !tbl_has(old(self).villagers@, key) ==> *final(self) == *old(self) && out@.len() == 0,
            tbl_has(old(self).villagers@, key) && !(old(self).ticks - tbl_val(
                old(self).villagers@,
                key,
            ).last_ate > HUNGER_PATIENCE) ==> *final(self) == *old(self) && out@.len() == 0,
            tbl_has(old(self).villagers@, key) && old(self).ticks - tbl_val(
                old(self).villagers@,
                key,
            ).last_ate > HUNGER_PATIENCE && tbl_val(old(self).satiation@, key) > 0 ==> {
                &&& tbl_has(final(self).villagers@, key)
                &&& tbl_has(final(self).satiation@, key)
                &&& tbl_val(final(self).satiation@, key) == tbl_val(old(self).satiation@, key) - 1
                &&& tbl_val(final(self).villagers@, key) == (Villager {
                    key,
                    last_ate: old(self).ticks,
                })
                &&& forall|k2: EntityKey| k2 != key ==> tbl_has(final(self).villagers@, k2)
                    == tbl_has(old(self).villagers@, k2) && tbl_has(final(self).satiation@, k2)
                    == tbl_has(old(self).satiation@, k2)
                &&& forall|k2: EntityKey|
                    k2 != key && tbl_has(old(self).villagers@, k2) ==> tbl_val(
                        final(self).villagers@,
                        k2,
                    ) == tbl_val(old(self).villagers@, k2)
                &&& forall|k2: EntityKey|
                    k2 != key && tbl_has(old(self).satiation@, k2) ==> tbl_val(
                        final(self).satiation@,
                        k2,
                    ) == tbl_val(old(self).satiation@, k2)
                &&& out@.len() == 1
                &&& out@[0] == WorldEvent::VillagerHarvested(key)
            },
            tbl_has(old(self).villagers@, key) && old(self).ticks - tbl_val(
                old(self).villagers@,
                key,
            ).last_ate > HUNGER_PATIENCE && tbl_val(old(self).satiation@, key) == 0 ==> {
                &&& *final(self) == *old(self)
                &&& out@.len() == 1
                &&& out@[0] == WorldEvent::VillagerDied(key)
            },
    {
        let mut out: Vec<WorldEvent> = Vec::new();
        if !self.villagers.contains_key(key) {
            return out;
        }
        let v = self.villagers.get(key).unwrap();
        if !(self.ticks - v.last_ate > HUNGER_PATIENCE) {
            return out;
        }
        let s = self.satiation.get(key).unwrap();
        if s > 0 {
            self.satiation.insert(key, s - 1);
            self.villagers.insert(key, Villager::new(key, self.ticks));
            out.push(WorldEvent::VillagerHarvested(key));
        } else {
            out.push(WorldEvent::VillagerDied(key));
        }
        out
    }

    /// A hungry villager picks one of the remaining farms at random; eating
    /// and removing the farm are follow-up events of their own. With no farm
    /// left, the villager goes without.
    fn villager_harvested(&self, vk: EntityKey) -> (out: Vec<WorldEvent>)
        requires
            self.wf(),
        ensures
            self.farms@.len() == 0 ==> out@.len() == 0,
            self.farms@.len() > 0 ==> {
                &&& out@.len() == 2
                &&& out@[0] is FarmHarvested
                &&& tbl_has(self.farms@, out@[0]->FarmHarvested_0)
                &&& out@[1] == WorldEvent::VillagerAte(vk)
            },
    {
        let mut out: Vec<WorldEvent> = Vec::new();
        let n = self.farms.len();
        if n > 0 {
            let i = pick_index(n);
            let e = self.farms.entry_at(i);
            proof {
                lemma_tbl_at(self.farms@, i as int);
            }
            out.push(WorldEvent::FarmHarvested(e.0));
            out.push(WorldEvent::VillagerAte(vk));
        }
        out
    }

    /// A villager dies: its components are removed, its entity slot freed,
    /// and exactly one death marker is left at its last position.
    fn villager_died(&mut self, vk: EntityKey) -> (out: Vec<WorldEvent>)
        requires
            old(self).wf(),
        ensures
            final(self).wf(),
            final(self).ticks == old(self).ticks,
            out@.len() == 0,
            final(self).farms@ == old(self).farms@,
            !tbl_has(old(self).villagers@, vk) ==> *final(self) == *old(self),
            tbl_has(old(self).villagers@, vk) ==> {
                &&& !tbl_has(final(self).villagers@, vk)
                &&& final(self).villagers@.len() == old(self).villagers@.len() - 1
                &&& forall|k2: EntityKey| k2 != vk ==> tbl_has(final(self).villagers@, k2)
                    == tbl_has(old(self).villagers@, k2)
                &&& forall|k2: EntityKey|
                    k2 != vk && tbl_has(old(self).villagers@, k2) ==> tbl_val(
                        final(self).villagers@,
                        k2,
                    ) == tbl_val(old(self).villagers@, k2)
                &&& final(self).death_markers@.len() == old(self).death_markers@.len() + 1
                &&& forall|j: int|
                    0 <= j < old(self).death_markers@.len() ==> final(self).death_markers@[j]
                        == old(self).death_markers@[j]
                &&& !tbl_has(old(self).death_markers@, final(self).death_markers@.last().0)
                &&& tbl_val(final(self).coords@, final(self).death_markers@.last().0) == tbl_val(
                    old(self).coords@,
                    vk,
                )
                &&& forall|k2: EntityKey|
                    k2 != vk && tbl_has(old(self).coords@, k2) ==> tbl_has(
                        final(self).coords@,
                        k2,
                    ) && tbl_val(final(self).coords@, k2) == tbl_val(old(self).coords@, k2)
            },
    {
        if self.villagers.contains_key(vk) {
            let c = self.coords.get(vk).unwrap();
            self.villagers.remove(vk);
            self.satiation.remove(vk);
            self.coords.remove(vk);
            let ghost coords2 = self.coords@;
            self.entities.deallocate(vk);
            let mk = self.entities.allocate();
            proof {
                assert(!tbl_has(self.coords@, mk));
                assert(!tbl_has(self.villagers@, mk));
                assert(!tbl_has(self.farms@, mk));
                assert(!tbl_has(self.satiation@, mk));
                assert(!tbl_has(self.death_markers@, mk));
            }
            self.death_markers.insert(mk, DeathMarker { key: mk });
            self.coords.insert(mk, c);
            proof {
                assert forall|k2: EntityKey|
                    k2 != vk && tbl_has(old(self).coords@, k2) implies tbl_has(self.coords@, k2)
                    && tbl_val(self.coords@, k2) == tbl_val(old(self).coords@, k2) by {
                    assert(tbl_has(coords2, k2));
                    assert(tbl_val(coords2, k2) == tbl_val(old(self).coords@, k2));
                    assert(k2 != mk);
                }
            }
        }
        Vec::new()
    }

    /// Allocates a new farm at the given position; a position off the grid
    /// is ignored.
    fn farm_added(&mut self, coords: Coords) -> (out: Vec<WorldEvent>)
        requires
            old(self).wf(),
        ensures
            final(self).wf(),
            final(self).ticks == old(self).ticks,
            out@.len() == 0,
            final(self).villagers@ == old(self).villagers@,
            final(self).satiation@ == old(self).satiation@,
            final(self).death_markers@ == old(self).death_markers@,
            !in_bounds(coords) ==> *final(self) == *old(self),
            in_bounds(coords) ==> {
                &&& final(self).farms@.len() == old(self).farms@.len() + 1
                &&& forall|j: int|
                    0 <= j < old(self).farms@.len() ==> final(self).farms@[j] == old(
                        self,
                    ).farms@[j]
                &&& final(self).farms@.last().1 == (Farm {
                    key: final(self).farms@.last().0,
                    last_grew: old(self).ticks,
                    x: coords.0,
                    y: coords.1,
                })
                &&& !tbl_has(old(self).coord_entries(), final(self).farms@.last().0)
                &&& tbl_val(final(self).coords@, final(self).farms@.last().0) == coords
                &&& forall|k2: EntityKey|
                    tbl_has(old(self).coords@, k2) ==> tbl_has(final(self).coords@, k2)
                        && tbl_val(final(self).coords@, k2) == tbl_val(old(self).coords@, k2)
            },
    {
        let (x, y) = coords;
        if x < GRID_WIDTH && y < GRID_HEIGHT {
            let ghost coords0 = self.coords@;
            let ghost farms0 = self.farms@;
            let k = self.add_farm_at(x, y);
            proof {
                lemma_tbl_push(coords0, self.coords@, k, (x, y));
                lemma_tbl_push(
                    farms0,
                    self.farms@,
                    k,
                    Farm { key: k, last_grew: self.ticks, x, y },
                );
            }
        }
        Vec::new()
    }

    /// Hatches a new villager at the given position, with full starting
    /// satiation; a position off the grid is ignored.
    fn egg_laid(&mut self, coords: Coords) -> (out: Vec<WorldEvent>)
        requires
            old(self).wf(),
        ensures
            final(self).wf(),
            final(self).ticks == old(self).ticks,
            out@.len() == 0,
            final(self).farms@ == old(self).farms@,
            final(self).death_markers@ == old(self).death_markers@,
            !in_bounds(coords) ==> *final(self) == *old(self),
            in_bounds(coords) ==> {
                &&& final(self).villagers@.len() == old(self).villagers@.len() + 1
                &&& forall|j: int|
                    0 <= j < old(self).villagers@.len() ==> final(self).villagers@[j] == old(
                        self,
                    ).villagers@[j]
                &&& final(self).villagers@.last().1 == (Villager {
                    key: final(self).villagers@.last().0,
                    last_ate: old(self).ticks,
                })
                &&& !tbl_has(old(self).coord_entries(), final(self).villagers@.last().0)
                &&& tbl_val(final(self).coords@, final(self).villagers@.last().0) == coords
                &&& tbl_val(final(self).satiation@, final(self).villagers@.last().0) == 4u8
                &&& forall|k2: EntityKey|
                    tbl_has(old(self).coords@, k2) ==> tbl_has(final(self).coords@, k2)
                        && tbl_val(final(self).coords@, k2) == tbl_val(old(self).coords@, k2)
            },
    {
        let (x, y) = coords;
        if x < GRID_WIDTH && y < GRID_HEIGHT {
            let ghost coords0 = self.coords@;
            let ghost villagers0 = self.villagers@;
            let ghost satiation0 = self.satiation@;
            let k = self.add_villager_at(x, y);
            proof {
                assert(!tbl_has(villagers0, k));
                assert(!tbl_has(satiation0, k));
                lemma_tbl_push(coords0, self.coords@, k, (x, y));
                lemma_tbl_push(
                    villagers0,
                    self.villagers@,
                    k,
                    Villager { key: k, last_ate: self.ticks },
                );
                lemma_tbl_push(satiation0, self.satiation@, k, 4u8);
            }
        }
        Vec::new()
    }

    /// True when some farm stands on cell `c`.
    fn farm_occupies(&self, c: Coords) -> (b: bool)
        requires
            self.wf(),
        ensures
            b == spec_farm_at(self.farms@, self.coords@, c),
    {
        let mut i: usize = 0;
        while i < self.farms.len()
            invariant
                self.wf(),
                i <= self.farms@.len(),
                forall|j: int|
                    0 <= j < i ==> tbl_val(self.coords@, #[trigger] self.farms@[j].0) != c,
            decreases self.farms@.len() - i,
        {
            let e = self.farms.entry_at(i);
            proof {
                lemma_tbl_at(self.farms@, i as int);
            }
            let fc = self.coords.get(e.0).unwrap();
            if fc.0 == c.0 && fc.1 == c.1 {
                return true;
            }
            i = i + 1;
        }
        proof {
            assert forall|k: EntityKey| tbl_has(self.farms@, k) implies tbl_val(
                self.coords@,
                k,
            ) != c by {
                let j = tbl_idx(self.farms@, k);
                assert(self.farms@[j].0 == k);
            }
        }
        false
    }

    /// A farm that has not grown for more than `GROWTH_PATIENCE` ticks picks
    /// one free neighbouring cell at random and sprouts a new farm there; a
    /// farm hemmed in on every side skips its turn. Either way its growth
    /// clock resets. A stale handle is ignored.
    fn farm_grew(&mut self, key: EntityKey) -> (out: Vec<WorldEvent>)
        requires
            old(self).wf(),
        ensures
            final(self).wf(),
            final(self).ticks == old(self).ticks,
            final(self).villagers@ == old(self).villagers@,
            final(self).satiation@ == old(self).satiation@,
            final(self).death_markers@ == old(self).death_markers@,
            final(self).coords@ == old(self).coords@,
            final(self).farms@.len() == old(self).farms@.len(),
            !tbl_has(old(self).farms@, key) ==> *final(self) == *old(self) && out@.len() == 0,
            tbl_has(old(self).farms@, key) && !(old(self).ticks - tbl_val(
                old(self).farms@,
                key,
            ).last_grew > GROWTH_PATIENCE) ==> *final(self) == *old(self) && out@.len() == 0,
            tbl_has(old(self).farms@, key) && old(self).ticks - tbl_val(
                old(self).farms@,
                key,
            ).last_grew > GROWTH_PATIENCE ==> {
                &&& tbl_has(final(self).farms@, key)
                &&& tbl_val(final(self).farms@, key) == (Farm {
                    key,
                    last_grew: old(self).ticks,
                    x: tbl_val(old(self).farms@, key).x,
                    y: tbl_val(old(self).farms@, key).y,
                })
                &&& forall|k2: EntityKey| k2 != key ==> tbl_has(final(self).farms@, k2)
                    == tbl_has(old(self).farms@, k2)
                &&& forall|k2: EntityKey|
                    k2 != key && tbl_has(old(self).farms@, k2) ==> tbl_val(
                        final(self).farms@,
                        k2,
                    ) == tbl_val(old(self).farms@, k2)
                &&& out@.len() <= 1
                &&& forall|i: int|
                    0 <= i < out@.len() ==> (#[trigger] out@[i]) is FarmAdded
                        && spec_growth_candidate(
                        old(self).farms@,
                        old(self).coords@,
                        tbl_val(old(self).coords@, key),
                        out@[i]->FarmAdded_0,
                    )
                &&& (exists|c: Coords|
                    #[trigger] spec_growth_candidate(
                        old(self).farms@,
                        old(self).coords@,
                        tbl_val(old(self).coords@, key),
                        c,
                    )) ==> out@.len() == 1
            },
    {
        if !self.farms.contains_key(key) {
            return Vec::new();
        }
        let f = self.farms.get(key).unwrap();
        if !(self.ticks - f.last_grew > GROWTH_PATIENCE) {
            return Vec::new();
        }
        let ghost farms0 = self.farms@;
        let fc = self.coords.get(key).unwrap();
        self.farms.insert(key, Farm::new(key, f.x, f.y, self.ticks));
        proof {
            assert forall|c: Coords| #[trigger] spec_farm_at(self.farms@, self.coords@, c)
                == spec_farm_at(farms0, self.coords@, c) by {
                if spec_farm_at(self.farms@, self.coords@, c) {
                    let k = choose|k: EntityKey|
                        #[trigger] tbl_has(self.farms@, k) && tbl_val(self.coords@, k) == c;
                    assert(tbl_has(farms0, k));
                }
                if spec_farm_at(farms0, self.coords@, c) {
                    let k = choose|k: EntityKey|
                        #[trigger] tbl_has(farms0, k) && tbl_val(self.coords@, k) == c;
                    assert(tbl_has(self.farms@, k));
                }
            }
        }
        let mut cands: Vec<Coords> = Vec::new();
        if can_move_in_dir(fc, Direction::Up) {
            cands.push(coords_after_move(fc, Direction::Up));
        }
        if can_move_in_dir(fc, Direction::Down) {
            cands.push(coords_after_move(fc, Direction::Down));
        }
        if can_move_in_dir(fc, Direction::Left) {
            cands.push(coords_after_move(fc, Direction::Left));
        }
        if can_move_in_dir(fc, Direction::Right) {
            cands.push(coords_after_move(fc, Direction::Right));
        }
        proof {
            assert(forall|i: int|
                0 <= i < cands@.len() ==> spec_adjacent_step(fc, #[trigger] cands@[i]));
            assert forall|dir: Direction| #[trigger] spec_can_move_in_dir(fc, dir) implies exists|
                i: int,
            |
                0 <= i < cands@.len() && cands@[i] == spec_coords_after_move(fc, dir) by {
                if dir == Direction::Up {
                    assert(cands@[0] == spec_coords_after_move(fc, dir));
                } else if dir == Direction::Down {
                    let i = if spec_can_move_in_dir(fc, Direction::Up) {
                        1int
                    } else {
                        0int
                    };
                    assert(cands@[i] == spec_coords_after_move(fc, dir));
                } else if dir == Direction::Left {
                    let i = (if spec_can_move_in_dir(fc, Direction::Up) {
                        1int
                    } else {
                        0int
                    }) + (if spec_can_move_in_dir(fc, Direction::Down) {
                        1int
                    } else {
                        0int
                    });
                    assert(cands@[i] == spec_coords_after_move(fc, dir));
                } else {
                    let i = cands@.len() - 1;
                    assert(cands@[i] == spec_coords_after_move(fc, dir));
                }
            }
        }
        let mut free_cells: Vec<Coords> = Vec::new();
        let mut i: usize = 0;
        while i < cands.len()
            invariant
                self.wf(),
                i <= cands@.len(),
                forall|j: int|
                    0 <= j < free_cells@.len() ==> !spec_farm_at(
                        self.farms@,
                        self.coords@,
                        #[trigger] free_cells@[j],
                    ) && exists|m: int| 0 <= m < cands@.len() && cands@[m] == free_cells@[j],
                forall|m: int|
                    0 <= m < i ==> spec_farm_at(self.farms@, self.coords@, #[trigger] cands@[m])
                        || exists|j: int|
                        0 <= j < free_cells@.len() && free_cells@[j] == cands@[m],
            decreases cands@.len() - i,
        {
            let c = cands[i];
            if !self.farm_occupies(c) {
                let ghost fc0 = free_cells@;
                free_cells.push(c);
                proof {
                    assert(free_cells@.last() == cands@[i as int]);
                    assert forall|m: int| 0 <= m < i implies spec_farm_at(
                        self.farms@,
                        self.coords@,
                        #[trigger] cands@[m],
                    ) || exists|j: int|
                        0 <= j < free_cells@.len() && free_cells@[j] == cands@[m] by {
                        if !spec_farm_at(self.farms@, self.coords@, cands@[m]) {
                            let j = choose|j: int| 0 <= j < fc0.len() && fc0[j] == cands@[m];
                            assert(free_cells@[j] == cands@[m]);
                        }
                    }
                }
            }
            i = i + 1;
        }
        let mut out: Vec<WorldEvent> = Vec::new();
        if free_cells.len() == 0 {
            proof {
                assert forall|c: Coords|
                    !spec_growth_candidate(farms0, self.coords@, fc, c) by {
                    if spec_adjacent_step(fc, c) {
                        let dir = choose|dir: Direction|
                            #[trigger] spec_can_move_in_dir(fc, dir) && c
                                == spec_coords_after_move(fc, dir);
                        let m = choose|m: int|
                            0 <= m < cands@.len() && cands@[m] == spec_coords_after_move(fc, dir);
                        assert(spec_farm_at(self.farms@, self.coords@, cands@[m]));
                        assert(spec_farm_at(farms0, self.coords@, c));
                    }
                }
            }
            return out;
        }
        let ci = pick_index(free_cells.len());
        let c = free_cells[ci];
        out.push(WorldEvent::FarmAdded(c));
        proof {
            assert(!spec_farm_at(farms0, self.coords@, c));
            assert(spec_growth_candidate(farms0, self.coords@, fc, c));
        }
        out
    }

    /// A villager's full harvest cascade, resolved at once: with farms left,
    /// one farm (chosen at random) is consumed and the villager eats —
    /// satiation rises by one (clamped) and the feeding clock resets; with
    /// no farm left, nothing happens.
    pub fn cascade_villager_harvested(&mut self, vk: EntityKey)
        requires
            old(self).wf(),
        ensures
            final(self).wf(),
            final(self).now() == old(self).now(),
            final(self).marker_entries() == old(self).marker_entries(),
            old(self).farm_entries().len() == 0 ==> *final(self) == *old(self),
            old(self).farm_entries().len() > 0 ==> {
                &&& final(self).farm_entries().len() == old(self).farm_entries().len() - 1
                &&& forall|k: EntityKey| #[trigger] tbl_has(final(self).farm_entries(), k)
                    ==> tbl_has(old(self).farm_entries(), k)
                &&& tbl_has(old(self).villager_entries(), vk) ==> tbl_has(
                    final(self).villager_entries(),
                    vk,
                ) && tbl_val(final(self).villager_entries(), vk) == (Villager {
                    key: vk,
                    last_ate: old(self).now(),
                }) && tbl_val(final(self).satiation_entries(), vk) == (if tbl_val(
                    old(self).satiation_entries(),
                    vk,
                ) < MAX_SATIATION {
                    (tbl_val(old(self).satiation_entries(), vk) + 1) as u8
                } else {
                    MAX_SATIATION
                })
                &&& !tbl_has(old(self).villager_entries(), vk) ==> final(self).villager_entries()
                    == old(self).villager_entries() && final(self).satiation_entries()
                    == old(self).satiation_entries()
                &&& final(self).villager_entries().len() == old(self).villager_entries().len()
                &&& forall|k2: EntityKey| k2 != vk ==> tbl_has(final(self).villager_entries(), k2)
                    == tbl_has(old(self).villager_entries(), k2)
                &&& forall|k2: EntityKey|
                    k2 != vk && tbl_has(old(self).villager_entries(), k2) ==> tbl_val(
                        final(self).villager_entries(),
                        k2,
                    ) == tbl_val(old(self).villager_entries(), k2)
                &&& forall|k2: EntityKey|
                    k2 != vk && tbl_has(old(self).satiation_entries(), k2) ==> tbl_val(
                        final(self).satiation_entries(),
                        k2,
                    ) == tbl_val(old(self).satiation_entries(), k2)
            },
    {
        let out = self.villager_harvested(vk);
        if out.len() > 0 {
            self.villager_ate(vk);
            if let WorldEvent::FarmHarvested(fk) = out[0] {
                self.farm_harvested(fk);
            }
        }
    }

    /// A villager's full hunger cascade, resolved at once. Nothing happens
    /// until more than `HUNGER_PATIENCE` ticks passed since the villager
    /// last ate. Then, with satiation left, it spends one point, its clock
    /// resets, and it harvests (eating back the point if any farm remains);
    /// at satiation zero it dies, leaving one death marker.
    pub fn cascade_villager_hungered(&mut self, key: EntityKey)
        requires
            old(self).wf(),
        ensures
            final(self).wf(),
            final(self).now() == old(self).now(),
            !tbl_has(old(self).villager_entries(), key) ==> *final(self) == *old(self),
            tbl_has(old(self).villager_entries(), key) && !(old(self).now() - tbl_val(
                old(self).villager_entries(),
                key,
            ).last_ate > HUNGER_PATIENCE) ==> *final(self) == *old(self),
            tbl_has(old(self).villager_entries(), key) && old(self).now() - tbl_val(
                old(self).villager_entries(),
                key,
            ).last_ate > HUNGER_PATIENCE && tbl_val(old(self).satiation_entries(), key) > 0 ==> {
                &&& tbl_has(final(self).villager_entries(), key)
                &&& tbl_val(final(self).villager_entries(), key) == (Villager {
                    key,
                    last_ate: old(self).now(),
                })
                &&& (old(self).farm_entries().len() > 0 ==> tbl_val(
                    final(self).satiation_entries(),
                    key,
                ) == tbl_val(old(self).satiation_entries(), key)
                    && final(self).farm_entries().len() == old(self).farm_entries().len() - 1)
                &&& (old(self).farm_entries().len() == 0 ==> tbl_val(
                    final(self).satiation_entries(),
                    key,
                ) == (tbl_val(old(self).satiation_entries(), key) - 1) as u8
                    && final(self).farm_entries() == old(self).farm_entries())
                &&& final(self).villager_entries().len() == old(self).villager_entries().len()
                &&& final(self).marker_entries() == old(self).marker_entries()
            },
            tbl_has(old(self).villager_entries(), key) && old(self).now() - tbl_val(
                old(self).villager_entries(),
                key,
            ).last_ate > HUNGER_PATIENCE && tbl_val(old(self).satiation_entries(), key) == 0 ==> {
                &&& !tbl_has(final(self).villager_entries(), key)
                &&& final(self).villager_entries().len() == old(self).villager_entries().len()
                    - 1
                &&& final(self).marker_entries().len() == old(self).marker_entries().len() + 1
                &&& final(self).farm_entries() == old(self).farm_entries()
            },
    {
        let out = self.villager_hungered(key);
        if out.len() > 0 {
            // the hunger handler only ever emits a harvest or a death
            match out[0] {
                WorldEvent::VillagerHarvested(vk) => {
                    self.cascade_villager_harvested(vk);
                },
                WorldEvent::VillagerDied(vk) => {
                    self.villager_died(vk);
                },
                _ => {},
            }
        }
    }

    /// A farm's full growth cascade, resolved at once. Nothing happens
    /// until more than `GROWTH_PATIENCE` ticks passed since the farm last
    /// grew. Then its clock resets and, exactly when some free neighbouring
    /// cell exists, a new farm appears on one such cell.
    pub fn cascade_farm_grew(&mut self, key: EntityKey)
        requires
            old(self).wf(),
        ensures
            final(self).wf(),
            final(self).now() == old(self).now(),
            final(self).villager_entries() == old(self).villager_entries(),
            final(self).satiation_entries() == old(self).satiation_entries(),
            final(self).marker_entries() == old(self).marker_entries(),
            !tbl_has(old(self).farm_entries(), key) ==> *final(self) == *old(self),
            tbl_has(old(self).farm_entries(), key) && !(old(self).now() - tbl_val(
                old(self).farm_entries(),
                key,
            ).last_grew > GROWTH_PATIENCE) ==> *final(self) == *old(self),
            tbl_has(old(self).farm_entries(), key) && old(self).now() - tbl_val(
                old(self).farm_entries(),
                key,
            ).last_grew > GROWTH_PATIENCE ==> {
                &&& tbl_has(final(self).farm_entries(), key)
                &&& tbl_val(final(self).farm_entries(), key).last_grew == old(self).now()
                &&& ((exists|c: Coords|
                    #[trigger] spec_growth_candidate(
                        old(self).farm_entries(),
                        old(self).coord_entries(),
                        tbl_val(old(self).coord_entries(), key),
                        c,
                    )) ==> final(self).farm_entries().len() == old(self).farm_entries().len()
                    + 1)
                &&& (!(exists|c: Coords|
                    #[trigger] spec_growth_candidate(
                        old(self).farm_entries(),
                        old(self).coord_entries(),
                        tbl_val(old(self).coord_entries(), key),
                        c,
                    )) ==> final(self).farm_entries().len() == old(self).farm_entries().len())
                &&& (final(self).farm_entries().len() == old(self).farm_entries().len() + 1
                    ==> spec_growth_candidate(
                    old(self).farm_entries(),
                    old(self).coord_entries(),
                    tbl_val(old(self).coord_entries(), key),
                    tbl_val(final(self).coord_entries(), final(self).farm_entries().last().0),
                ))
            },
    {
        let out = self.farm_grew(key);
        if out.len() > 0 {
            if let WorldEvent::FarmAdded(c) = out[0] {
                proof {
                    let fc = tbl_val(old(self).coord_entries(), key);
                    assert(spec_growth_candidate(
                        old(self).farm_entries(),
                        old(self).coord_entries(),
                        fc,
                        c,
                    ));
                    let dir = choose|dir: Direction|
                        #[trigger] spec_can_move_in_dir(fc, dir) && c == spec_coords_after_move(
                            fc,
                            dir,
                        );
                    lemma_move_stays_in_bounds(fc, dir);
                }
                self.farm_added(c);
            }
        }
    }

    /// Dispatches one event to its rule handler.
    fn handle_event(&mut self, e: WorldEvent) -> (out: Vec<WorldEvent>)
        requires
            old(self).wf(),
        ensures
            final(self).wf(),
            final(self).ticks == old(self).ticks,
            forall|i: int| 0 <= i < out@.len() ==> !is_stage(#[trigger] out@[i]),
            forall|i: int| 0 <= i < out@.len() ==> !((#[trigger] out@[i]) is EggLaid),
            !is_stage(e) ==> queue_weight(out@) < cascade_weight(e),
            (old(self).villagers@.len() == 0 && old(self).farms@.len() == 0 && !is_spawning(e))
                ==> (final(self).villagers@.len() == 0 && final(self).farms@.len() == 0
                && out@.len() == 0),
            !(e is EggLaid) && !(e is GravesCleared) ==> final(self).death_markers@.len()
                - old(self).death_markers@.len() == old(self).villagers@.len()
                - final(self).villagers@.len(),
            !(e is EggLaid) ==> final(self).villagers@.len() <= old(self).villagers@.len(),
            e is GravesCleared ==> final(self).death_markers@.len() == 0
                && final(self).villagers@.len() == old(self).villagers@.len(),
            forall|k: EntityKey| #[trigger] tbl_has(final(self).villagers@, k) ==> tbl_val(
                final(self).villagers@,
                k,
            ).last_ate == old(self).ticks || (tbl_has(old(self).villagers@, k) && tbl_val(
                final(self).villagers@,
                k,
            ) == tbl_val(old(self).villagers@, k)),
            e is VillagersHungered ==> *final(self) == *old(self) && out@.len() == old(
                self,
            ).villagers@.len() && (forall|i: int|
                0 <= i < out@.len() ==> out@[i] == WorldEvent::VillagerHungered(
                    (#[trigger] old(self).villagers@[i]).0,
                )),
            e is VillagerHungered ==> (tbl_has(final(self).villagers@, e->VillagerHungered_0)
                ==> tbl_val(final(self).villagers@, e->VillagerHungered_0).last_ate == old(
                self,
            ).ticks || old(self).ticks - tbl_val(
                old(self).villagers@,
                e->VillagerHungered_0,
            ).last_ate <= HUNGER_PATIENCE || (out@.len() == 1 && out@[0]
                == WorldEvent::VillagerDied(e->VillagerHungered_0))),
            e is VillagerDied ==> !tbl_has(final(self).villagers@, e->VillagerDied_0),
    {
        let out = match e {
            WorldEvent::VillagerMoved(key, dir) => self.villager_moved(key, dir),
            WorldEvent::VillagerAte(key) => self.villager_ate(key),
            WorldEvent::VillagersHungered => self.villagers_hungered(),
            WorldEvent::VillagerHungered(key) => self.villager_hungered(key),
            WorldEvent::FarmGrew(key) => self.farm_grew(key),
            WorldEvent::FarmHarvested(key) => self.farm_harvested(key),
            WorldEvent::VillagerDied(vk) => self.villager_died(vk),
            WorldEvent::FarmAdded(coords) => self.farm_added(coords),
            WorldEvent::VillagerHarvested(vk) => self.villager_harvested(vk),
            WorldEvent::GravesCleared => self.graves_cleared(),
            WorldEvent::FarmsCultivated => self.farms_cultivated(),
            WorldEvent::VillagersMoved => self.villagers_moved(),
            WorldEvent::EggLaid(coords) => self.egg_laid(coords),
        };
        proof {
            lemma_queue_weight_small(out@);
        }
        out
    }

    /// The dispatch loop: pops the most recently pushed event, hands it to
    /// its rule handler, and pushes whatever the handler emitted, until the
    /// stack is empty. Cascades terminate because stage events are never
    /// re-emitted and every other event only emits strictly lighter ones.
    fn run_events(&mut self, q: EventQueue<WorldEvent>)
        requires
            old(self).wf(),
        ensures
            final(self).wf(),
            final(self).ticks == old(self).ticks,
            (old(self).villagers@.len() == 0 && old(self).farms@.len() == 0 && (forall|i: int|
                0 <= i < q@.len() ==> !is_spawning(#[trigger] q@[i]))) ==> (
            final(self).villagers@.len() == 0 && final(self).farms@.len() == 0),
            (q@.len() > 0 && q@.last() is GravesCleared && (forall|i: int|
                0 <= i < q@.len() - 1 ==> !((#[trigger] q@[i]) is GravesCleared)) && (forall|
                i: int,
            |
                0 <= i < q@.len() ==> !((#[trigger] q@[i]) is EggLaid))) ==> (
            final(self).villagers@.len() <= old(self).villagers@.len()
                && final(self).death_markers@.len() == old(self).villagers@.len()
                - final(self).villagers@.len()),
            (exists|i: int| 0 <= i < q@.len() && q@[i] == WorldEvent::VillagersHungered)
                ==> forall|k: EntityKey| #[trigger] tbl_has(final(self).villagers@, k) ==> old(
                self,
            ).ticks - tbl_val(final(self).villagers@, k).last_ate <= HUNGER_PATIENCE,
    {
        let mut q = q;
        let ghost pre_ok = old(self).villagers@.len() == 0 && old(self).farms@.len() == 0 && (
        forall|i: int| 0 <= i < q@.len() ==> !is_spawning(#[trigger] q@[i]));
        let ghost clears_first = q@.len() > 0 && q@.last() is GravesCleared && (forall|i: int|
            0 <= i < q@.len() - 1 ==> !((#[trigger] q@[i]) is GravesCleared)) && (forall|i: int|
            0 <= i < q@.len() ==> !((#[trigger] q@[i]) is EggLaid));
        let ghost hunger_seed = exists|i: int|
            0 <= i < q@.len() && q@[i] == WorldEvent::VillagersHungered;
        while q.len() > 0
            invariant
                self.wf(),
                self.ticks == old(self).ticks,
                hunger_seed ==> (forall|k: EntityKey| #[trigger] tbl_has(self.villagers@, k)
                    ==> self.ticks - tbl_val(self.villagers@, k).last_ate <= HUNGER_PATIENCE || (
                exists|i: int|
                    0 <= i < q@.len() && ((#[trigger] q@[i]) == WorldEvent::VillagersHungered
                        || q@[i] == WorldEvent::VillagerHungered(k) || q@[i]
                        == WorldEvent::VillagerDied(k)))),
                pre_ok ==> (self.villagers@.len() == 0 && self.farms@.len() == 0 && (forall|
                    i: int,
                |
                    0 <= i < q@.len() ==> !is_spawning(#[trigger] q@[i]))),
                clears_first ==> (forall|i: int|
                    0 <= i < q@.len() ==> !((#[trigger] q@[i]) is EggLaid)),
                clears_first ==> ({
                    ||| (q@.len() > 0 && q@.last() is GravesCleared && (forall|i: int|
                        0 <= i < q@.len() - 1 ==> !((#[trigger] q@[i]) is GravesCleared))
                        && self.villagers@.len() == old(self).villagers@.len()
                        && self.death_markers@ == old(self).death_markers@)
                    ||| ((forall|i: int|
                        0 <= i < q@.len() ==> !((#[trigger] q@[i]) is GravesCleared))
                        && self.villagers@.len() <= old(self).villagers@.len()
                        && self.death_markers@.len() == old(self).villagers@.len()
                        - self.villagers@.len())
                }),
            decreases queue_stages(q@), queue_weight(q@),
        {
            let ghost q0 = q@;
            let ghost v_pre = self.villagers@;
            let e = q.pop();
            let ghost q1 = q@;
            proof {
                assert(queue_stages(q0) == queue_stages(q1) + (if is_stage(e) {
                    1nat
                } else {
                    0nat
                }));
                assert(queue_weight(q0) == queue_weight(q1) + cascade_weight(e));
            }
            let out = self.handle_event(e);
            let mut i: usize = 0;
            while i < out.len()
                invariant
                    i <= out@.len(),
                    q@ == q1 + out@.subrange(0, i as int),
                    queue_stages(q@) == queue_stages(q1),
                    queue_weight(q@) == queue_weight(q1) + queue_weight(
                        out@.subrange(0, i as int),
                    ),
                    forall|j: int| 0 <= j < out@.len() ==> !is_stage(#[trigger] out@[j]),
                    pre_ok ==> out@.len() == 0,
                decreases out@.len() - i,
            {
                let ghost qa = q@;
                let ev = out[i];
                q.push(ev);
                proof {
                    lemma_queue_measures_push(qa, ev);
                    assert(out@.subrange(0, i + 1 as int).drop_last() =~= out@.subrange(
                        0,
                        i as int,
                    ));
                    assert(out@.subrange(0, i + 1 as int).last() == out@[i as int]);
                    assert(q@ =~= q1 + out@.subrange(0, i + 1 as int));
                }
                i = i + 1;
            }
            proof {
                assert(out@.subrange(0, out@.len() as int) =~= out@);
                if pre_ok {
                    assert(q@ =~= q1);
                    assert(forall|j: int| 0 <= j < q1.len() ==> q1[j] == q0[j]);
                }
                if clears_first {
                    assert(q@ == q1 + out@);
                    assert forall|j: int| 0 <= j < q@.len() implies !((#[trigger] q@[j])
                        is EggLaid) && !((q@[j]) is GravesCleared) by {
                        if j < q1.len() {
                            assert(q@[j] == q0[j]);
                        } else {
                            assert(q@[j] == out@[j - q1.len()]);
                            assert(!is_stage(out@[j - q1.len()]));
                        }
                    }
                }
                if hunger_seed {
                    assert(q@ == q1 + out@);
                    assert forall|k: EntityKey| #[trigger] tbl_has(self.villagers@, k) implies (
                        self.ticks - tbl_val(self.villagers@, k).last_ate <= HUNGER_PATIENCE || (
                    exists|i: int|
                        0 <= i < q@.len() && ((#[trigger] q@[i]) == WorldEvent::VillagersHungered
                            || q@[i] == WorldEvent::VillagerHungered(k) || q@[i]
                            == WorldEvent::VillagerDied(k)))) by {
                        if tbl_val(self.villagers@, k).last_ate == self.ticks {
                        } else {
                            // this villager's record is carried over unchanged,
                            // so the pending hunger work for it was already
                            // queued before this iteration
                            assert(tbl_has(v_pre, k));
                            assert(tbl_val(self.villagers@, k) == tbl_val(v_pre, k));
                            if !(self.ticks - tbl_val(v_pre, k).last_ate <= HUNGER_PATIENCE) {
                                let i0 = choose|i0: int|
                                    0 <= i0 < q0.len() && ((#[trigger] q0[i0])
                                        == WorldEvent::VillagersHungered || q0[i0]
                                        == WorldEvent::VillagerHungered(k) || q0[i0]
                                        == WorldEvent::VillagerDied(k));
                                if i0 < q0.len() - 1 {
                                    assert(q@[i0] == q0[i0]);
                                } else {
                                    assert(e == q0[i0]);
                                    if e == WorldEvent::VillagersHungered {
                                        let m = tbl_idx(v_pre, k);
                                        assert(v_pre[m].0 == k);
                                        assert(out@[m] == WorldEvent::VillagerHungered(k));
                                        assert(q@[q1.len() + m] == WorldEvent::VillagerHungered(k));
                                    } else if e == WorldEvent::VillagerHungered(k) {
                                        assert(out@.len() == 1 && out@[0]
                                            == WorldEvent::VillagerDied(k));
                                        assert(q@[q1.len() as int] == WorldEvent::VillagerDied(k));
                                    } else {
                                        assert(e == WorldEvent::VillagerDied(k));
                                        assert(!tbl_has(self.villagers@, k));
                                    }
                                }
                            }
                        }
                    }
                }
            }
        }
    }

    /// Advances simulated time by one tick: seeds the four per-tick stage
    /// events (in push order Moved, Hungered, Cultivated, GravesCleared, so
    /// that dispatch processes GravesCleared first and Moved last) and
    /// resolves every cascade. A tick of a world holding no villagers and no
    /// farms leaves it with no villagers and no farms; the markers standing
    /// afterwards are exactly one per villager lost this tick (the old ones
    /// were cleared before the hunger stage ran); and no surviving villager
    /// is left overdue for its hunger check.
    pub fn tick(&mut self)
        requires
            old(self).wf(),
            old(self).now() < usize::MAX,
        ensures
            final(self).wf(),
            final(self).now() == old(self).now() + 1,
            (old(self).villager_entries().len() == 0 && old(self).farm_entries().len() == 0) ==> (
            final(self).villager_entries().len() == 0 && final(self).farm_entries().len() == 0),
            final(self).villager_entries().len() <= old(self).villager_entries().len(),
            final(self).marker_entries().len() == old(self).villager_entries().len()
                - final(self).villager_entries().len(),
            forall|k: EntityKey| #[trigger] tbl_has(final(self).villager_entries(), k)
                ==> final(self).now() - tbl_val(final(self).villager_entries(), k).last_ate
                <= HUNGER_PATIENCE,
    {
        self.ticks = self.ticks + 1;
        let mut q: EventQueue<WorldEvent> = EventQueue::new();
        q.push(WorldEvent::VillagersMoved);
        q.push(WorldEvent::VillagersHungered);
        q.push(WorldEvent::FarmsCultivated);
        q.push(WorldEvent::GravesCleared);
        proof {
            assert(forall|i: int| 0 <= i < q@.len() ==> !is_spawning(#[trigger] q@[i]));
            assert(q@.last() is GravesCleared);
            assert(forall|i: int|
                0 <= i < q@.len() - 1 ==> !((#[trigger] q@[i]) is GravesCleared));
            assert(forall|i: int| 0 <= i < q@.len() ==> !((#[trigger] q@[i]) is EggLaid));
            assert(q@[1] == WorldEvent::VillagersHungered);
        }
        self.run_events(q);
    }

    /// Requests that an egg hatch at the given position. The request is
    /// dispatched immediately through the same event machinery; a position
    /// off the grid is ignored.
    pub fn request_egg_spawn(&mut self, coords: Coords)
        requires
            old(self).wf(),
        ensures
            final(self).wf(),
            final(self).now() == old(self).now(),
            final(self).farm_entries() == old(self).farm_entries(),
            final(self).marker_entries() == old(self).marker_entries(),
            !in_bounds(coords) ==> *final(self) == *old(self),
            in_bounds(coords) ==> {
                &&& final(self).villager_entries().len() == old(self).villager_entries().len() + 1
                &&& final(self).villager_entries().last().1 == (Villager {
                    key: final(self).villager_entries().last().0,
                    last_ate: old(self).now(),
                })
                &&& tbl_val(final(self).coord_entries(), final(self).villager_entries().last().0)
                    == coords
                &&& tbl_val(
                    final(self).satiation_entries(),
                    final(self).villager_entries().last().0,
                ) == 4u8
            },
    {
        self.egg_laid(coords);
    }

    /// Handles one externally chosen event immediately. Stage events run
    /// through the same dispatch loop that `tick` uses; every other event's
    /// short cascade is resolved depth-first inline, in exactly the order
    /// the event stack would pop it.
    pub fn dispatch_event(&mut self, e: WorldEvent)
        requires
            old(self).wf(),
        ensures
            final(self).wf(),
            final(self).now() == old(self).now(),
            (old(self).villager_entries().len() == 0 && old(self).farm_entries().len() == 0
                && !is_spawning(e)) ==> (final(self).villager_entries().len() == 0
                && final(self).farm_entries().len() == 0),
            e is GravesCleared ==> final(self).marker_entries().len() == 0
                && final(self).villager_entries() == old(self).villager_entries()
                && final(self).farm_entries() == old(self).farm_entries()
                && final(self).satiation_entries() == old(self).satiation_entries(),
            e is VillagerMoved ==> final(self).villager_entries()
                == old(self).villager_entries()
                && final(self).farm_entries() == old(self).farm_entries()
                && final(self).satiation_entries() == old(self).satiation_entries()
                && final(self).marker_entries() == old(self).marker_entries() && (tbl_has(
                old(self).villager_entries(),
                e->VillagerMoved_0,
            ) ==> tbl_val(final(self).coord_entries(), e->VillagerMoved_0)
                == spec_coords_after_move(
                tbl_val(old(self).coord_entries(), e->VillagerMoved_0),
                e->VillagerMoved_1,
            )),
            e is VillagerAte && tbl_has(old(self).villager_entries(), e->VillagerAte_0)
                ==> tbl_val(final(self).villager_entries(), e->VillagerAte_0) == (Villager {
                key: e->VillagerAte_0,
                last_ate: old(self).now(),
            }) && tbl_val(final(self).satiation_entries(), e->VillagerAte_0) == (if tbl_val(
                old(self).satiation_entries(),
                e->VillagerAte_0,
            ) < MAX_SATIATION {
                (tbl_val(old(self).satiation_entries(), e->VillagerAte_0) + 1) as u8
            } else {
                MAX_SATIATION
            }) && final(self).farm_entries() == old(self).farm_entries()
                && final(self).marker_entries() == old(self).marker_entries(),
            e is FarmHarvested ==> !tbl_has(final(self).farm_entries(), e->FarmHarvested_0)
                && final(self).villager_entries() == old(self).villager_entries()
                && final(self).satiation_entries() == old(self).satiation_entries()
                && final(self).marker_entries() == old(self).marker_entries(),
            e is VillagerDied && tbl_has(old(self).villager_entries(), e->VillagerDied_0)
                ==> !tbl_has(final(self).villager_entries(), e->VillagerDied_0)
                && final(self).villager_entries().len() == old(self).villager_entries().len() - 1
                && final(self).marker_entries().len() == old(self).marker_entries().len() + 1
                && final(self).farm_entries() == old(self).farm_entries(),
            e is FarmAdded && in_bounds(e->FarmAdded_0) ==> final(self).farm_entries().len()
                == old(self).farm_entries().len() + 1 && tbl_val(
                final(self).coord_entries(),
                final(self).farm_entries().last().0,
            ) == e->FarmAdded_0
                && final(self).villager_entries() == old(self).villager_entries(),
            e is EggLaid && in_bounds(e->EggLaid_0) ==> final(self).villager_entries().len()
                == old(self).villager_entries().len() + 1 && tbl_val(
                final(self).coord_entries(),
                final(self).villager_entries().last().0,
            ) == e->EggLaid_0 && tbl_val(
                final(self).satiation_entries(),
                final(self).villager_entries().last().0,
            ) == 4u8 && final(self).farm_entries() == old(self).farm_entries(),
            e is VillagerHungered && tbl_has(old(self).villager_entries(), e->VillagerHungered_0)
                && !(old(self).now() - tbl_val(
                old(self).villager_entries(),
                e->VillagerHungered_0,
            ).last_ate > HUNGER_PATIENCE) ==> *final(self) == *old(self),
            e is VillagerHungered && tbl_has(old(self).villager_entries(), e->VillagerHungered_0)
                && old(self).now() - tbl_val(
                old(self).villager_entries(),
                e->VillagerHungered_0,
            ).last_ate > HUNGER_PATIENCE && tbl_val(
                old(self).satiation_entries(),
                e->VillagerHungered_0,
            ) > 0 ==> tbl_has(final(self).villager_entries(), e->VillagerHungered_0) && tbl_val(
                final(self).villager_entries(),
                e->VillagerHungered_0,
            ) == (Villager { key: e->VillagerHungered_0, last_ate: old(self).now() }),
            e is VillagerHungered && tbl_has(old(self).villager_entries(), e->VillagerHungered_0)
                && old(self).now() - tbl_val(
                old(self).villager_entries(),
                e->VillagerHungered_0,
            ).last_ate > HUNGER_PATIENCE && tbl_val(
                old(self).satiation_entries(),
                e->VillagerHungered_0,
            ) == 0 ==> !tbl_has(final(self).villager_entries(), e->VillagerHungered_0)
                && final(self).marker_entries().len() == old(self).marker_entries().len() + 1,
            e is VillagerHarvested && old(self).farm_entries().len() > 0
                ==> final(self).farm_entries().len() == old(self).farm_entries().len() - 1,
            e is VillagerHarvested && old(self).farm_entries().len() == 0 ==> *final(self)
                == *old(self),
            e is FarmGrew && tbl_has(old(self).farm_entries(), e->FarmGrew_0) && old(self).now()
                - tbl_val(old(self).farm_entries(), e->FarmGrew_0).last_grew > GROWTH_PATIENCE
                ==> tbl_val(final(self).farm_entries(), e->FarmGrew_0).last_grew
                == old(self).now(),
            e is VillagersHungered ==> forall|k: EntityKey|
                #[trigger] tbl_has(final(self).villager_entries(), k) ==> final(self).now()
                    - tbl_val(final(self).villager_entries(), k).last_ate <= HUNGER_PATIENCE,
    {
        match e {
            WorldEvent::GravesCleared => {
                self.graves_cleared();
            },
            WorldEvent::VillagerMoved(k, d) => {
                self.villager_moved(k, d);
            },
            WorldEvent::VillagerAte(k) => {
                self.villager_ate(k);
            },
            WorldEvent::VillagerHungered(k) => {
                self.cascade_villager_hungered(k);
            },
            WorldEvent::VillagerHarvested(k) => {
                self.cascade_villager_harvested(k);
            },
            WorldEvent::FarmGrew(k) => {
                self.cascade_farm_grew(k);
            },
            WorldEvent::FarmHarvested(k) => {
                self.farm_harvested(k);
            },
            WorldEvent::VillagerDied(k) => {
                self.villager_died(k);
            },
            WorldEvent::FarmAdded(c) => {
                self.farm_added(c);
            },
            WorldEvent::EggLaid(c) => {
                self.egg_laid(c);
            },
            WorldEvent::VillagersMoved | WorldEvent::VillagersHungered
            | WorldEvent::FarmsCultivated => {
                let mut q: EventQueue<WorldEvent> = EventQueue::new();
                q.push(e);
                self.run_events(q);
            },
        }
    }

    /// The handle of some villager standing at `(x, y)`, if any.
    pub fn villager_key_at(&self, x: u8, y: u8) -> (r: Option<EntityKey>)
        requires
            self.wf(),
        ensures
            (match r {
                Option::Some(k) => tbl_has(self.villager_entries(), k) && tbl_val(
                    self.coord_entries(),
                    k,
                ) == (x, y),
                Option::None => forall|k: EntityKey| #[trigger] tbl_has(self.villager_entries(), k)
                    ==> tbl_val(self.coord_entries(), k) != (x, y),
            }),
    {
        let mut i: usize = 0;
        while i < self.villagers.len()
            invariant
                self.wf(),
                i <= self.villagers@.len(),
                forall|j: int|
                    0 <= j < i ==> tbl_val(self.coords@, #[trigger] self.villagers@[j].0) != (
                    x,
                    y,
                ),
            decreases self.villagers@.len() - i,
        {
            let e = self.villagers.entry_at(i);
            proof {
                lemma_tbl_at(self.villagers@, i as int);
            }
            let c = self.coords.get(e.0).unwrap();
            if c.0 == x && c.1 == y {
                return Some(e.0);
            }
            i = i + 1;
        }
        proof {
            assert forall|k: EntityKey| tbl_has(self.villagers@, k) implies tbl_val(
                self.coords@,
                k,
            ) != (x, y) by {
                let j = tbl_idx(self.villagers@, k);
                assert(self.villagers@[j].0 == k);
            }
        }
        None
    }

    /// The villager stored under the given handle, if it is live.
    pub fn villager(&self, key: EntityKey) -> (r: Option<Villager>)
        requires
            self.wf(),
        ensures
            (match r {
                Option::Some(v) => tbl_has(self.villager_entries(), key) && v == tbl_val(
                    self.villager_entries(),
                    key,
                ),
                Option::None => !tbl_has(self.villager_entries(), key),
            }),
    {
        self.villagers.get(key)
    }

    /// The satiation of the villager under the given handle, if it is live.
    pub fn satiation_of(&self, key: EntityKey) -> (r: Option<u8>)
        requires
            self.wf(),
        ensures
            (match r {
                Option::Some(s) => tbl_has(self.satiation_entries(), key) && s == tbl_val(
                    self.satiation_entries(),
                    key,
                ),
                Option::None => !tbl_has(self.satiation_entries(), key),
            }),
    {
        self.satiation.get(key)
    }

    /// The position of the entity under the given handle, if it is live.
    pub fn coords_of(&self, key: EntityKey) -> (r: Option<Coords>)
        requires
            self.wf(),
        ensures
            (match r {
                Option::Some(c) => tbl_has(self.coord_entries(), key) && c == tbl_val(
                    self.coord_entries(),
                    key,
                ),
                Option::None => !tbl_has(self.coord_entries(), key),
            }),
    {
        self.coords.get(key)
    }

    pub fn villager_count(&self) -> (n: usize)
        ensures
            n == self.villager_entries().len(),
    {
        self.villagers.len()
    }

    pub fn farm_count(&self) -> (n: usize)
        ensures
            n == self.farm_entries().len(),
    {
        self.farms.len()
    }

    pub fn death_marker_count(&self) -> (n: usize)
        ensures
            n == self.marker_entries().len(),
    {
        self.death_markers.len()
    }

    pub fn villager_entry_at(&self, i: usize) -> (e: (EntityKey, Villager))
        requires
            i < self.villager_entries().len(),
        ensures
            e == self.villager_entries()[i as int],
    {
        self.villagers.entry_at(i)
    }

    pub fn farm_entry_at(&self, i: usize) -> (e: (EntityKey, Farm))
        requires
            i < self.farm_entries().len(),
        ensures
            e == self.farm_entries()[i as int],
    {
        self.farms.entry_at(i)
    }

    pub fn marker_entry_at(&self, i: usize) -> (e: (EntityKey, DeathMarker))
        requires
            i < self.marker_entries().len(),
        ensures
            e == self.marker_entries()[i as int],
    {
        self.death_markers.entry_at(i)
    }

    /// True when some farm stands on cell `c`; a read-only query for the
    /// renderer.
    pub fn farm_at(&self, c: Coords) -> (b: bool)
        requires
            self.wf(),
        ensures
            b == spec_farm_at(self.farm_entries(), self.coord_entries(), c),
    {
        self.farm_occupies(c)
    }

    /// True when some death marker stands on cell `c`.
    pub fn death_marker_at(&self, c: Coords) -> (b: bool)
        requires
            self.wf(),
        ensures
            b == spec_marker_at(self.marker_entries(), self.coord_entries(), c),
    {
        let mut i: usize = 0;
        while i < self.death_markers.len()
            invariant
                self.wf(),
                i <= self.death_markers@.len(),
                forall|j: int|
                    0 <= j < i ==> tbl_val(self.coords@, (#[trigger] self.death_markers@[j]).0)
                        != c,
            decreases self.death_markers@.len() - i,
        {
            let e = self.death_markers.entry_at(i);
            proof {
                lemma_tbl_at(self.death_markers@, i as int);
            }
            let mc = self.coords.get(e.0).unwrap();
            if mc.0 == c.0 && mc.1 == c.1 {
                return true;
            }
            i = i + 1;
        }
        proof {
            assert forall|k: EntityKey| tbl_has(self.death_markers@, k) implies tbl_val(
                self.coords@,
                k,
            ) != c by {
                let j = tbl_idx(self.death_markers@, k);
                assert(self.death_markers@[j].0 == k);
            }
        }
        false
    }

    /// The satiation of some villager standing on cell `c`, or nothing when
    /// no villager stands there.
    pub fn villager_satiation_at(&self, c: Coords) -> (r: Option<u8>)
        requires
            self.wf(),
        ensures
            (match r {
                Option::Some(s) => spec_villager_sat_at(
                    self.villager_entries(),
                    self.coord_entries(),
                    self.satiation_entries(),
                    c,
                    s,
                ),
                Option::None => !spec_villager_present(
                    self.villager_entries(),
                    self.coord_entries(),
                    c,
                ),
            }),
    {
        let mut i: usize = 0;
        while i < self.villagers.len()
            invariant
                self.wf(),
                i <= self.villagers@.len(),
                forall|j: int|
                    0 <= j < i ==> tbl_val(self.coords@, (#[trigger] self.villagers@[j]).0) != c,
            decreases self.villagers@.len() - i,
        {
            let e = self.villagers.entry_at(i);
            proof {
                lemma_tbl_at(self.villagers@, i as int);
            }
            let vc = self.coords.get(e.0).unwrap();
            if vc.0 == c.0 && vc.1 == c.1 {
                let s = self.satiation.get(e.0).unwrap();
                return Some(s);
            }
            i = i + 1;
        }
        proof {
            assert forall|k: EntityKey| tbl_has(self.villagers@, k) implies tbl_val(
                self.coords@,
                k,
            ) != c by {
                let j = tbl_idx(self.villagers@, k);
                assert(self.villagers@[j].0 == k);
            }
        }
        None
    }
}

/// Some death marker stands on cell `c`.
pub open spec fn spec_marker_at(
    markers: Seq<(EntityKey, DeathMarker)>,
    coords: Seq<(EntityKey, Coords)>,
    c: Coords,
) -> bool {
    exists|k: EntityKey| #[trigger] tbl_has(markers, k) && tbl_val(coords, k) == c
}

/// Some villager stands on cell `c`.
pub open spec fn spec_villager_present(
    villagers: Seq<(EntityKey, Villager)>,
    coords: Seq<(EntityKey, Coords)>,
    c: Coords,
) -> bool {
    exists|k: EntityKey| #[trigger] tbl_has(villagers, k) && tbl_val(coords, k) == c
}

/// Some villager stands on cell `c` with satiation `s`.
pub open spec fn spec_villager_sat_at(
    villagers: Seq<(EntityKey, Villager)>,
    coords: Seq<(EntityKey, Coords)>,
    satiation: Seq<(EntityKey, u8)>,
    c: Coords,
    s: u8,
) -> bool {
    exists|k: EntityKey|
        #[trigger] tbl_has(villagers, k) && tbl_val(coords, k) == c && tbl_has(satiation, k)
            && tbl_val(satiation, k) == s
}

/// Last-in-first-out stage ordering. The four per-tick stage events are
/// pushed in the order VillagersMoved, VillagersHungered, FarmsCultivated,
/// GravesCleared; popping the stack hands them to the dispatcher in exactly
/// the reverse order, so the graves are cleared first, the farm-growth
/// cascade resolves next, then the hunger cascade, and the movement cascade
/// runs last.
pub proof fn lemma_stage_dispatch_order(s: Seq<WorldEvent>)
    ensures
        ({
            let q = s.push(WorldEvent::VillagersMoved).push(WorldEvent::VillagersHungered).push(
                WorldEvent::FarmsCultivated,
            ).push(WorldEvent::GravesCleared);
            &&& q.last() == WorldEvent::GravesCleared
            &&& q.drop_last().last() == WorldEvent::FarmsCultivated
            &&& q.drop_last().drop_last().last() == WorldEvent::VillagersHungered
            &&& q.drop_last().drop_last().drop_last().last() == WorldEvent::VillagersMoved
            &&& q.drop_last().drop_last().drop_last().drop_last() == s
        }),
{
    let q3 = s.push(WorldEvent::VillagersMoved).push(WorldEvent::VillagersHungered).push(
        WorldEvent::FarmsCultivated,
    );
    let q4 = q3.push(WorldEvent::GravesCleared);
    assert(q4.drop_last() =~= q3);
    assert(q3.drop_last() =~= s.push(WorldEvent::VillagersMoved).push(
        WorldEvent::VillagersHungered,
    ));
    assert(s.push(WorldEvent::VillagersMoved).push(WorldEvent::VillagersHungered).drop_last() =~= s
        .push(WorldEvent::VillagersMoved));
    assert(s.push(WorldEvent::VillagersMoved).drop_last() =~= s);
}

/// Satiation bounds: in a well-formed world, every stored satiation level
/// lies between 0 and `MAX_SATIATION`.
pub proof fn lemma_satiation_bounds(w: World, k: EntityKey)
    requires
        w.wf(),
        tbl_has(w.satiation_entries(), k),
    ensures
        0 <= tbl_val(w.satiation_entries(), k) <= MAX_SATIATION,
{
}

/// Position bounds: in a well-formed world, every stored position lies on
/// the grid.
pub proof fn lemma_positions_in_bounds(w: World, k: EntityKey)
    requires
        w.wf(),
        tbl_has(w.coord_entries(), k),
    ensures
        in_bounds(tbl_val(w.coord_entries(), k)),
{
}

/// Movement clamping: a move from an on-grid position lands on the grid,
/// in every direction.
pub proof fn lemma_move_stays_in_bounds(c: Coords, dir: Direction)
    requires
        in_bounds(c),
    ensures
        in_bounds(spec_coords_after_move(c, dir)),
{
}

proof fn lemma_queue_weight_small(s: Seq<WorldEvent>)
    ensures
        s.len() == 0 ==> queue_weight(s) == 0,
        s.len() == 1 ==> queue_weight(s) == cascade_weight(s[0]),
        s.len() == 2 ==> queue_weight(s) == cascade_weight(s[0]) + cascade_weight(s[1]),
{
    if s.len() == 1 {
        assert(queue_weight(s.drop_last()) == 0);
        assert(s.last() == s[0]);
    }
    if s.len() == 2 {
        assert(s.drop_last().len() == 1);
        assert(s.drop_last()[0] == s[0]);
        assert(queue_weight(s.drop_last().drop_last()) == 0);
        assert(queue_weight(s.drop_last()) == cascade_weight(s[0]));
        assert(s.last() == s[1]);
    }
}

/// A direction drawn at random for autonomous movement.
fn random_direction() -> (d: Direction) {
    let r = pick_index(4);
    if r == 0 {
        Direction::Up
    } else if r == 1 {
        Direction::Down
    } else if r == 2 {
        Direction::Left
    } else {
        Direction::Right
    }
}

} // verus!
