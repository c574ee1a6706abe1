//! World simulation core of the ship/bullet shooter game.
//!
//! The same entity-store/event-cascade pattern as the villager game, with
//! one simplification: every cascade here is at most two events deep (a
//! movement event may emit one removal and nothing more), so each follow-up
//! is resolved inline, depth-first, in exactly the order the event stack
//! would pop it. Player bullets move up once per tick; enemy ships move
//! down on every other tick; after each movement stage a collision pass
//! removes every bullet/enemy pair sharing a cell and kills the player
//! ship when an enemy reaches it.

use vstd::prelude::*;

use crate::bitter::{in_bounds, Coords, Direction, Ticks, GRID_HEIGHT, GRID_WIDTH};
use crate::store::{lemma_tbl_at, tbl_distinct, tbl_has, tbl_idx, tbl_val, EntityKey,
    EntityStore, Table};

verus! {

#[derive(Copy, Clone, PartialEq, Eq, Structural, Debug)]
pub struct PlayerShip {
    pub key: EntityKey,
}

#[derive(Copy, Clone, PartialEq, Eq, Structural, Debug)]
pub struct PlayerBullet {
    pub key: EntityKey,
}

#[derive(Copy, Clone, PartialEq, Eq, Structural, Debug)]
pub struct EnemyShip {
    pub key: EntityKey,
}

/// One pending unit of simulation work in the shooter game.
#[derive(Copy, Clone, PartialEq, Eq, Debug)]
pub enum WorldEvent {
    PlayerShipMoved(Direction),
    PlayerShipDied(Coords),
    PlayerBulletFired(Coords),
    PlayerBulletRemoved(EntityKey),
    PlayerBulletMoved(EntityKey, Direction),
    PlayerBulletsMoved,
    EnemyShipsMoved,
    EnemyShipMoved(EntityKey, Direction),
    EnemyShipRemoved(EntityKey),
}

/// Ship-variant movement clamping (asymmetric, a quirk kept from the game's
/// history): vertical moves reach the outer rows, horizontal moves are
/// inset by one cell on the left and two on the right.
pub open spec fn spec_ship_coords_after_move(c: Coords, dir: Direction) -> Coords {
    match dir {
        Direction::Up => if c.1 > 0 {
            (c.0, (c.1 - 1) as u8)
        } else {
            c
        },
        Direction::Down => if c.1 < GRID_HEIGHT - 1 {
            (c.0, (c.1 + 1) as u8)
        } else {
            c
        },
        Direction::Left => if c.0 > 1 {
            ((c.0 - 1) as u8, c.1)
        } else {
            c
        },
        Direction::Right => if c.0 < GRID_WIDTH - 2 {
            ((c.0 + 1) as u8, c.1)
        } else {
            c
        },
    }
}

/// Moves one cell under the ship-variant clamping; positions on the grid
/// stay on the grid.
pub fn ship_coords_after_move(coords: Coords, dir: Direction) -> (r: Coords)
    ensures
        r == spec_ship_coords_after_move(coords, dir),
        in_bounds(coords) ==> in_bounds(r),
{
    let (x, y) = coords;
    match dir {
        Direction::Up => {
            if y > 0 {
                (x, y - 1)
            } else {
                (x, y)
            }
        },
        Direction::Down => {
            if y < GRID_HEIGHT - 1 {
                (x, y + 1)
            } else {
                (x, y)
            }
        },
        Direction::Left => {
            if x > 1 {
                (x - 1, y)
            } else {
                (x, y)
            }
        },
        Direction::Right => {
            if x < GRID_WIDTH - 2 {
                (x + 1, y)
            } else {
                (x, y)
            }
        },
    }
}

/// Bullet `bk` shares a cell with some enemy ship.
pub open spec fn spec_bullet_hit(
    bullets: Seq<(EntityKey, PlayerBullet)>,
    enemies: Seq<(EntityKey, EnemyShip)>,
    coords: Seq<(EntityKey, Coords)>,
    bk: EntityKey,
) -> bool {
    &&& tbl_has(bullets, bk)
    &&& exists|ek: EntityKey|
        #[trigger] tbl_has(enemies, ek) && tbl_val(coords, ek) == tbl_val(coords, bk)
}

/// Enemy ship `ek` shares a cell with some bullet.
pub open spec fn spec_enemy_hit(
    bullets: Seq<(EntityKey, PlayerBullet)>,
    enemies: Seq<(EntityKey, EnemyShip)>,
    coords: Seq<(EntityKey, Coords)>,
    ek: EntityKey,
) -> bool {
    &&& tbl_has(enemies, ek)
    &&& exists|bk: EntityKey|
        #[trigger] tbl_has(bullets, bk) && tbl_val(coords, bk) == tbl_val(coords, ek)
}

/// How many of the first `n` player ships stand low enough to fire: a shot
/// from the top two rows would leave the grid at once and is not spawned.
pub open spec fn spec_firing_ships(
    ships: Seq<(EntityKey, PlayerShip)>,
    coords: Seq<(EntityKey, Coords)>,
    n: int,
) -> int
    decreases n,
{
    if n <= 0 {
        0
    } else {
        spec_firing_ships(ships, coords, n - 1) + (if tbl_val(coords, ships[n - 1].0).1 >= 2 {
            1int
        } else {
            0int
        })
    }
}

/// Some bullet stands on cell `c`.
pub open spec fn spec_bullet_at_cell(
    bullets: Seq<(EntityKey, PlayerBullet)>,
    coords: Seq<(EntityKey, Coords)>,
    c: Coords,
) -> bool {
    exists|bk: EntityKey| #[trigger] tbl_has(bullets, bk) && tbl_val(coords, bk) == c
}

/// Some player ship shares a cell with some enemy ship.
pub open spec fn spec_player_hit(
    ships: Seq<(EntityKey, PlayerShip)>,
    enemies: Seq<(EntityKey, EnemyShip)>,
    coords: Seq<(EntityKey, Coords)>,
) -> bool {
    exists|pk: EntityKey, ek: EntityKey|
        #[trigger] tbl_has(ships, pk) && #[trigger] tbl_has(enemies, ek) && tbl_val(coords, pk)
            == tbl_val(coords, ek)
}

/// The shooter-game world: entity identities, their component tables, and
/// the current tick count.
pub struct World {
    entities: EntityStore,
    coords: Table<Coords>,
    ticks: Ticks,
    player_ships: Table<PlayerShip>,
    player_bullets: Table<PlayerBullet>,
    enemy_ships: Table<EnemyShip>,
}

impl World {
    pub closed spec fn now(self) -> Ticks {
        self.ticks
    }

    pub closed spec fn ship_entries(self) -> Seq<(EntityKey, PlayerShip)> {
        self.player_ships@
    }

    pub closed spec fn bullet_entries(self) -> Seq<(EntityKey, PlayerBullet)> {
        self.player_bullets@
    }

    pub closed spec fn enemy_entries(self) -> Seq<(EntityKey, EnemyShip)> {
        self.enemy_ships@
    }

    pub closed spec fn coord_entries(self) -> Seq<(EntityKey, Coords)> {
        self.coords@
    }

    /// Well-formedness: tables keyed at most once per handle; every stored
    /// handle is live and carries an on-grid position; and no handle is two
    /// kinds of entity at once.
    pub closed spec fn wf(self) -> bool {
        &&& self.coords.wf()
        &&& self.player_ships.wf()
        &&& self.player_bullets.wf()
        &&& self.enemy_ships.wf()
        &&& forall|k: EntityKey| #[trigger] tbl_has(self.player_ships@, k) ==> {
            &&& tbl_val(self.player_ships@, k).key == k
            &&& self.entities.live(k)
            &&& tbl_has(self.coords@, k)
            &&& !tbl_has(self.player_bullets@, k)
            &&& !tbl_has(self.enemy_ships@, k)
        }
        &&& forall|k: EntityKey| #[trigger] tbl_has(self.player_bullets@, k) ==> {
            &&& tbl_val(self.player_bullets@, k).key == k
            &&& self.entities.live(k)
            &&& tbl_has(self.coords@, k)
            &&& !tbl_has(self.enemy_ships@, k)
        }
        &&& forall|k: EntityKey| #[trigger] tbl_has(self.enemy_ships@, k) ==> {
            &&& tbl_val(self.enemy_ships@, k).key == k
            &&& self.entities.live(k)
            &&& tbl_has(self.coords@, k)
        }
        &&& forall|k: EntityKey| #[trigger] tbl_has(self.coords@, k) ==> {
            &&& self.entities.live(k)
            &&& in_bounds(tbl_val(self.coords@, k))
        }
    }

    /// An empty battlefield at tick zero.
    pub fn new() -> (w: World)
        ensures
            w.wf(),
            w.now() == 0,
            w.ship_entries().len() == 0,
            w.bullet_entries().len() == 0,
            w.enemy_entries().len() == 0,
    {
        World {
            entities: EntityStore::new(),
            coords: Table::new(),
            ticks: 0,
            player_ships: Table::new(),
            player_bullets: Table::new(),
            enemy_ships: Table::new(),
        }
    }

    /// Adds a player ship at the given on-grid position.
    pub fn add_player_ship_at(&mut self, coords: Coords) -> (k: EntityKey)
        requires
            old(self).wf(),
            in_bounds(coords),
        ensures
            final(self).wf(),
            final(self).now() == old(self).now(),
            final(self).ship_entries() == old(self).ship_entries().push(
                (k, PlayerShip { key: k }),
            ),
            final(self).bullet_entries() == old(self).bullet_entries(),
            final(self).enemy_entries() == old(self).enemy_entries(),
            tbl_has(final(self).coord_entries(), k),
            tbl_val(final(self).coord_entries(), k) == coords,
            forall|k2: EntityKey|
                tbl_has(old(self).coord_entries(), k2) ==> tbl_has(final(self).coord_entries(), k2)
                    && tbl_val(final(self).coord_entries(), k2) == tbl_val(
                    old(self).coord_entries(),
                    k2,
                ),
    {
        let key = self.entities.allocate();
        proof {
            assert(!tbl_has(self.coords@, key));
            assert(!tbl_has(self.player_ships@, key));
            assert(!tbl_has(self.player_bullets@, key));
            assert(!tbl_has(self.enemy_ships@, key));
            crate::store::lemma_tbl_push(self.coords@, self.coords@.push((key, coords)), key, coords);
        }
        self.player_ships.insert(key, PlayerShip { key });
        self.coords.insert(key, coords);
        key
    }

    /// Adds an enemy ship at the given on-grid position.
    pub fn add_enemy_ship_at(&mut self, coords: Coords) -> (k: EntityKey)
        requires
            old(self).wf(),
            in_bounds(coords),
        ensures
            final(self).wf(),
            final(self).now() == old(self).now(),
            final(self).enemy_entries() == old(self).enemy_entries().push(
                (k, EnemyShip { key: k }),
            ),
            final(self).ship_entries() == old(self).ship_entries(),
            final(self).bullet_entries() == old(self).bullet_entries(),
            tbl_has(final(self).coord_entries(), k),
            tbl_val(final(self).coord_entries(), k) == coords,
            forall|k2: EntityKey|
                tbl_has(old(self).coord_entries(), k2) ==> tbl_has(final(self).coord_entries(), k2)
                    && tbl_val(final(self).coord_entries(), k2) == tbl_val(
                    old(self).coord_entries(),
                    k2,
                ),
    {
        let key = self.entities.allocate();
        proof {
            assert(!tbl_has(self.coords@, key));
            assert(!tbl_has(self.player_ships@, key));
            assert(!tbl_has(self.player_bullets@, key));
            assert(!tbl_has(self.enemy_ships@, key));
            crate::store::lemma_tbl_push(self.coords@, self.coords@.push((key, coords)), key, coords);
        }
        self.enemy_ships.insert(key, EnemyShip { key });
        self.coords.insert(key, coords);
        key
    }

    /// Spawns a bullet one row above the given cell; a shot from the top two
    /// rows would leave the grid at once, so it is not spawned at all.
    fn player_bullet_fired_from(&mut self, coords: Coords) -> (out: Vec<WorldEvent>)
        requires
            old(self).wf(),
        ensures
            final(self).wf(),
            final(self).ticks == old(self).ticks,
            out@.len() == 0,
            final(self).player_ships@ == old(self).player_ships@,
            final(self).enemy_ships@ == old(self).enemy_ships@,
            (coords.1 < 2 || !in_bounds(coords)) ==> *final(self) == *old(self),
            (coords.1 >= 2 && in_bounds(coords)) ==> {
                &&& final(self).player_bullets@.len() == old(self).player_bullets@.len() + 1
                &&& forall|j: int|
                    0 <= j < old(self).player_bullets@.len() ==> final(self).player_bullets@[j]
                        == old(self).player_bullets@[j]
                &&& tbl_val(final(self).coords@, final(self).player_bullets@.last().0) == (
                coords.0,
                (coords.1 - 1) as u8,
                )
                &&& forall|k2: EntityKey|
                    tbl_has(old(self).coords@, k2) ==> tbl_has(final(self).coords@, k2)
                        && tbl_val(final(self).coords@, k2) == tbl_val(old(self).coords@, k2)
            },
    {
        let (x, y) = coords;
        if y >= 2 && x < GRID_WIDTH && y < GRID_HEIGHT {
            let key = self.entities.allocate();
            proof {
                assert(!tbl_has(self.coords@, key));
                assert(!tbl_has(self.player_ships@, key));
                assert(!tbl_has(self.player_bullets@, key));
                assert(!tbl_has(self.enemy_ships@, key));
                crate::store::lemma_tbl_push(
                    self.coords@,
                    self.coords@.push((key, (x, (y - 1) as u8))),
                    key,
                    (x, (y - 1) as u8),
                );
            }
            self.player_bullets.insert(key, PlayerBullet { key });
            self.coords.insert(key, (x, y - 1));
        }
        Vec::new()
    }

    /// Removes one bullet entirely; a stale handle is ignored.
    fn remove_bullet(&mut self, key: EntityKey) -> (out: Vec<WorldEvent>)
        requires
            old(self).wf(),
        ensures
            final(self).wf(),
            final(self).ticks == old(self).ticks,
            out@.len() == 0,
            final(self).player_ships@ == old(self).player_ships@,
            final(self).enemy_ships@ == old(self).enemy_ships@,
            !tbl_has(final(self).player_bullets@, key),
            final(self).player_bullets@.len() == old(self).player_bullets@.len() - (if tbl_has(
                old(self).player_bullets@,
                key,
            ) {
                1int
            } else {
                0int
            }),
            forall|k2: EntityKey| k2 != key ==> tbl_has(final(self).player_bullets@, k2)
                == tbl_has(old(self).player_bullets@, k2),
            forall|k2: EntityKey|
                k2 != key && tbl_has(old(self).player_bullets@, k2) ==> tbl_val(
                    final(self).player_bullets@,
                    k2,
                ) == tbl_val(old(self).player_bullets@, k2),
            forall|k2: EntityKey| k2 != key ==> tbl_has(final(self).coords@, k2) == tbl_has(
                old(self).coords@,
                k2,
            ),
            forall|k2: EntityKey|
                k2 != key && tbl_has(old(self).coords@, k2) ==> tbl_val(final(self).coords@, k2)
                    == tbl_val(old(self).coords@, k2),
            !tbl_has(old(self).player_bullets@, key) ==> *final(self) == *old(self),
    {
        if self.player_bullets.contains_key(key) {
            self.player_bullets.remove(key);
            self.coords.remove(key);
            self.entities.deallocate(key);
        }
        Vec::new()
    }

    /// Removes one enemy ship entirely; a stale handle is ignored.
    fn remove_enemy(&mut self, key: EntityKey) -> (out: Vec<WorldEvent>)
        requires
            old(self).wf(),
        ensures
            final(self).wf(),
            final(self).ticks == old(self).ticks,
            out@.len() == 0,
            final(self).player_ships@ == old(self).player_ships@,
            final(self).player_bullets@ == old(self).player_bullets@,
            !tbl_has(final(self).enemy_ships@, key),
            final(self).enemy_ships@.len() == old(self).enemy_ships@.len() - (if tbl_has(
                old(self).enemy_ships@,
                key,
            ) {
                1int
            } else {
                0int
            }),
            forall|k2: EntityKey| k2 != key ==> tbl_has(final(self).enemy_ships@, k2) == tbl_has(
                old(self).enemy_ships@,
                k2,
            ),
            forall|k2: EntityKey|
                k2 != key && tbl_has(old(self).enemy_ships@, k2) ==> tbl_val(
                    final(self).enemy_ships@,
                    k2,
                ) == tbl_val(old(self).enemy_ships@, k2),
            forall|k2: EntityKey| k2 != key ==> tbl_has(final(self).coords@, k2) == tbl_has(
                old(self).coords@,
                k2,
            ),
            forall|k2: EntityKey|
                k2 != key && tbl_has(old(self).coords@, k2) ==> tbl_val(final(self).coords@, k2)
                    == tbl_val(old(self).coords@, k2),
            !tbl_has(old(self).enemy_ships@, key) ==> *final(self) == *old(self),
    {
        if self.enemy_ships.contains_key(key) {
            self.enemy_ships.remove(key);
            self.coords.remove(key);
            self.entities.deallocate(key);
        }
        Vec::new()
    }

    /// Removes every player ship: the game is effectively over.
    fn player_ship_died(&mut self, _coords: Coords) -> (out: Vec<WorldEvent>)
        requires
            old(self).wf(),
        ensures
            final(self).wf(),
            final(self).ticks == old(self).ticks,
            out@.len() == 0,
            final(self).player_ships@.len() == 0,
            final(self).player_bullets@ == old(self).player_bullets@,
            final(self).enemy_ships@ == old(self).enemy_ships@,
            forall|k2: EntityKey|
                !tbl_has(old(self).player_ships@, k2) ==> tbl_has(final(self).coords@, k2)
                    == tbl_has(old(self).coords@, k2),
            forall|k2: EntityKey|
                !tbl_has(old(self).player_ships@, k2) && tbl_has(old(self).coords@, k2)
                    ==> tbl_val(final(self).coords@, k2) == tbl_val(old(self).coords@, k2),
    {
        while self.player_ships.len() > 0
            invariant
                self.wf(),
                self.ticks == old(self).ticks,
                self.player_bullets@ == old(self).player_bullets@,
                self.enemy_ships@ == old(self).enemy_ships@,
                forall|k2: EntityKey| #[trigger] tbl_has(self.player_ships@, k2) ==> tbl_has(
                    old(self).player_ships@,
                    k2,
                ),
                forall|k2: EntityKey|
                    !tbl_has(old(self).player_ships@, k2) ==> tbl_has(self.coords@, k2) == tbl_has(
                        old(self).coords@,
                        k2,
                    ),
                forall|k2: EntityKey|
                    !tbl_has(old(self).player_ships@, k2) && tbl_has(old(self).coords@, k2)
                        ==> tbl_val(self.coords@, k2) == tbl_val(old(self).coords@, k2),
            decreases self.player_ships@.len(),
        {
            let n = self.player_ships.len();
            let e = self.player_ships.entry_at(n - 1);
            proof {
                lemma_tbl_at(self.player_ships@, n - 1);
            }
            self.coords.remove(e.0);
            self.entities.deallocate(e.0);
            self.player_ships.remove(e.0);
        }
        Vec::new()
    }

    /// Moves every player ship one cell in the given direction, clamped to
    /// the ship-variant bounds.
    pub fn player_ship_moved(&mut self, dir: Direction) -> (out: Vec<WorldEvent>)
        requires
            old(self).wf(),
        ensures
            final(self).wf(),
            final(self).now() == old(self).now(),
            out@.len() == 0,
            final(self).ship_entries() == old(self).ship_entries(),
            final(self).bullet_entries() == old(self).bullet_entries(),
            final(self).enemy_entries() == old(self).enemy_entries(),
            forall|k2: EntityKey| #[trigger] tbl_has(final(self).coord_entries(), k2) == tbl_has(
                old(self).coord_entries(),
                k2,
            ),
            forall|k2: EntityKey|
                tbl_has(old(self).ship_entries(), k2) ==> tbl_val(final(self).coord_entries(), k2)
                    == spec_ship_coords_after_move(tbl_val(old(self).coord_entries(), k2), dir),
            forall|k2: EntityKey|
                !tbl_has(old(self).ship_entries(), k2) && tbl_has(old(self).coord_entries(), k2)
                    ==> tbl_val(final(self).coord_entries(), k2) == tbl_val(old(self).coord_entries(), k2),
    {
        let mut i: usize = 0;
        while i < self.player_ships.len()
            invariant
                self.wf(),
                self.ticks == old(self).now(),
                self.player_ships@ == old(self).ship_entries(),
                self.player_bullets@ == old(self).bullet_entries(),
                self.enemy_ships@ == old(self).enemy_entries(),
                i <= self.player_ships@.len(),
                forall|k2: EntityKey| #[trigger] tbl_has(self.coords@, k2) == tbl_has(
                    old(self).coord_entries(),
                    k2,
                ),
                forall|j: int|
                    0 <= j < i ==> tbl_val(self.coords@, (#[trigger] self.player_ships@[j]).0)
                        == spec_ship_coords_after_move(
                        tbl_val(old(self).coord_entries(), self.player_ships@[j].0),
                        dir,
                    ),
                forall|j: int|
                    i <= j < self.player_ships@.len() ==> tbl_val(
                        self.coords@,
                        (#[trigger] self.player_ships@[j]).0,
                    ) == tbl_val(old(self).coord_entries(), self.player_ships@[j].0),
                forall|k2: EntityKey|
                    !tbl_has(old(self).ship_entries(), k2) && tbl_has(old(self).coord_entries(), k2)
                        ==> tbl_val(self.coords@, k2) == tbl_val(old(self).coord_entries(), k2),
            decreases self.player_ships@.len() - i,
        {
            let e = self.player_ships.entry_at(i);
            proof {
                lemma_tbl_at(self.player_ships@, i as int);
            }
            let c = self.coords.get(e.0).unwrap();
            let c2 = ship_coords_after_move(c, dir);
            let ghost coords_prev = self.coords@;
            self.coords.insert(e.0, c2);
            proof {
                assert forall|j: int|
                    0 <= j < self.player_ships@.len() && j != i as int implies (
                #[trigger] self.player_ships@[j]).0 != e.0 by {
                    if j < i as int {
                        assert(self.player_ships@[j].0 != self.player_ships@[i as int].0);
                    } else {
                        assert(self.player_ships@[i as int].0 != self.player_ships@[j].0);
                    }
                }
                assert forall|j: int|
                    0 <= j < i as int + 1 implies tbl_val(
                    self.coords@,
                    (#[trigger] self.player_ships@[j]).0,
                ) == spec_ship_coords_after_move(
                    tbl_val(old(self).coord_entries(), self.player_ships@[j].0),
                    dir,
                ) by {
                    lemma_tbl_at(self.player_ships@, j);
                    if j == i as int {
                        assert(tbl_val(self.coords@, e.0) == c2);
                    } else {
                        assert(self.player_ships@[j].0 != e.0);
                        assert(tbl_has(coords_prev, self.player_ships@[j].0));
                        assert(tbl_val(self.coords@, self.player_ships@[j].0) == tbl_val(
                            coords_prev,
                            self.player_ships@[j].0,
                        ));
                    }
                }
                assert forall|j: int|
                    i as int + 1 <= j < self.player_ships@.len() implies tbl_val(
                    self.coords@,
                    (#[trigger] self.player_ships@[j]).0,
                ) == tbl_val(old(self).coord_entries(), self.player_ships@[j].0) by {
                    lemma_tbl_at(self.player_ships@, j);
                    assert(self.player_ships@[j].0 != e.0);
                    assert(tbl_has(coords_prev, self.player_ships@[j].0));
                }
            }
            i = i + 1;
        }
        proof {
            assert forall|k2: EntityKey|
                tbl_has(old(self).ship_entries(), k2) implies tbl_val(self.coords@, k2)
                == spec_ship_coords_after_move(tbl_val(old(self).coord_entries(), k2), dir) by {
                let j = tbl_idx(old(self).ship_entries(), k2);
                assert(old(self).ship_entries()[j].0 == k2);
            }
        }
        Vec::new()
    }

    /// One bullet takes one step; a bullet that would move up past the top
    /// row is removed instead. A stale handle is ignored.
    fn player_bullet_moved(&mut self, key: EntityKey, dir: Direction) -> (out: Vec<WorldEvent>)
        requires
            old(self).wf(),
        ensures
            final(self).wf(),
            final(self).ticks == old(self).ticks,
            final(self).player_ships@ == old(self).player_ships@,
            final(self).player_bullets@ == old(self).player_bullets@,
            final(self).enemy_ships@ == old(self).enemy_ships@,
            !tbl_has(old(self).player_bullets@, key) ==> *final(self) == *old(self)
                && out@.len() == 0,
            tbl_has(old(self).player_bullets@, key) ==> {
                &&& tbl_val(final(self).coords@, key) == spec_ship_coords_after_move(
                    tbl_val(old(self).coords@, key),
                    dir,
                )
                &&& forall|k2: EntityKey| k2 != key ==> tbl_has(final(self).coords@, k2)
                    == tbl_has(old(self).coords@, k2)
                &&& forall|k2: EntityKey|
                    k2 != key && tbl_has(old(self).coords@, k2) ==> tbl_val(
                        final(self).coords@,
                        k2,
                    ) == tbl_val(old(self).coords@, k2)
                &&& (dir is Up && tbl_val(old(self).coords@, key).1 == 0 ==> out@.len()
                    == 1 && out@[0] == WorldEvent::PlayerBulletRemoved(key))
                &&& (!(dir is Up && tbl_val(old(self).coords@, key).1 == 0)
                    ==> out@.len() == 0)
            },
    {
        let mut out: Vec<WorldEvent> = Vec::new();
        if self.player_bullets.contains_key(key) {
            let c = self.coords.get(key).unwrap();
            let c2 = ship_coords_after_move(c, dir);
            self.coords.insert(key, c2);
            let top_exit = match dir {
                Direction::Up => c.1 == 0,
                _ => false,
            };
            if top_exit {
                out.push(WorldEvent::PlayerBulletRemoved(key));
            }
        }
        out
    }

    /// One enemy ship takes one step; an enemy that would move down past the
    /// bottom row is removed instead. A stale handle is ignored.
    fn enemy_ship_moved(&mut self, key: EntityKey, dir: Direction) -> (out: Vec<WorldEvent>)
        requires
            old(self).wf(),
        ensures
            final(self).wf(),
            final(self).ticks == old(self).ticks,
            final(self).player_ships@ == old(self).player_ships@,
            final(self).player_bullets@ == old(self).player_bullets@,
            final(self).enemy_ships@ == old(self).enemy_ships@,
            !tbl_has(old(self).enemy_ships@, key) ==> *final(self) == *old(self)
                && out@.len() == 0,
            tbl_has(old(self).enemy_ships@, key) ==> {
                &&& tbl_val(final(self).coords@, key) == spec_ship_coords_after_move(
                    tbl_val(old(self).coords@, key),
                    dir,
                )
                &&& forall|k2: EntityKey| k2 != key ==> tbl_has(final(self).coords@, k2)
                    == tbl_has(old(self).coords@, k2)
                &&& forall|k2: EntityKey|
                    k2 != key && tbl_has(old(self).coords@, k2) ==> tbl_val(
                        final(self).coords@,
                        k2,
                    ) == tbl_val(old(self).coords@, k2)
                &&& (dir is Down && tbl_val(old(self).coords@, key).1 == GRID_HEIGHT - 1
                    ==> out@.len() == 1 && out@[0] == WorldEvent::EnemyShipRemoved(key))
                &&& (!(dir is Down && tbl_val(old(self).coords@, key).1 == GRID_HEIGHT
                    - 1) ==> out@.len() == 0)
            },
    {
        let mut out: Vec<WorldEvent> = Vec::new();
        if self.enemy_ships.contains_key(key) {
            let c = self.coords.get(key).unwrap();
            let c2 = ship_coords_after_move(c, dir);
            self.coords.insert(key, c2);
            let bottom_exit = match dir {
                Direction::Down => c.1 == GRID_HEIGHT - 1,
                _ => false,
            };
            if bottom_exit {
                out.push(WorldEvent::EnemyShipRemoved(key));
            }
        }
        out
    }

    /// Stage fan-out: one move-down event per enemy ship, in table order.
    pub fn enemy_ships_moved(&self) -> (out: Vec<WorldEvent>)
        requires
            self.wf(),
        ensures
            out@.len() == self.enemy_entries().len(),
            forall|i: int|
                0 <= i < out@.len() ==> out@[i] == WorldEvent::EnemyShipMoved(
                    self.enemy_entries()[i].0,
                    Direction::Down,
                ),
    {
        let mut out: Vec<WorldEvent> = Vec::new();
        let mut i: usize = 0;
        while i < self.enemy_ships.len()
            invariant
                i <= self.enemy_ships@.len(),
                out@.len() == i,
                forall|j: int|
                    0 <= j < i ==> out@[j] == WorldEvent::EnemyShipMoved(
                        self.enemy_ships@[j].0,
                        Direction::Down,
                    ),
            decreases self.enemy_ships@.len() - i,
        {
            let e = self.enemy_ships.entry_at(i);
            out.push(WorldEvent::EnemyShipMoved(e.0, Direction::Down));
            i = i + 1;
        }
        out
    }

    /// Stage fan-out: one move-up event per bullet, in table order.
    pub fn player_bullets_moved(&self) -> (out: Vec<WorldEvent>)
        requires
            self.wf(),
        ensures
            out@.len() == self.bullet_entries().len(),
            forall|i: int|
                0 <= i < out@.len() ==> out@[i] == WorldEvent::PlayerBulletMoved(
                    self.bullet_entries()[i].0,
                    Direction::Up,
                ),
    {
        let mut out: Vec<WorldEvent> = Vec::new();
        let mut i: usize = 0;
        while i < self.player_bullets.len()
            invariant
                i <= self.player_bullets@.len(),
                out@.len() == i,
                forall|j: int|
                    0 <= j < i ==> out@[j] == WorldEvent::PlayerBulletMoved(
                        self.player_bullets@[j].0,
                        Direction::Up,
                    ),
            decreases self.player_bullets@.len() - i,
        {
            let e = self.player_bullets.entry_at(i);
            out.push(WorldEvent::PlayerBulletMoved(e.0, Direction::Up));
            i = i + 1;
        }
        out
    }

    /// One enemy ship's full move cascade: the step, then the past-bottom
    /// removal it may emit, resolved at once.
    pub fn cascade_enemy_ship_moved(&mut self, key: EntityKey, dir: Direction)
        requires
            old(self).wf(),
        ensures
            final(self).wf(),
            final(self).now() == old(self).now(),
            final(self).ship_entries() == old(self).ship_entries(),
            final(self).bullet_entries() == old(self).bullet_entries(),
            !tbl_has(old(self).enemy_entries(), key) ==> *final(self) == *old(self),
            tbl_has(old(self).enemy_entries(), key) && !(dir is Down && tbl_val(
                old(self).coord_entries(),
                key,
            ).1 == GRID_HEIGHT - 1) ==> {
                &&& final(self).enemy_entries() == old(self).enemy_entries()
                &&& tbl_has(final(self).coord_entries(), key)
                &&& tbl_val(final(self).coord_entries(), key) == spec_ship_coords_after_move(
                    tbl_val(old(self).coord_entries(), key),
                    dir,
                )
                &&& forall|k2: EntityKey| k2 != key ==> tbl_has(final(self).coord_entries(), k2)
                    == tbl_has(old(self).coord_entries(), k2)
                &&& forall|k2: EntityKey|
                    k2 != key && tbl_has(old(self).coord_entries(), k2) ==> tbl_val(
                        final(self).coord_entries(),
                        k2,
                    ) == tbl_val(old(self).coord_entries(), k2)
            },
            tbl_has(old(self).enemy_entries(), key) && (dir is Down && tbl_val(
                old(self).coord_entries(),
                key,
            ).1 == GRID_HEIGHT - 1) ==> {
                &&& !tbl_has(final(self).enemy_entries(), key)
                &&& final(self).enemy_entries().len() == old(self).enemy_entries().len() - 1
                &&& forall|k2: EntityKey| k2 != key ==> tbl_has(final(self).enemy_entries(), k2)
                    == tbl_has(old(self).enemy_entries(), k2)
                &&& forall|k2: EntityKey|
                    k2 != key && tbl_has(old(self).enemy_entries(), k2) ==> tbl_val(
                        final(self).enemy_entries(),
                        k2,
                    ) == tbl_val(old(self).enemy_entries(), k2)
                &&& forall|k2: EntityKey| k2 != key ==> tbl_has(final(self).coord_entries(), k2)
                    == tbl_has(old(self).coord_entries(), k2)
                &&& forall|k2: EntityKey|
                    k2 != key && tbl_has(old(self).coord_entries(), k2) ==> tbl_val(
                        final(self).coord_entries(),
                        k2,
                    ) == tbl_val(old(self).coord_entries(), k2)
            },
    {
        let out = self.enemy_ship_moved(key, dir);
        if out.len() > 0 {
            if let WorldEvent::EnemyShipRemoved(k2) = out[0] {
                self.remove_enemy(k2);
            }
        }
    }

    /// One bullet's full move cascade: the step, then the past-top removal
    /// it may emit, resolved at once.
    pub fn cascade_player_bullet_moved(&mut self, key: EntityKey, dir: Direction)
        requires
            old(self).wf(),
        ensures
            final(self).wf(),
            final(self).now() == old(self).now(),
            final(self).ship_entries() == old(self).ship_entries(),
            final(self).enemy_entries() == old(self).enemy_entries(),
            !tbl_has(old(self).bullet_entries(), key) ==> *final(self) == *old(self),
            tbl_has(old(self).bullet_entries(), key) && !(dir is Up && tbl_val(
                old(self).coord_entries(),
                key,
            ).1 == 0) ==> {
                &&& final(self).bullet_entries() == old(self).bullet_entries()
                &&& tbl_has(final(self).coord_entries(), key)
                &&& tbl_val(final(self).coord_entries(), key) == spec_ship_coords_after_move(
                    tbl_val(old(self).coord_entries(), key),
                    dir,
                )
                &&& forall|k2: EntityKey| k2 != key ==> tbl_has(final(self).coord_entries(), k2)
                    == tbl_has(old(self).coord_entries(), k2)
                &&& forall|k2: EntityKey|
                    k2 != key && tbl_has(old(self).coord_entries(), k2) ==> tbl_val(
                        final(self).coord_entries(),
                        k2,
                    ) == tbl_val(old(self).coord_entries(), k2)
            },
            tbl_has(old(self).bullet_entries(), key) && (dir is Up && tbl_val(
                old(self).coord_entries(),
                key,
            ).1 == 0) ==> {
                &&& !tbl_has(final(self).bullet_entries(), key)
                &&& final(self).bullet_entries().len() == old(self).bullet_entries().len() - 1
                &&& forall|k2: EntityKey| k2 != key ==> tbl_has(final(self).bullet_entries(), k2)
                    == tbl_has(old(self).bullet_entries(), k2)
                &&& forall|k2: EntityKey|
                    k2 != key && tbl_has(old(self).bullet_entries(), k2) ==> tbl_val(
                        final(self).bullet_entries(),
                        k2,
                    ) == tbl_val(old(self).bullet_entries(), k2)
                &&& forall|k2: EntityKey| k2 != key ==> tbl_has(final(self).coord_entries(), k2)
                    == tbl_has(old(self).coord_entries(), k2)
                &&& forall|k2: EntityKey|
                    k2 != key && tbl_has(old(self).coord_entries(), k2) ==> tbl_val(
                        final(self).coord_entries(),
                        k2,
                    ) == tbl_val(old(self).coord_entries(), k2)
            },
    {
        let out = self.player_bullet_moved(key, dir);
        if out.len() > 0 {
            if let WorldEvent::PlayerBulletRemoved(k2) = out[0] {
                self.remove_bullet(k2);
            }
        }
    }

    /// Runs one full enemy-movement stage: the fan-out events are resolved
    /// most-recently-emitted first, exactly as the event stack pops them.
    /// Every enemy ship above the bottom row descends one row; one on the
    /// bottom row is removed instead, exactly once.
    pub fn run_enemy_ships_moved(&mut self)
        requires
            old(self).wf(),
        ensures
            final(self).wf(),
            final(self).now() == old(self).now(),
            final(self).ship_entries() == old(self).ship_entries(),
            final(self).bullet_entries() == old(self).bullet_entries(),
            forall|k: EntityKey|
                #[trigger] tbl_has(old(self).enemy_entries(), k) && tbl_val(
                    old(self).coord_entries(),
                    k,
                ).1 < GRID_HEIGHT - 1 ==> tbl_has(final(self).enemy_entries(), k) && tbl_val(
                    final(self).coord_entries(),
                    k,
                ) == (
                    tbl_val(old(self).coord_entries(), k).0,
                    (tbl_val(old(self).coord_entries(), k).1 + 1) as u8,
                ),
            forall|k: EntityKey|
                #[trigger] tbl_has(old(self).enemy_entries(), k) && tbl_val(
                    old(self).coord_entries(),
                    k,
                ).1 == GRID_HEIGHT - 1 ==> !tbl_has(final(self).enemy_entries(), k),
            forall|k: EntityKey| #[trigger] tbl_has(final(self).enemy_entries(), k) ==> tbl_has(
                old(self).enemy_entries(),
                k,
            ),
            forall|k2: EntityKey|
                tbl_has(old(self).coord_entries(), k2) && !tbl_has(old(self).enemy_entries(), k2)
                    ==> tbl_has(final(self).coord_entries(), k2) && tbl_val(
                    final(self).coord_entries(),
                    k2,
                ) == tbl_val(old(self).coord_entries(), k2),
    {
        let events = self.enemy_ships_moved();
        let ghost e0 = self.enemy_entries();
        let ghost c0 = self.coord_entries();
        proof {
            assert forall|j: int|
                0 <= j < e0.len() implies tbl_has(self.enemy_entries(), (#[trigger] e0[j]).0)
                && tbl_has(self.coord_entries(), e0[j].0) by {
                lemma_tbl_at(e0, j);
            }
        }
        let mut i: usize = events.len();
        while i > 0
            invariant
                self.wf(),
                self.ticks == old(self).now(),
                self.ship_entries() == old(self).ship_entries(),
                self.bullet_entries() == old(self).bullet_entries(),
                e0 == old(self).enemy_entries(),
                c0 == old(self).coord_entries(),
                tbl_distinct(e0),
                i <= e0.len(),
                events@.len() == e0.len(),
                forall|j: int|
                    0 <= j < e0.len() ==> events@[j] == WorldEvent::EnemyShipMoved(
                        (#[trigger] e0[j]).0,
                        Direction::Down,
                    ),
                forall|j: int|
                    0 <= j < i ==> tbl_has(self.enemy_entries(), (#[trigger] e0[j]).0) && tbl_has(
                        self.coord_entries(),
                        e0[j].0,
                    ) && tbl_val(self.coord_entries(), e0[j].0) == tbl_val(c0, e0[j].0),
                forall|j: int|
                    i <= j < e0.len() && tbl_val(c0, (#[trigger] e0[j]).0).1 < GRID_HEIGHT - 1
                        ==> tbl_has(self.enemy_entries(), e0[j].0) && tbl_val(self.coord_entries(), e0[j].0)
                        == (tbl_val(c0, e0[j].0).0, (tbl_val(c0, e0[j].0).1 + 1) as u8),
                forall|j: int|
                    i <= j < e0.len() && tbl_val(c0, (#[trigger] e0[j]).0).1 == GRID_HEIGHT - 1
                        ==> !tbl_has(self.enemy_entries(), e0[j].0),
                forall|k: EntityKey| #[trigger] tbl_has(self.enemy_entries(), k) ==> tbl_has(e0, k),
                forall|k2: EntityKey|
                    tbl_has(c0, k2) && !tbl_has(e0, k2) ==> tbl_has(self.coord_entries(), k2) && tbl_val(
                        self.coord_entries(),
                        k2,
                    ) == tbl_val(c0, k2),
            decreases i,
        {
            i = i - 1;
            let ev = events[i];
            if let WorldEvent::EnemyShipMoved(k, d) = ev {
                proof {
                    assert(k == e0[i as int].0);
                    assert forall|j: int|
                        0 <= j < e0.len() && j != i as int implies (#[trigger] e0[j]).0 != k by {
                        if j < i as int {
                            assert(e0[j].0 != e0[i as int].0);
                        } else {
                            assert(e0[i as int].0 != e0[j].0);
                        }
                    }
                }
                self.cascade_enemy_ship_moved(k, d);
            }
        }
        proof {
            assert forall|k: EntityKey|
                tbl_has(old(self).enemy_entries(), k) && tbl_val(c0, k).1 < GRID_HEIGHT
                    - 1 implies tbl_has(self.enemy_entries(), k) && tbl_val(self.coord_entries(), k) == (
                tbl_val(c0, k).0,
                (tbl_val(c0, k).1 + 1) as u8,
            ) by {
                let j = tbl_idx(e0, k);
                assert(e0[j].0 == k);
            }
            assert forall|k: EntityKey|
                tbl_has(old(self).enemy_entries(), k) && tbl_val(c0, k).1 == GRID_HEIGHT
                    - 1 implies !tbl_has(self.enemy_entries(), k) by {
                let j = tbl_idx(e0, k);
                assert(e0[j].0 == k);
            }
        }
    }

    /// Runs one full bullet-movement stage: every bullet above the top row
    /// ascends one row; one on the top row is removed instead, exactly once.
    pub fn run_player_bullets_moved(&mut self)
        requires
            old(self).wf(),
        ensures
            final(self).wf(),
            final(self).now() == old(self).now(),
            final(self).ship_entries() == old(self).ship_entries(),
            final(self).enemy_entries() == old(self).enemy_entries(),
            forall|k: EntityKey|
                #[trigger] tbl_has(old(self).bullet_entries(), k) && tbl_val(
                    old(self).coord_entries(),
                    k,
                ).1 > 0 ==> tbl_has(final(self).bullet_entries(), k) && tbl_val(
                    final(self).coord_entries(),
                    k,
                ) == (
                    tbl_val(old(self).coord_entries(), k).0,
                    (tbl_val(old(self).coord_entries(), k).1 - 1) as u8,
                ),
            forall|k: EntityKey|
                #[trigger] tbl_has(old(self).bullet_entries(), k) && tbl_val(
                    old(self).coord_entries(),
                    k,
                ).1 == 0 ==> !tbl_has(final(self).bullet_entries(), k),
            forall|k: EntityKey| #[trigger] tbl_has(final(self).bullet_entries(), k) ==> tbl_has(
                old(self).bullet_entries(),
                k,
            ),
            forall|k2: EntityKey|
                tbl_has(old(self).coord_entries(), k2) && !tbl_has(old(self).bullet_entries(), k2)
                    ==> tbl_has(final(self).coord_entries(), k2) && tbl_val(
                    final(self).coord_entries(),
                    k2,
                ) == tbl_val(old(self).coord_entries(), k2),
    {
        let events = self.player_bullets_moved();
        let ghost b0 = self.bullet_entries();
        let ghost c0 = self.coord_entries();
        proof {
            assert forall|j: int|
                0 <= j < b0.len() implies tbl_has(self.bullet_entries(), (#[trigger] b0[j]).0)
                && tbl_has(self.coord_entries(), b0[j].0) by {
                lemma_tbl_at(b0, j);
            }
        }
        let mut i: usize = events.len();
        while i > 0
            invariant
                self.wf(),
                self.ticks == old(self).now(),
                self.ship_entries() == old(self).ship_entries(),
                self.enemy_entries() == old(self).enemy_entries(),
                b0 == old(self).bullet_entries(),
                c0 == old(self).coord_entries(),
                tbl_distinct(b0),
                i <= b0.len(),
                events@.len() == b0.len(),
                forall|j: int|
                    0 <= j < b0.len() ==> events@[j] == WorldEvent::PlayerBulletMoved(
                        (#[trigger] b0[j]).0,
                        Direction::Up,
                    ),
                forall|j: int|
                    0 <= j < i ==> tbl_has(self.bullet_entries(), (#[trigger] b0[j]).0) && tbl_has(
                        self.coord_entries(),
                        b0[j].0,
                    ) && tbl_val(self.coord_entries(), b0[j].0) == tbl_val(c0, b0[j].0),
                forall|j: int|
                    i <= j < b0.len() && tbl_val(c0, (#[trigger] b0[j]).0).1 > 0 ==> tbl_has(
                        self.bullet_entries(),
                        b0[j].0,
                    ) && tbl_val(self.coord_entries(), b0[j].0) == (
                        tbl_val(c0, b0[j].0).0,
                        (tbl_val(c0, b0[j].0).1 - 1) as u8,
                    ),
                forall|j: int|
                    i <= j < b0.len() && tbl_val(c0, (#[trigger] b0[j]).0).1 == 0 ==> !tbl_has(
                        self.bullet_entries(),
                        b0[j].0,
                    ),
                forall|k: EntityKey| #[trigger] tbl_has(self.bullet_entries(), k) ==> tbl_has(
                    b0,
                    k,
                ),
                forall|k2: EntityKey|
                    tbl_has(c0, k2) && !tbl_has(b0, k2) ==> tbl_has(self.coord_entries(), k2) && tbl_val(
                        self.coord_entries(),
                        k2,
                    ) == tbl_val(c0, k2),
            decreases i,
        {
            i = i - 1;
            let ev = events[i];
            if let WorldEvent::PlayerBulletMoved(k, d) = ev {
                proof {
                    assert(k == b0[i as int].0);
                    assert forall|j: int|
                        0 <= j < b0.len() && j != i as int implies (#[trigger] b0[j]).0 != k by {
                        if j < i as int {
                            assert(b0[j].0 != b0[i as int].0);
                        } else {
                            assert(b0[i as int].0 != b0[j].0);
                        }
                    }
                }
                self.cascade_player_bullet_moved(k, d);
            }
        }
        proof {
            assert forall|k: EntityKey|
                tbl_has(old(self).bullet_entries(), k) && tbl_val(c0, k).1 > 0 implies tbl_has(
                self.bullet_entries(),
                k,
            ) && tbl_val(self.coord_entries(), k) == (tbl_val(c0, k).0, (tbl_val(c0, k).1 - 1) as u8) by {
                let j = tbl_idx(b0, k);
                assert(b0[j].0 == k);
            }
            assert forall|k: EntityKey|
                tbl_has(old(self).bullet_entries(), k) && tbl_val(c0, k).1 == 0 implies !tbl_has(
                self.bullet_entries(),
                k,
            ) by {
                let j = tbl_idx(b0, k);
                assert(b0[j].0 == k);
            }
        }
    }

    /// True when some enemy ship stands on a player ship's cell.
    fn any_player_ship_hit(&self) -> (b: bool)
        requires
            self.wf(),
        ensures
            b == spec_player_hit(self.player_ships@, self.enemy_ships@, self.coords@),
    {
        let mut i: usize = 0;
        while i < self.player_ships.len()
            invariant
                self.wf(),
                i <= self.player_ships@.len(),
                forall|m: int, j2: int|
                    0 <= m < i && 0 <= j2 < self.enemy_ships@.len() ==> tbl_val(
                        self.coords@,
                        (#[trigger] self.player_ships@[m]).0,
                    ) != tbl_val(self.coords@, (#[trigger] self.enemy_ships@[j2]).0),
            decreases self.player_ships@.len() - i,
        {
            let pe = self.player_ships.entry_at(i);
            proof {
                lemma_tbl_at(self.player_ships@, i as int);
            }
            let pc = self.coords.get(pe.0).unwrap();
            let mut j: usize = 0;
            while j < self.enemy_ships.len()
                invariant
                    self.wf(),
                    i < self.player_ships@.len(),
                    j <= self.enemy_ships@.len(),
                    pe == self.player_ships@[i as int],
                    tbl_has(self.player_ships@, pe.0),
                    pc == tbl_val(self.coords@, pe.0),
                    forall|j2: int|
                        0 <= j2 < j ==> pc != tbl_val(
                            self.coords@,
                            (#[trigger] self.enemy_ships@[j2]).0,
                        ),
                decreases self.enemy_ships@.len() - j,
            {
                let ee = self.enemy_ships.entry_at(j);
                proof {
                    lemma_tbl_at(self.enemy_ships@, j as int);
                }
                let ec = self.coords.get(ee.0).unwrap();
                if pc.0 == ec.0 && pc.1 == ec.1 {
                    return true;
                }
                j = j + 1;
            }
            i = i + 1;
        }
        proof {
            assert forall|pk: EntityKey, ek: EntityKey|
                tbl_has(self.player_ships@, pk) && tbl_has(self.enemy_ships@, ek) implies tbl_val(
                self.coords@,
                pk,
            ) != tbl_val(self.coords@, ek) by {
                let m = tbl_idx(self.player_ships@, pk);
                let j2 = tbl_idx(self.enemy_ships@, ek);
                assert(self.player_ships@[m].0 == pk);
                assert(self.enemy_ships@[j2].0 == ek);
            }
        }
        false
    }

    /// Collects every bullet and every enemy ship involved in a collision.
    /// A key may be listed once per colliding pair; removal is idempotent.
    fn collect_collisions(&self) -> (r: (Vec<EntityKey>, Vec<EntityKey>))
        requires
            self.wf(),
        ensures
            forall|m: int|
                0 <= m < r.0@.len() ==> spec_bullet_hit(
                    self.player_bullets@,
                    self.enemy_ships@,
                    self.coords@,
                    #[trigger] r.0@[m],
                ),
            forall|m: int|
                0 <= m < r.1@.len() ==> spec_enemy_hit(
                    self.player_bullets@,
                    self.enemy_ships@,
                    self.coords@,
                    #[trigger] r.1@[m],
                ),
            forall|bk: EntityKey|
                #[trigger] spec_bullet_hit(
                    self.player_bullets@,
                    self.enemy_ships@,
                    self.coords@,
                    bk,
                ) ==> r.0@.contains(bk),
            forall|ek: EntityKey|
                #[trigger] spec_enemy_hit(
                    self.player_bullets@,
                    self.enemy_ships@,
                    self.coords@,
                    ek,
                ) ==> r.1@.contains(ek),
    {
        let mut bullets_hit: Vec<EntityKey> = Vec::new();
        let mut enemies_hit: Vec<EntityKey> = Vec::new();
        let mut i: usize = 0;
        while i < self.player_bullets.len()
            invariant
                self.wf(),
                i <= self.player_bullets@.len(),
                forall|m: int|
                    0 <= m < bullets_hit@.len() ==> spec_bullet_hit(
                        self.player_bullets@,
                        self.enemy_ships@,
                        self.coords@,
                        #[trigger] bullets_hit@[m],
                    ),
                forall|m: int|
                    0 <= m < enemies_hit@.len() ==> spec_enemy_hit(
                        self.player_bullets@,
                        self.enemy_ships@,
                        self.coords@,
                        #[trigger] enemies_hit@[m],
                    ),
                forall|m: int|
                    0 <= m < i ==> (spec_bullet_hit(
                        self.player_bullets@,
                        self.enemy_ships@,
                        self.coords@,
                        (#[trigger] self.player_bullets@[m]).0,
                    ) ==> bullets_hit@.contains(self.player_bullets@[m].0)),
                forall|j2: int, m: int|
                    0 <= j2 < self.enemy_ships@.len() && 0 <= m < i && tbl_val(
                        self.coords@,
                        (#[trigger] self.enemy_ships@[j2]).0,
                    ) == tbl_val(self.coords@, (#[trigger] self.player_bullets@[m]).0)
                        ==> enemies_hit@.contains(self.enemy_ships@[j2].0),
            decreases self.player_bullets@.len() - i,
        {
            let be = self.player_bullets.entry_at(i);
            proof {
                lemma_tbl_at(self.player_bullets@, i as int);
            }
            let bc = self.coords.get(be.0).unwrap();
            let mut j: usize = 0;
            while j < self.enemy_ships.len()
                invariant
                    self.wf(),
                    i < self.player_bullets@.len(),
                    j <= self.enemy_ships@.len(),
                    be == self.player_bullets@[i as int],
                    tbl_has(self.player_bullets@, be.0),
                    bc == tbl_val(self.coords@, be.0),
                    forall|m: int|
                        0 <= m < bullets_hit@.len() ==> spec_bullet_hit(
                            self.player_bullets@,
                            self.enemy_ships@,
                            self.coords@,
                            #[trigger] bullets_hit@[m],
                        ),
                    forall|m: int|
                        0 <= m < enemies_hit@.len() ==> spec_enemy_hit(
                            self.player_bullets@,
                            self.enemy_ships@,
                            self.coords@,
                            #[trigger] enemies_hit@[m],
                        ),
                    forall|m: int|
                        0 <= m < i ==> (spec_bullet_hit(
                            self.player_bullets@,
                            self.enemy_ships@,
                            self.coords@,
                            (#[trigger] self.player_bullets@[m]).0,
                        ) ==> bullets_hit@.contains(self.player_bullets@[m].0)),
                    forall|j2: int, m: int|
                        0 <= j2 < self.enemy_ships@.len() && 0 <= m < i && tbl_val(
                            self.coords@,
                            (#[trigger] self.enemy_ships@[j2]).0,
                        ) == tbl_val(self.coords@, (#[trigger] self.player_bullets@[m]).0)
                            ==> enemies_hit@.contains(self.enemy_ships@[j2].0),
                    forall|j2: int|
                        0 <= j2 < j && tbl_val(self.coords@, (#[trigger] self.enemy_ships@[j2]).0)
                            == bc ==> bullets_hit@.contains(be.0) && enemies_hit@.contains(
                            self.enemy_ships@[j2].0,
                        ),
                decreases self.enemy_ships@.len() - j,
            {
                let ee = self.enemy_ships.entry_at(j);
                proof {
                    lemma_tbl_at(self.enemy_ships@, j as int);
                }
                let ec = self.coords.get(ee.0).unwrap();
                if bc.0 == ec.0 && bc.1 == ec.1 {
                    let ghost bh0 = bullets_hit@;
                    let ghost eh0 = enemies_hit@;
                    bullets_hit.push(be.0);
                    enemies_hit.push(ee.0);
                    proof {
                        assert(bullets_hit@.last() == be.0);
                        assert(enemies_hit@.last() == ee.0);
                        assert(bullets_hit@.contains(be.0));
                        assert(enemies_hit@.contains(ee.0));
                        assert(spec_bullet_hit(
                            self.player_bullets@,
                            self.enemy_ships@,
                            self.coords@,
                            be.0,
                        ));
                        assert(spec_enemy_hit(
                            self.player_bullets@,
                            self.enemy_ships@,
                            self.coords@,
                            ee.0,
                        ));
                        assert forall|x: EntityKey| bh0.contains(x) implies bullets_hit@.contains(
                            x,
                        ) by {
                            let ix = choose|ix: int| 0 <= ix < bh0.len() && bh0[ix] == x;
                            assert(bullets_hit@[ix] == x);
                        }
                        assert forall|x: EntityKey| eh0.contains(x) implies enemies_hit@.contains(
                            x,
                        ) by {
                            let ix = choose|ix: int| 0 <= ix < eh0.len() && eh0[ix] == x;
                            assert(enemies_hit@[ix] == x);
                        }
                    }
                }
                j = j + 1;
            }
            proof {
                assert forall|m: int|
                    0 <= m < i as int + 1 implies (spec_bullet_hit(
                    self.player_bullets@,
                    self.enemy_ships@,
                    self.coords@,
                    (#[trigger] self.player_bullets@[m]).0,
                ) ==> bullets_hit@.contains(self.player_bullets@[m].0)) by {
                    if m == i as int && spec_bullet_hit(
                        self.player_bullets@,
                        self.enemy_ships@,
                        self.coords@,
                        self.player_bullets@[m].0,
                    ) {
                        let ek = choose|ek: EntityKey|
                            #[trigger] tbl_has(self.enemy_ships@, ek) && tbl_val(self.coords@, ek)
                                == tbl_val(self.coords@, be.0);
                        let j2 = tbl_idx(self.enemy_ships@, ek);
                        assert(self.enemy_ships@[j2].0 == ek);
                        assert(tbl_val(self.coords@, self.enemy_ships@[j2].0) == bc);
                    }
                }
                assert forall|j2: int, m: int|
                    0 <= j2 < self.enemy_ships@.len() && 0 <= m < i as int + 1 && tbl_val(
                        self.coords@,
                        (#[trigger] self.enemy_ships@[j2]).0,
                    ) == tbl_val(self.coords@, (#[trigger] self.player_bullets@[m]).0)
                    implies enemies_hit@.contains(self.enemy_ships@[j2].0) by {
                    if m == i as int {
                        assert(tbl_val(self.coords@, self.enemy_ships@[j2].0) == bc);
                    }
                }
            }
            i = i + 1;
        }
        proof {
            assert forall|bk: EntityKey|
                spec_bullet_hit(
                    self.player_bullets@,
                    self.enemy_ships@,
                    self.coords@,
                    bk,
                ) implies bullets_hit@.contains(bk) by {
                let m = tbl_idx(self.player_bullets@, bk);
                assert(self.player_bullets@[m].0 == bk);
            }
            assert forall|ek: EntityKey|
                spec_enemy_hit(
                    self.player_bullets@,
                    self.enemy_ships@,
                    self.coords@,
                    ek,
                ) implies enemies_hit@.contains(ek) by {
                let bk = choose|bk: EntityKey|
                    #[trigger] tbl_has(self.player_bullets@, bk) && tbl_val(self.coords@, bk)
                        == tbl_val(self.coords@, ek);
                let m = tbl_idx(self.player_bullets@, bk);
                assert(self.player_bullets@[m].0 == bk);
                let j2 = tbl_idx(self.enemy_ships@, ek);
                assert(self.enemy_ships@[j2].0 == ek);
                assert(tbl_val(self.coords@, self.enemy_ships@[j2].0) == tbl_val(
                    self.coords@,
                    self.player_bullets@[m].0,
                ));
            }
        }
        (bullets_hit, enemies_hit)
    }

    /// Runs the collision pass: every bullet sharing a cell with an enemy
    /// ship removes both, and an enemy ship reaching a player ship's cell
    /// kills every player ship. Entities not involved in any collision keep
    /// their place, and no bullet/enemy collision survives the pass.
    #[verifier::rlimit(100)]
    pub fn resolve_collisions(&mut self)
        requires
            old(self).wf(),
        ensures
            final(self).wf(),
            final(self).now() == old(self).now(),
            forall|bk: EntityKey|
                #[trigger] tbl_has(old(self).bullet_entries(), bk) && spec_bullet_hit(
                    old(self).bullet_entries(),
                    old(self).enemy_entries(),
                    old(self).coord_entries(),
                    bk,
                ) ==> !tbl_has(final(self).bullet_entries(), bk),
            forall|bk: EntityKey|
                #[trigger] tbl_has(old(self).bullet_entries(), bk) && !spec_bullet_hit(
                    old(self).bullet_entries(),
                    old(self).enemy_entries(),
                    old(self).coord_entries(),
                    bk,
                ) ==> tbl_has(final(self).bullet_entries(), bk) && tbl_val(
                    final(self).coord_entries(),
                    bk,
                ) == tbl_val(old(self).coord_entries(), bk),
            forall|ek: EntityKey|
                #[trigger] tbl_has(old(self).enemy_entries(), ek) && spec_enemy_hit(
                    old(self).bullet_entries(),
                    old(self).enemy_entries(),
                    old(self).coord_entries(),
                    ek,
                ) ==> !tbl_has(final(self).enemy_entries(), ek),
            forall|ek: EntityKey|
                #[trigger] tbl_has(old(self).enemy_entries(), ek) && !spec_enemy_hit(
                    old(self).bullet_entries(),
                    old(self).enemy_entries(),
                    old(self).coord_entries(),
                    ek,
                ) ==> tbl_has(final(self).enemy_entries(), ek) && tbl_val(
                    final(self).coord_entries(),
                    ek,
                ) == tbl_val(old(self).coord_entries(), ek),
            forall|bk: EntityKey| #[trigger] tbl_has(final(self).bullet_entries(), bk) ==> tbl_has(
                old(self).bullet_entries(),
                bk,
            ),
            forall|ek: EntityKey| #[trigger] tbl_has(final(self).enemy_entries(), ek) ==> tbl_has(
                old(self).enemy_entries(),
                ek,
            ),
            spec_player_hit(
                old(self).ship_entries(),
                old(self).enemy_entries(),
                old(self).coord_entries(),
            ) ==> final(self).ship_entries().len() == 0,
            !spec_player_hit(
                old(self).ship_entries(),
                old(self).enemy_entries(),
                old(self).coord_entries(),
            ) ==> final(self).ship_entries() == old(self).ship_entries(),
            forall|bk: EntityKey, ek: EntityKey|
                #[trigger] tbl_has(final(self).bullet_entries(), bk) && #[trigger] tbl_has(
                    final(self).enemy_entries(),
                    ek,
                ) ==> tbl_val(final(self).coord_entries(), bk) != tbl_val(
                    final(self).coord_entries(),
                    ek,
                ),
    {
        let ghost b0 = self.player_bullets@;
        let ghost e0 = self.enemy_ships@;
        let ghost c0 = self.coords@;
        let ghost s0 = self.player_ships@;
        let player_hit = self.any_player_ship_hit();
        let r = self.collect_collisions();
        let (bullets_hit, enemies_hit) = r;
        let mut m: usize = 0;
        while m < bullets_hit.len()
            invariant
                self.wf(),
                self.ticks == old(self).now(),
                self.player_ships@ == s0,
                self.enemy_ships@ == e0,
                forall|m2: int|
                    0 <= m2 < bullets_hit@.len() ==> spec_bullet_hit(
                        b0,
                        e0,
                        c0,
                        #[trigger] bullets_hit@[m2],
                    ),
                forall|bk: EntityKey| #[trigger] spec_bullet_hit(b0, e0, c0, bk)
                    ==> bullets_hit@.contains(bk),
                forall|bk: EntityKey| #[trigger] tbl_has(self.player_bullets@, bk) ==> tbl_has(
                    b0,
                    bk,
                ),
                forall|m2: int|
                    0 <= m2 < m ==> !tbl_has(self.player_bullets@, #[trigger] bullets_hit@[m2]),
                forall|bk: EntityKey|
                    tbl_has(b0, bk) && !bullets_hit@.contains(bk) ==> #[trigger] tbl_has(
                        self.player_bullets@,
                        bk,
                    ),
                forall|k2: EntityKey|
                    tbl_has(c0, k2) && !tbl_has(b0, k2) ==> #[trigger] tbl_has(self.coords@, k2)
                        && tbl_val(self.coords@, k2) == tbl_val(c0, k2),
                forall|bk: EntityKey| #[trigger] tbl_has(self.player_bullets@, bk) ==> tbl_has(
                    self.coords@,
                    bk,
                ) && tbl_val(self.coords@, bk) == tbl_val(c0, bk),
            decreases bullets_hit@.len() - m,
        {
            let k = bullets_hit[m];
            proof {
                assert(spec_bullet_hit(b0, e0, c0, k));
                assert(tbl_has(b0, k));
            }
            self.remove_bullet(k);
            proof {
                assert forall|bk: EntityKey|
                    tbl_has(b0, bk) && !bullets_hit@.contains(bk) implies tbl_has(
                    self.player_bullets@,
                    bk,
                ) by {
                    assert(bullets_hit@[m as int] == k);
                    assert(bk != k);
                }
            }
            m = m + 1;
        }
        proof {
            assert forall|bk: EntityKey|
                tbl_has(self.player_bullets@, bk) implies !spec_bullet_hit(b0, e0, c0, bk) by {
                if spec_bullet_hit(b0, e0, c0, bk) {
                    assert(bullets_hit@.contains(bk));
                    let m2 = choose|m2: int|
                        0 <= m2 < bullets_hit@.len() && bullets_hit@[m2] == bk;
                    assert(!tbl_has(self.player_bullets@, bullets_hit@[m2]));
                }
            }
            assert forall|bk: EntityKey|
                tbl_has(b0, bk) && !spec_bullet_hit(b0, e0, c0, bk) implies tbl_has(
                self.player_bullets@,
                bk,
            ) by {
                if bullets_hit@.contains(bk) {
                    let m2 = choose|m2: int|
                        0 <= m2 < bullets_hit@.len() && bullets_hit@[m2] == bk;
                    assert(spec_bullet_hit(b0, e0, c0, bullets_hit@[m2]));
                }
            }
        }
        let mut m: usize = 0;
        while m < enemies_hit.len()
            invariant
                self.wf(),
                self.ticks == old(self).now(),
                self.player_ships@ == s0,
                forall|m2: int|
                    0 <= m2 < enemies_hit@.len() ==> spec_enemy_hit(
                        b0,
                        e0,
                        c0,
                        #[trigger] enemies_hit@[m2],
                    ),
                forall|ek: EntityKey| #[trigger] spec_enemy_hit(b0, e0, c0, ek)
                    ==> enemies_hit@.contains(ek),
                forall|bk: EntityKey| #[trigger] tbl_has(self.player_bullets@, bk) ==> tbl_has(
                    b0,
                    bk,
                ) && !spec_bullet_hit(b0, e0, c0, bk),
                forall|bk: EntityKey|
                    tbl_has(b0, bk) && !spec_bullet_hit(b0, e0, c0, bk) ==> #[trigger] tbl_has(
                        self.player_bullets@,
                        bk,
                    ),
                forall|ek: EntityKey| #[trigger] tbl_has(self.enemy_ships@, ek) ==> tbl_has(
                    e0,
                    ek,
                ),
                forall|m2: int|
                    0 <= m2 < m ==> !tbl_has(self.enemy_ships@, #[trigger] enemies_hit@[m2]),
                forall|ek: EntityKey|
                    tbl_has(e0, ek) && !enemies_hit@.contains(ek) ==> #[trigger] tbl_has(
                        self.enemy_ships@,
                        ek,
                    ),
                forall|k2: EntityKey|
                    tbl_has(c0, k2) && !tbl_has(b0, k2) && !tbl_has(e0, k2) ==> #[trigger] tbl_has(
                        self.coords@,
                        k2,
                    ) && tbl_val(self.coords@, k2) == tbl_val(c0, k2),
                forall|bk: EntityKey| #[trigger] tbl_has(self.player_bullets@, bk) ==> tbl_has(
                    self.coords@,
                    bk,
                ) && tbl_val(self.coords@, bk) == tbl_val(c0, bk),
                forall|ek: EntityKey| #[trigger] tbl_has(self.enemy_ships@, ek) ==> tbl_has(
                    self.coords@,
                    ek,
                ) && tbl_val(self.coords@, ek) == tbl_val(c0, ek),
            decreases enemies_hit@.len() - m,
        {
            let k = enemies_hit[m];
            proof {
                assert(spec_enemy_hit(b0, e0, c0, k));
                assert(tbl_has(e0, k));
            }
            self.remove_enemy(k);
            proof {
                assert forall|ek: EntityKey|
                    tbl_has(e0, ek) && !enemies_hit@.contains(ek) implies tbl_has(
                    self.enemy_ships@,
                    ek,
                ) by {
                    assert(enemies_hit@[m as int] == k);
                    assert(ek != k);
                }
            }
            m = m + 1;
        }
        proof {
            assert forall|ek: EntityKey|
                tbl_has(self.enemy_ships@, ek) implies !spec_enemy_hit(b0, e0, c0, ek) by {
                if spec_enemy_hit(b0, e0, c0, ek) {
                    assert(enemies_hit@.contains(ek));
                    let m2 = choose|m2: int|
                        0 <= m2 < enemies_hit@.len() && enemies_hit@[m2] == ek;
                    assert(!tbl_has(self.enemy_ships@, enemies_hit@[m2]));
                }
            }
            assert forall|ek: EntityKey|
                tbl_has(e0, ek) && !spec_enemy_hit(b0, e0, c0, ek) implies tbl_has(
                self.enemy_ships@,
                ek,
            ) by {
                if enemies_hit@.contains(ek) {
                    let m2 = choose|m2: int|
                        0 <= m2 < enemies_hit@.len() && enemies_hit@[m2] == ek;
                    assert(spec_enemy_hit(b0, e0, c0, enemies_hit@[m2]));
                }
            }
            assert forall|bk: EntityKey|
                #[trigger] tbl_has(self.player_bullets@, bk) implies !tbl_has(s0, bk) by {
                if tbl_has(s0, bk) {
                    assert(!tbl_has(self.player_bullets@, bk));
                }
            }
            assert forall|ek: EntityKey|
                #[trigger] tbl_has(self.enemy_ships@, ek) implies !tbl_has(s0, ek) by {
                if tbl_has(s0, ek) {
                    assert(!tbl_has(self.enemy_ships@, ek));
                }
            }
        }
        let ghost bullets_pre = self.player_bullets@;
        let ghost enemies_pre = self.enemy_ships@;
        let ghost coords_pre = self.coords@;
        if player_hit {
            self.player_ship_died((0, 0));
        }
        proof {
            assert(self.player_bullets@ == bullets_pre);
            assert(self.enemy_ships@ == enemies_pre);
            assert forall|bk: EntityKey|
                #[trigger] tbl_has(bullets_pre, bk) implies tbl_has(self.coords@, bk) && tbl_val(
                self.coords@,
                bk,
            ) == tbl_val(coords_pre, bk) by {
                assert(!tbl_has(s0, bk));
            }
            assert forall|ek: EntityKey|
                #[trigger] tbl_has(enemies_pre, ek) implies tbl_has(self.coords@, ek) && tbl_val(
                self.coords@,
                ek,
            ) == tbl_val(coords_pre, ek) by {
                assert(!tbl_has(s0, ek));
            }
            assert forall|bk: EntityKey|
                #[trigger] tbl_has(b0, bk) && spec_bullet_hit(b0, e0, c0, bk) implies !tbl_has(
                self.player_bullets@,
                bk,
            ) by {
                if tbl_has(bullets_pre, bk) {
                    assert(!spec_bullet_hit(b0, e0, c0, bk));
                }
            }
            assert forall|ek: EntityKey|
                #[trigger] tbl_has(e0, ek) && spec_enemy_hit(b0, e0, c0, ek) implies !tbl_has(
                self.enemy_ships@,
                ek,
            ) by {
                if tbl_has(enemies_pre, ek) {
                    assert(!spec_enemy_hit(b0, e0, c0, ek));
                }
            }
            assert forall|bk: EntityKey|
                tbl_has(b0, bk) && !spec_bullet_hit(b0, e0, c0, bk) implies tbl_has(
                self.player_bullets@,
                bk,
            ) && tbl_val(self.coords@, bk) == tbl_val(c0, bk) by {
                assert(tbl_has(bullets_pre, bk));
                assert(tbl_val(coords_pre, bk) == tbl_val(c0, bk));
            }
            assert forall|ek: EntityKey|
                tbl_has(e0, ek) && !spec_enemy_hit(b0, e0, c0, ek) implies tbl_has(
                self.enemy_ships@,
                ek,
            ) && tbl_val(self.coords@, ek) == tbl_val(c0, ek) by {
                assert(tbl_has(enemies_pre, ek));
                assert(tbl_val(coords_pre, ek) == tbl_val(c0, ek));
            }
            assert forall|bk: EntityKey, ek: EntityKey|
                #[trigger] tbl_has(self.player_bullets@, bk) && #[trigger] tbl_has(
                    self.enemy_ships@,
                    ek,
                ) implies tbl_val(self.coords@, bk) != tbl_val(self.coords@, ek) by {
                assert(tbl_has(b0, bk) && !spec_bullet_hit(b0, e0, c0, bk));
                assert(tbl_has(e0, ek));
                assert(tbl_val(self.coords@, bk) == tbl_val(c0, bk));
                assert(tbl_val(self.coords@, ek) == tbl_val(c0, ek));
                assert(tbl_val(c0, ek) != tbl_val(c0, bk));
            }
        }
    }

    /// Advances simulated time by one tick: bullets move up and collisions
    /// resolve; on every other tick the enemy ships then move down and
    /// collisions resolve again. At the end of a tick no bullet shares a
    /// cell with an enemy ship.
    pub fn tick(&mut self)
        requires
            old(self).wf(),
            old(self).now() < usize::MAX,
        ensures
            final(self).wf(),
            final(self).now() == old(self).now() + 1,
            forall|bk: EntityKey, ek: EntityKey|
                #[trigger] tbl_has(final(self).bullet_entries(), bk) && #[trigger] tbl_has(
                    final(self).enemy_entries(),
                    ek,
                ) ==> tbl_val(final(self).coord_entries(), bk) != tbl_val(
                    final(self).coord_entries(),
                    ek,
                ),
    {
        self.ticks = self.ticks + 1;
        let ghost w0 = *self;
        self.run_player_bullets_moved();
        let ghost w1 = *self;
        self.resolve_collisions();
        let ghost w2 = *self;
        proof {
            assert forall|bk: EntityKey|
                #[trigger] tbl_has(w2.bullet_entries(), bk) implies tbl_has(
                old(self).bullet_entries(),
                bk,
            ) && tbl_val(old(self).coord_entries(), bk).1 > 0 && tbl_val(
                w2.coord_entries(),
                bk,
            ) == (
                tbl_val(old(self).coord_entries(), bk).0,
                (tbl_val(old(self).coord_entries(), bk).1 - 1) as u8,
            ) by {
                assert(tbl_has(w1.bullet_entries(), bk));
                assert(tbl_has(w0.bullet_entries(), bk));
                if tbl_val(w0.coord_entries(), bk).1 == 0 {
                    assert(!tbl_has(w1.bullet_entries(), bk));
                }
            }
            assert forall|ek: EntityKey|
                #[trigger] tbl_has(w2.enemy_entries(), ek) implies tbl_has(
                old(self).enemy_entries(),
                ek,
            ) && tbl_val(w2.coord_entries(), ek) == tbl_val(old(self).coord_entries(), ek) by {
                assert(tbl_has(w1.enemy_entries(), ek));
                assert(!tbl_has(w0.bullet_entries(), ek));
            }
        }
        if self.ticks % 2 == 0 {
            self.run_enemy_ships_moved();
            let ghost w3 = *self;
            self.resolve_collisions();
            proof {
                assert forall|bk: EntityKey|
                    #[trigger] tbl_has(self.bullet_entries(), bk) implies tbl_has(
                    old(self).bullet_entries(),
                    bk,
                ) && tbl_val(old(self).coord_entries(), bk).1 > 0 && tbl_val(
                    self.coord_entries(),
                    bk,
                ) == (
                    tbl_val(old(self).coord_entries(), bk).0,
                    (tbl_val(old(self).coord_entries(), bk).1 - 1) as u8,
                ) by {
                    assert(tbl_has(w3.bullet_entries(), bk));
                    assert(tbl_has(w2.bullet_entries(), bk));
                    assert(!tbl_has(w2.enemy_entries(), bk));
                    assert(tbl_val(w3.coord_entries(), bk) == tbl_val(w2.coord_entries(), bk));
                }
                assert forall|ek: EntityKey|
                    #[trigger] tbl_has(self.enemy_entries(), ek) implies tbl_has(
                    old(self).enemy_entries(),
                    ek,
                ) && tbl_val(old(self).coord_entries(), ek).1 < GRID_HEIGHT - 1 && tbl_val(
                    self.coord_entries(),
                    ek,
                ) == (
                    tbl_val(old(self).coord_entries(), ek).0,
                    (tbl_val(old(self).coord_entries(), ek).1 + 1) as u8,
                ) by {
                    assert(tbl_has(w3.enemy_entries(), ek));
                    assert(tbl_has(w2.enemy_entries(), ek));
                    if tbl_val(w2.coord_entries(), ek).1 == GRID_HEIGHT - 1 {
                        assert(!tbl_has(w3.enemy_entries(), ek));
                    }
                }
                assert forall|ek: EntityKey|
                    tbl_has(old(self).enemy_entries(), ek) && tbl_val(
                        old(self).coord_entries(),
                        ek,
                    ).1 == GRID_HEIGHT - 1 implies !tbl_has(self.enemy_entries(), ek) by {
                    if tbl_has(w2.enemy_entries(), ek) {
                        assert(tbl_val(w2.coord_entries(), ek) == tbl_val(
                            old(self).coord_entries(),
                            ek,
                        ));
                        assert(!tbl_has(w3.enemy_entries(), ek));
                    }
                }
            }
        }
    }

    /// Requests that every player ship move one cell; dispatched at once.
    pub fn request_ship_move(&mut self, dir: Direction)
        requires
            old(self).wf(),
        ensures
            final(self).wf(),
            final(self).now() == old(self).now(),
            final(self).ship_entries() == old(self).ship_entries(),
            final(self).bullet_entries() == old(self).bullet_entries(),
            final(self).enemy_entries() == old(self).enemy_entries(),
            forall|k2: EntityKey|
                tbl_has(old(self).ship_entries(), k2) ==> tbl_val(final(self).coord_entries(), k2)
                    == spec_ship_coords_after_move(tbl_val(old(self).coord_entries(), k2), dir),
    {
        self.player_ship_moved(dir);
    }

    /// Requests that every player ship fire one bullet from the cell above
    /// it; dispatched at once.
    pub fn request_bullets_fired(&mut self)
        requires
            old(self).wf(),
        ensures
            final(self).wf(),
            final(self).now() == old(self).now(),
            final(self).ship_entries() == old(self).ship_entries(),
            final(self).enemy_entries() == old(self).enemy_entries(),
            final(self).bullet_entries().len() == old(self).bullet_entries().len()
                + spec_firing_ships(
                old(self).ship_entries(),
                old(self).coord_entries(),
                old(self).ship_entries().len() as int,
            ),
            forall|j: int|
                0 <= j < old(self).ship_entries().len() && tbl_val(
                    old(self).coord_entries(),
                    (#[trigger] old(self).ship_entries()[j]).0,
                ).1 >= 2 ==> spec_bullet_at_cell(
                    final(self).bullet_entries(),
                    final(self).coord_entries(),
                    (
                        tbl_val(old(self).coord_entries(), old(self).ship_entries()[j].0).0,
                        (tbl_val(old(self).coord_entries(), old(self).ship_entries()[j].0).1
                            - 1) as u8,
                    ),
                ),
    {
        let mut ship_cells: Vec<Coords> = Vec::new();
        let mut i: usize = 0;
        while i < self.player_ships.len()
            invariant
                self.wf(),
                i <= self.player_ships@.len(),
                *self == *old(self),
                ship_cells@.len() == i,
                forall|j: int|
                    0 <= j < i ==> #[trigger] ship_cells@[j] == tbl_val(
                        self.coords@,
                        self.player_ships@[j].0,
                    ) && in_bounds(ship_cells@[j]),
            decreases self.player_ships@.len() - i,
        {
            let e = self.player_ships.entry_at(i);
            proof {
                lemma_tbl_at(self.player_ships@, i as int);
            }
            let c = self.coords.get(e.0).unwrap();
            ship_cells.push(c);
            i = i + 1;
        }
        let mut i: usize = 0;
        while i < ship_cells.len()
            invariant
                self.wf(),
                self.ticks == old(self).now(),
                self.player_ships@ == old(self).ship_entries(),
                self.enemy_ships@ == old(self).enemy_entries(),
                i <= ship_cells@.len(),
                ship_cells@.len() == old(self).ship_entries().len(),
                forall|j: int|
                    0 <= j < ship_cells@.len() ==> #[trigger] ship_cells@[j] == tbl_val(
                        old(self).coord_entries(),
                        old(self).ship_entries()[j].0,
                    ) && in_bounds(ship_cells@[j]),
                self.player_bullets@.len() == old(self).bullet_entries().len()
                    + spec_firing_ships(old(self).ship_entries(), old(self).coord_entries(), i as int),
                forall|j: int|
                    0 <= j < i && ship_cells@[j].1 >= 2 ==> spec_bullet_at_cell(
                        self.bullet_entries(),
                        self.coord_entries(),
                        ((#[trigger] ship_cells@[j]).0, (ship_cells@[j].1 - 1) as u8),
                    ),
            decreases ship_cells@.len() - i,
        {
            let c = ship_cells[i];
            let ghost bullets_before = self.bullet_entries();
            let ghost coords_before = self.coord_entries();
            self.player_bullet_fired_from(c);
            proof {
                if c.1 >= 2 {
                    let nk = self.bullet_entries().last().0;
                    assert(tbl_has(self.bullet_entries(), nk));
                    assert(spec_bullet_at_cell(
                        self.bullet_entries(),
                        self.coord_entries(),
                        (c.0, (c.1 - 1) as u8),
                    ));
                }
                assert forall|j: int|
                    0 <= j < i as int && ship_cells@[j].1 >= 2 implies spec_bullet_at_cell(
                    self.bullet_entries(),
                    self.coord_entries(),
                    ((#[trigger] ship_cells@[j]).0, (ship_cells@[j].1 - 1) as u8),
                ) by {
                    let bk = choose|bk: EntityKey|
                        #[trigger] tbl_has(bullets_before, bk) && tbl_val(coords_before, bk) == (
                        ship_cells@[j].0,
                        (ship_cells@[j].1 - 1) as u8,
                        );
                    let m = tbl_idx(bullets_before, bk);
                    assert(bullets_before[m].0 == bk);
                    assert(self.bullet_entries()[m] == bullets_before[m]);
                    assert(tbl_has(self.bullet_entries(), bk));
                    assert(tbl_val(self.coord_entries(), bk) == tbl_val(coords_before, bk));
                }
            }
            i = i + 1;
        }
        proof {
            assert forall|j: int|
                0 <= j < old(self).ship_entries().len() && tbl_val(
                    old(self).coord_entries(),
                    (#[trigger] old(self).ship_entries()[j]).0,
                ).1 >= 2 implies spec_bullet_at_cell(
                self.bullet_entries(),
                self.coord_entries(),
                (
                    tbl_val(old(self).coord_entries(), old(self).ship_entries()[j].0).0,
                    (tbl_val(old(self).coord_entries(), old(self).ship_entries()[j].0).1
                        - 1) as u8,
                ),
            ) by {
                assert(ship_cells@[j] == tbl_val(
                    old(self).coord_entries(),
                    old(self).ship_entries()[j].0,
                ));
            }
        }
    }

    /// Handles one externally chosen event immediately, resolving its full
    /// cascade depth-first, exactly as the event stack would pop it.
    pub fn dispatch_event(&mut self, e: WorldEvent)
        requires
            old(self).wf(),
        ensures
            final(self).wf(),
            final(self).now() == old(self).now(),
            e is EnemyShipsMoved ==> {
                &&& forall|k: EntityKey|
                    #[trigger] tbl_has(old(self).enemy_entries(), k) && tbl_val(
                        old(self).coord_entries(),
                        k,
                    ).1 < GRID_HEIGHT - 1 ==> tbl_has(final(self).enemy_entries(), k) && tbl_val(
                        final(self).coord_entries(),
                        k,
                    ) == (
                        tbl_val(old(self).coord_entries(), k).0,
                        (tbl_val(old(self).coord_entries(), k).1 + 1) as u8,
                    )
                &&& forall|k: EntityKey|
                    #[trigger] tbl_has(old(self).enemy_entries(), k) && tbl_val(
                        old(self).coord_entries(),
                        k,
                    ).1 == GRID_HEIGHT - 1 ==> !tbl_has(final(self).enemy_entries(), k)
                &&& forall|k: EntityKey| #[trigger] tbl_has(final(self).enemy_entries(), k)
                    ==> tbl_has(old(self).enemy_entries(), k)
                &&& final(self).ship_entries() == old(self).ship_entries()
                &&& final(self).bullet_entries() == old(self).bullet_entries()
            },
            e is PlayerBulletsMoved ==> {
                &&& forall|k: EntityKey|
                    #[trigger] tbl_has(old(self).bullet_entries(), k) && tbl_val(
                        old(self).coord_entries(),
                        k,
                    ).1 > 0 ==> tbl_has(final(self).bullet_entries(), k) && tbl_val(
                        final(self).coord_entries(),
                        k,
                    ) == (
                        tbl_val(old(self).coord_entries(), k).0,
                        (tbl_val(old(self).coord_entries(), k).1 - 1) as u8,
                    )
                &&& forall|k: EntityKey|
                    #[trigger] tbl_has(old(self).bullet_entries(), k) && tbl_val(
                        old(self).coord_entries(),
                        k,
                    ).1 == 0 ==> !tbl_has(final(self).bullet_entries(), k)
                &&& final(self).ship_entries() == old(self).ship_entries()
                &&& final(self).enemy_entries() == old(self).enemy_entries()
            },
            e is EnemyShipRemoved ==> !tbl_has(final(self).enemy_entries(), e->EnemyShipRemoved_0)
                && final(self).ship_entries() == old(self).ship_entries()
                && final(self).bullet_entries() == old(self).bullet_entries(),
            e is PlayerBulletRemoved ==> !tbl_has(
                final(self).bullet_entries(),
                e->PlayerBulletRemoved_0,
            ) && final(self).ship_entries() == old(self).ship_entries()
                && final(self).enemy_entries() == old(self).enemy_entries(),
            e is PlayerShipDied ==> final(self).ship_entries().len() == 0
                && final(self).bullet_entries() == old(self).bullet_entries()
                && final(self).enemy_entries() == old(self).enemy_entries(),
            e is PlayerShipMoved ==> final(self).ship_entries() == old(self).ship_entries()
                && final(self).bullet_entries() == old(self).bullet_entries()
                && final(self).enemy_entries() == old(self).enemy_entries() && (forall|
                k: EntityKey,
            |
                tbl_has(old(self).ship_entries(), k) ==> tbl_val(final(self).coord_entries(), k)
                    == spec_ship_coords_after_move(
                    tbl_val(old(self).coord_entries(), k),
                    e->PlayerShipMoved_0,
                )),
            e is PlayerBulletFired ==> final(self).ship_entries() == old(self).ship_entries()
                && final(self).enemy_entries() == old(self).enemy_entries() && ((
            e->PlayerBulletFired_0.1 >= 2 && in_bounds(e->PlayerBulletFired_0))
                ==> final(self).bullet_entries().len() == old(self).bullet_entries().len() + 1),
            e is EnemyShipMoved && tbl_has(old(self).enemy_entries(), e->EnemyShipMoved_0)
                && !(e->EnemyShipMoved_1 is Down && tbl_val(
                old(self).coord_entries(),
                e->EnemyShipMoved_0,
            ).1 == GRID_HEIGHT - 1) ==> tbl_val(
                final(self).coord_entries(),
                e->EnemyShipMoved_0,
            ) == spec_ship_coords_after_move(
                tbl_val(old(self).coord_entries(), e->EnemyShipMoved_0),
                e->EnemyShipMoved_1,
            ) && final(self).enemy_entries() == old(self).enemy_entries(),
            e is EnemyShipMoved && tbl_has(old(self).enemy_entries(), e->EnemyShipMoved_0) && (
            e->EnemyShipMoved_1 is Down && tbl_val(
                old(self).coord_entries(),
                e->EnemyShipMoved_0,
            ).1 == GRID_HEIGHT - 1) ==> !tbl_has(
                final(self).enemy_entries(),
                e->EnemyShipMoved_0,
            ),
            e is PlayerBulletMoved && tbl_has(old(self).bullet_entries(), e->PlayerBulletMoved_0)
                && !(e->PlayerBulletMoved_1 is Up && tbl_val(
                old(self).coord_entries(),
                e->PlayerBulletMoved_0,
            ).1 == 0) ==> tbl_val(final(self).coord_entries(), e->PlayerBulletMoved_0)
                == spec_ship_coords_after_move(
                tbl_val(old(self).coord_entries(), e->PlayerBulletMoved_0),
                e->PlayerBulletMoved_1,
            ) && final(self).bullet_entries() == old(self).bullet_entries(),
            e is PlayerBulletMoved && tbl_has(old(self).bullet_entries(), e->PlayerBulletMoved_0)
                && (e->PlayerBulletMoved_1 is Up && tbl_val(
                old(self).coord_entries(),
                e->PlayerBulletMoved_0,
            ).1 == 0) ==> !tbl_has(final(self).bullet_entries(), e->PlayerBulletMoved_0),
    {
        match e {
            WorldEvent::EnemyShipsMoved => {
                self.run_enemy_ships_moved();
            },
            WorldEvent::PlayerBulletsMoved => {
                self.run_player_bullets_moved();
            },
            WorldEvent::EnemyShipMoved(k, d) => {
                self.cascade_enemy_ship_moved(k, d);
            },
            WorldEvent::PlayerBulletMoved(k, d) => {
                self.cascade_player_bullet_moved(k, d);
            },
            WorldEvent::EnemyShipRemoved(k) => {
                self.remove_enemy(k);
            },
            WorldEvent::PlayerBulletRemoved(k) => {
                self.remove_bullet(k);
            },
            WorldEvent::PlayerShipMoved(d) => {
                self.player_ship_moved(d);
            },
            WorldEvent::PlayerShipDied(c) => {
                self.player_ship_died(c);
            },
            WorldEvent::PlayerBulletFired(c) => {
                self.player_bullet_fired_from(c);
            },
        }
    }

    pub fn player_ship_count(&self) -> (n: usize)
        ensures
            n == self.ship_entries().len(),
    {
        self.player_ships.len()
    }

    pub fn player_bullet_count(&self) -> (n: usize)
        ensures
            n == self.bullet_entries().len(),
    {
        self.player_bullets.len()
    }

    pub fn enemy_ship_count(&self) -> (n: usize)
        ensures
            n == self.enemy_entries().len(),
    {
        self.enemy_ships.len()
    }

    /// The position of the entity under the given handle, if it is live.
    pub fn coords_of(&self, key: EntityKey) -> (r: Option<Coords>)
        requires
            self.wf(),
        ensures
            (match r {
                Option::Some(c) => tbl_has(self.coord_entries(), key) && c == tbl_val(
                    self.coord_entries(),
                    key,
                ),
                Option::None => !tbl_has(self.coord_entries(), key),
            }),
    {
        self.coords.get(key)
    }

}

/// Movement clamping (ship variant): a move from an on-grid position lands
/// on the grid, in every direction.
pub proof fn lemma_ship_move_stays_in_bounds(c: Coords, dir: Direction)
    requires
        in_bounds(c),
    ensures
        in_bounds(spec_ship_coords_after_move(c, dir)),
{
}

/// Position bounds: in a well-formed shooter world, every stored position
/// lies on the grid.
pub proof fn lemma_positions_in_bounds(w: World, k: EntityKey)
    requires
        w.wf(),
        tbl_has(w.coord_entries(), k),
    ensures
        in_bounds(tbl_val(w.coord_entries(), k)),
{
}


} // verus!
