//! Read-only rendering support for the villager/farm game: builds a
//! per-cell "what symbol goes here" grid from the world state every frame.
//! The host's renderer turns each sprite kind into an actual sprite; this
//! module only decides which kind each cell shows. A lizard cell carries
//! the shown villager's satiation level, from which the host derives its
//! tint.

use vstd::prelude::*;

use crate::bitter::{spec_farm_at, spec_marker_at, spec_villager_present, spec_villager_sat_at,
    World, GRID_HEIGHT, GRID_WIDTH};
use crate::store::{tbl_has, tbl_val, EntityKey};

verus! {

/// What one grid cell shows.
#[derive(Copy, Clone, PartialEq, Eq, Structural, Debug)]
pub enum SpriteType {
    Empty,
    BigCircle,
    Skull,
    Cursor,
    Turnip,
    Lizard(u8),
}

/// Row-major index of cell `(x, y)`.
pub open spec fn spec_grid_index(x: u8, y: u8) -> int {
    y * GRID_WIDTH + x
}

/// The satiation meter occupies the bottom row while a live villager is
/// selected: one turnip per satiation point, drawn from column 1 on.
pub open spec fn spec_meter_cell(w: World, selected: Option<EntityKey>, x: u8, y: u8) -> bool {
    match selected {
        Option::Some(k) => tbl_has(w.villager_entries(), k) && tbl_has(w.satiation_entries(), k)
            && y == GRID_HEIGHT - 1 && 1 <= x < GRID_WIDTH - 1 && tbl_val(
            w.satiation_entries(),
            k,
        ) >= x,
        Option::None => false,
    }
}

/// What cell `(x, y)` must show for world `w`: a skull over any death
/// marker; else the satiation meter's turnips; else a lizard tinted by the
/// satiation of a villager standing there; else a turnip over a farm; else
/// the border circles on the outer ring; else nothing.
pub open spec fn spec_cell(
    w: World,
    selected: Option<EntityKey>,
    x: u8,
    y: u8,
    t: SpriteType,
) -> bool {
    if spec_marker_at(w.marker_entries(), w.coord_entries(), (x, y)) {
        t == SpriteType::Skull
    } else if spec_meter_cell(w, selected, x, y) {
        t == SpriteType::Turnip
    } else if spec_villager_present(w.villager_entries(), w.coord_entries(), (x, y)) {
        exists|s: u8|
            t == SpriteType::Lizard(s) && #[trigger] spec_villager_sat_at(
                w.villager_entries(),
                w.coord_entries(),
                w.satiation_entries(),
                (x, y),
                s,
            )
    } else if spec_farm_at(w.farm_entries(), w.coord_entries(), (x, y)) {
        t == SpriteType::Turnip
    } else if x == 0 || x == GRID_WIDTH - 1 || y == 0 || y == GRID_HEIGHT - 1 {
        t == SpriteType::BigCircle
    } else {
        t == SpriteType::Empty
    }
}

/// A full grid of sprite kinds, one per cell, in row-major order.
pub struct SpriteGrid {
    sprite_types: Vec<SpriteType>,
}

impl View for SpriteGrid {
    type V = Seq<SpriteType>;

    closed spec fn view(&self) -> Seq<SpriteType> {
        self.sprite_types@
    }
}

impl SpriteGrid {
    pub open spec fn wf(self) -> bool {
        self@.len() == GRID_WIDTH * GRID_HEIGHT
    }

    /// An all-empty grid.
    pub fn new() -> (g: SpriteGrid)
        ensures
            g.wf(),
            forall|i: int| 0 <= i < g@.len() ==> g@[i] == SpriteType::Empty,
    {
        let mut sprite_types: Vec<SpriteType> = Vec::new();
        let mut i: usize = 0;
        while i < 64
            invariant
                sprite_types@.len() == i,
                i <= 64,
                forall|j: int| 0 <= j < i ==> sprite_types@[j] == SpriteType::Empty,
            decreases 64 - i,
        {
            sprite_types.push(SpriteType::Empty);
            i = i + 1;
        }
        SpriteGrid { sprite_types }
    }

    fn set_at(&mut self, x: u8, y: u8, t: SpriteType)
        requires
            old(self).wf(),
            x < GRID_WIDTH,
            y < GRID_HEIGHT,
        ensures
            final(self).wf(),
            final(self)@ == old(self)@.update(spec_grid_index(x, y), t),
    {
        let index = (y as usize) * 8 + (x as usize);
        self.sprite_types[index] = t;
    }

    pub fn big_circle_at(&mut self, x: u8, y: u8)
        requires
            old(self).wf(),
            x < GRID_WIDTH,
            y < GRID_HEIGHT,
        ensures
            final(self).wf(),
            final(self)@ == old(self)@.update(spec_grid_index(x, y), SpriteType::BigCircle),
    {
        self.set_at(x, y, SpriteType::BigCircle);
    }

    pub fn lizard_at(&mut self, x: u8, y: u8, satiation: u8)
        requires
            old(self).wf(),
            x < GRID_WIDTH,
            y < GRID_HEIGHT,
        ensures
            final(self).wf(),
            final(self)@ == old(self)@.update(
                spec_grid_index(x, y),
                SpriteType::Lizard(satiation),
            ),
    {
        self.set_at(x, y, SpriteType::Lizard(satiation));
    }

    pub fn turnip_at(&mut self, x: u8, y: u8)
        requires
            old(self).wf(),
            x < GRID_WIDTH,
            y < GRID_HEIGHT,
        ensures
            final(self).wf(),
            final(self)@ == old(self)@.update(spec_grid_index(x, y), SpriteType::Turnip),
    {
        self.set_at(x, y, SpriteType::Turnip);
    }

    pub fn skull_at(&mut self, x: u8, y: u8)
        requires
            old(self).wf(),
            x < GRID_WIDTH,
            y < GRID_HEIGHT,
        ensures
            final(self).wf(),
            final(self)@ == old(self)@.update(spec_grid_index(x, y), SpriteType::Skull),
    {
        self.set_at(x, y, SpriteType::Skull);
    }

    pub fn cursor_at(&mut self, x: u8, y: u8)
        requires
            old(self).wf(),
            x < GRID_WIDTH,
            y < GRID_HEIGHT,
        ensures
            final(self).wf(),
            final(self)@ == old(self)@.update(spec_grid_index(x, y), SpriteType::Cursor),
    {
        self.set_at(x, y, SpriteType::Cursor);
    }

    pub fn sprite_type_at(&self, x: u8, y: u8) -> (t: SpriteType)
        requires
            self.wf(),
            x < GRID_WIDTH,
            y < GRID_HEIGHT,
        ensures
            t == self@[spec_grid_index(x, y)],
    {
        let index = (y as usize) * 8 + (x as usize);
        self.sprite_types[index]
    }
}

/// Builds the per-cell sprite grid for the given world: skulls over death
/// markers, the satiation meter of the selected villager along the bottom
/// row, lizards over villagers, turnips over farms, and border circles
/// around the outer ring.
pub fn sprite_grid_from_world(world: &World, selected_villager_key: Option<EntityKey>) -> (g:
    SpriteGrid)
    requires
        world.wf(),
    ensures
        g.wf(),
        forall|x: u8, y: u8|
            x < GRID_WIDTH && y < GRID_HEIGHT ==> spec_cell(
                *world,
                selected_villager_key,
                x,
                y,
                #[trigger] g@[spec_grid_index(x, y)],
            ),
{
    let mut g = SpriteGrid::new();
    let selected_satiation: Option<u8> = match selected_villager_key {
        Some(k) => {
            match world.villager(k) {
                Some(_) => world.satiation_of(k),
                None => None,
            }
        },
        None => None,
    };
    let mut y: u8 = 0;
    while y < GRID_HEIGHT
        invariant
            world.wf(),
            g.wf(),
            y <= GRID_HEIGHT,
            (match selected_satiation {
                Option::Some(s) => (match selected_villager_key {
                    Option::Some(k) => tbl_has(world.villager_entries(), k) && tbl_has(
                        world.satiation_entries(),
                        k,
                    ) && tbl_val(world.satiation_entries(), k) == s,
                    Option::None => false,
                }),
                Option::None => (match selected_villager_key {
                    Option::Some(k) => !tbl_has(world.villager_entries(), k) || !tbl_has(
                        world.satiation_entries(),
                        k,
                    ),
                    Option::None => true,
                }),
            }),
            forall|x2: u8, y2: u8|
                x2 < GRID_WIDTH && y2 < y ==> spec_cell(
                    *world,
                    selected_villager_key,
                    x2,
                    y2,
                    #[trigger] g@[spec_grid_index(x2, y2)],
                ),
        decreases GRID_HEIGHT - y,
    {
        let mut x: u8 = 0;
        while x < GRID_WIDTH
            invariant
                world.wf(),
                g.wf(),
                y < GRID_HEIGHT,
                x <= GRID_WIDTH,
                (match selected_satiation {
                    Option::Some(s) => (match selected_villager_key {
                        Option::Some(k) => tbl_has(world.villager_entries(), k) && tbl_has(
                            world.satiation_entries(),
                            k,
                        ) && tbl_val(world.satiation_entries(), k) == s,
                        Option::None => false,
                    }),
                    Option::None => (match selected_villager_key {
                        Option::Some(k) => !tbl_has(world.villager_entries(), k) || !tbl_has(
                            world.satiation_entries(),
                            k,
                        ),
                        Option::None => true,
                    }),
                }),
                forall|x2: u8, y2: u8|
                    x2 < GRID_WIDTH && y2 < y ==> spec_cell(
                        *world,
                        selected_villager_key,
                        x2,
                        y2,
                        #[trigger] g@[spec_grid_index(x2, y2)],
                    ),
                forall|x2: u8|
                    x2 < x ==> spec_cell(
                        *world,
                        selected_villager_key,
                        x2,
                        y,
                        #[trigger] g@[spec_grid_index(x2, y)],
                    ),
            decreases GRID_WIDTH - x,
        {
            let meter_here = match selected_satiation {
                Some(s) => y == GRID_HEIGHT - 1 && x >= 1 && x < GRID_WIDTH - 1 && s >= x,
                None => false,
            };
            let t: SpriteType = if world.death_marker_at((x, y)) {
                SpriteType::Skull
            } else if meter_here {
                SpriteType::Turnip
            } else {
                match world.villager_satiation_at((x, y)) {
                    Some(s) => SpriteType::Lizard(s),
                    None => {
                        if world.farm_at((x, y)) {
                            SpriteType::Turnip
                        } else if x == 0 || x == GRID_WIDTH - 1 || y == 0 || y == GRID_HEIGHT
                            - 1 {
                            SpriteType::BigCircle
                        } else {
                            SpriteType::Empty
                        }
                    },
                }
            };
            let ghost g0 = g@;
            g.set_at(x, y, t);
            proof {
                assert(spec_cell(*world, selected_villager_key, x, y, t));
                assert(g@[spec_grid_index(x, y)] == t);
                assert forall|x2: u8, y2: u8|
                    x2 < GRID_WIDTH && y2 < y implies spec_cell(
                    *world,
                    selected_villager_key,
                    x2,
                    y2,
                    #[trigger] g@[spec_grid_index(x2, y2)],
                ) by {
                    assert(spec_grid_index(x2, y2) != spec_grid_index(x, y));
                    assert(g@[spec_grid_index(x2, y2)] == g0[spec_grid_index(x2, y2)]);
                }
                assert forall|x2: u8|
                    x2 < x implies spec_cell(
                    *world,
                    selected_villager_key,
                    x2,
                    y,
                    #[trigger] g@[spec_grid_index(x2, y)],
                ) by {
                    assert(spec_grid_index(x2, y) != spec_grid_index(x, y));
                    assert(g@[spec_grid_index(x2, y)] == g0[spec_grid_index(x2, y)]);
                }
            }
            x = x + 1;
        }
        y = y + 1;
    }
    g
}

/// Bundles a world with the handle of the currently selected villager and
/// renders the whole sprite grid on demand.
pub struct WorldRenderer {
    pub world: World,
    pub selected_villager_key: Option<EntityKey>,
}

impl WorldRenderer {
    pub fn render_grid(&self) -> (g: SpriteGrid)
        requires
            self.world.wf(),
        ensures
            g.wf(),
            forall|x: u8, y: u8|
                x < GRID_WIDTH && y < GRID_HEIGHT ==> spec_cell(
                    self.world,
                    self.selected_villager_key,
                    x,
                    y,
                    #[trigger] g@[spec_grid_index(x, y)],
                ),
    {
        sprite_grid_from_world(&self.world, self.selected_villager_key)
    }
}

/// One inverted pixel byte: alpha channel bytes (every fourth) become
/// opaque unless the preceding blue byte was white; colour bytes flip
/// between black and white.
pub open spec fn spec_inverted_byte(bytes: Seq<u8>, i: int) -> u8 {
    if (i + 1) % 4 == 0 {
        if bytes[i - 1] == 255 {
            0
        } else {
            255
        }
    } else {
        if bytes[i] == 0 {
            255
        } else {
            0
        }
    }
}

/// Inverts an 8-bit RGBA image byte-for-byte: sprite sources are drawn
/// dark-on-light, the screen wants light-on-dark with white as transparent.
pub fn invert_rgba(bytes: &Vec<u8>) -> (r: Vec<u8>)
    ensures
        r@.len() == bytes@.len(),
        forall|i: int| 0 <= i < r@.len() ==> r@[i] == spec_inverted_byte(bytes@, i),
{
    let mut r: Vec<u8> = Vec::new();
    let mut i: usize = 0;
    while i < bytes.len()
        invariant
            r@.len() == i,
            i <= bytes@.len(),
            forall|j: int| 0 <= j < i ==> r@[j] == spec_inverted_byte(bytes@, j),
        decreases bytes@.len() - i,
    {
        let b: u8 = if (i + 1) % 4 == 0 {
            if bytes[i - 1] == 255 {
                0
            } else {
                255
            }
        } else {
            if bytes[i] == 0 {
                255
            } else {
                0
            }
        };
        r.push(b);
        i = i + 1;
    }
    r
}

} // verus!
