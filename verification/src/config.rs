//! Starting-world configuration: the list of villager and farm positions
//! consumed once at world construction. Reading and writing the
//! configuration file is the host application's concern; this module owns
//! the configured values and the construction of a world from them.

use vstd::prelude::*;

use crate::bitter::{World, GRID_HEIGHT, GRID_WIDTH};
use crate::store::{tbl_has, tbl_val};

verus! {

/// Starting position of one villager.
#[derive(Copy, Clone, PartialEq, Eq, Structural, Debug)]
pub struct VillagerConfig {
    pub x: u8,
    pub y: u8,
}

/// Starting position of one farm.
#[derive(Copy, Clone, PartialEq, Eq, Structural, Debug)]
pub struct FarmConfig {
    pub x: u8,
    pub y: u8,
}

/// The configured starting entity set of a world.
#[derive(Clone, PartialEq, Eq, Debug)]
pub struct WorldConfig {
    pub starting_villagers: Vec<VillagerConfig>,
    pub starting_farms: Vec<FarmConfig>,
}

/// Configuration of the villager/farm game as a whole.
#[derive(Clone, PartialEq, Eq, Debug)]
pub struct BitterGameConfig {
    pub world: WorldConfig,
}

/// Every configured position lies on the grid.
pub open spec fn spec_config_in_bounds(c: WorldConfig) -> bool {
    &&& forall|i: int|
        0 <= i < c.starting_villagers@.len() ==> (#[trigger] c.starting_villagers@[i]).x
            < GRID_WIDTH && c.starting_villagers@[i].y < GRID_HEIGHT
    &&& forall|i: int|
        0 <= i < c.starting_farms@.len() ==> (#[trigger] c.starting_farms@[i]).x < GRID_WIDTH
            && c.starting_farms@[i].y < GRID_HEIGHT
}

/// The example configuration written out on first run: two villagers and
/// three farms.
pub fn example_game_config() -> (c: BitterGameConfig)
    ensures
        c.world.starting_villagers@.len() == 2,
        c.world.starting_villagers@[0] == (VillagerConfig { x: 4, y: 4 }),
        c.world.starting_villagers@[1] == (VillagerConfig { x: 4, y: 5 }),
        c.world.starting_farms@.len() == 3,
        c.world.starting_farms@[0] == (FarmConfig { x: 5, y: 4 }),
        c.world.starting_farms@[1] == (FarmConfig { x: 5, y: 5 }),
        c.world.starting_farms@[2] == (FarmConfig { x: 5, y: 6 }),
        spec_config_in_bounds(c.world),
{
    let mut starting_villagers: Vec<VillagerConfig> = Vec::new();
    starting_villagers.push(VillagerConfig { x: 4, y: 4 });
    starting_villagers.push(VillagerConfig { x: 4, y: 5 });
    let mut starting_farms: Vec<FarmConfig> = Vec::new();
    starting_farms.push(FarmConfig { x: 5, y: 4 });
    starting_farms.push(FarmConfig { x: 5, y: 5 });
    starting_farms.push(FarmConfig { x: 5, y: 6 });
    BitterGameConfig { world: WorldConfig { starting_villagers, starting_farms } }
}

/// Builds a world holding exactly the configured villagers (each with full
/// starting satiation, fed at tick 0) and the configured farms, at their
/// configured positions, and nothing else.
pub fn world_from_config(config: &WorldConfig) -> (w: World)
    requires
        spec_config_in_bounds(*config),
    ensures
        w.wf(),
        w.now() == 0,
        w.villager_entries().len() == config.starting_villagers@.len(),
        w.farm_entries().len() == config.starting_farms@.len(),
        w.marker_entries().len() == 0,
        forall|j: int|
            0 <= j < config.starting_villagers@.len() ==> tbl_val(
                w.coord_entries(),
                (#[trigger] w.villager_entries()[j]).0,
            ) == (config.starting_villagers@[j].x, config.starting_villagers@[j].y),
        forall|j: int|
            0 <= j < config.starting_villagers@.len() ==> tbl_val(
                w.satiation_entries(),
                (#[trigger] w.villager_entries()[j]).0,
            ) == 4u8 && w.villager_entries()[j].1.last_ate == 0,
        forall|j: int|
            0 <= j < config.starting_farms@.len() ==> tbl_val(
                w.coord_entries(),
                (#[trigger] w.farm_entries()[j]).0,
            ) == (config.starting_farms@[j].x, config.starting_farms@[j].y),
{
    let mut w = World::empty();
    let mut i: usize = 0;
    while i < config.starting_villagers.len()
        invariant
            w.wf(),
            w.now() == 0,
            i <= config.starting_villagers@.len(),
            spec_config_in_bounds(*config),
            w.villager_entries().len() == i,
            w.farm_entries().len() == 0,
            w.marker_entries().len() == 0,
            forall|j: int|
                0 <= j < i ==> tbl_has(w.coord_entries(), (#[trigger] w.villager_entries()[j]).0)
                    && tbl_val(w.coord_entries(), w.villager_entries()[j].0) == (
                config.starting_villagers@[j].x,
                config.starting_villagers@[j].y,
            ),
            forall|j: int|
                0 <= j < i ==> tbl_has(
                    w.satiation_entries(),
                    (#[trigger] w.villager_entries()[j]).0,
                ) && tbl_val(w.satiation_entries(), w.villager_entries()[j].0) == 4u8
                    && w.villager_entries()[j].1.last_ate == 0,
        decreases config.starting_villagers@.len() - i,
    {
        let vc = config.starting_villagers[i];
        w.add_villager_at(vc.x, vc.y);
        i = i + 1;
    }
    let mut i: usize = 0;
    while i < config.starting_farms.len()
        invariant
            w.wf(),
            w.now() == 0,
            i <= config.starting_farms@.len(),
            spec_config_in_bounds(*config),
            w.villager_entries().len() == config.starting_villagers@.len(),
            w.farm_entries().len() == i,
            w.marker_entries().len() == 0,
            forall|j: int|
                0 <= j < config.starting_villagers@.len() ==> tbl_has(
                    w.coord_entries(),
                    (#[trigger] w.villager_entries()[j]).0,
                ) && tbl_val(w.coord_entries(), w.villager_entries()[j].0) == (
                config.starting_villagers@[j].x,
                config.starting_villagers@[j].y,
            ),
            forall|j: int|
                0 <= j < config.starting_villagers@.len() ==> tbl_has(
                    w.satiation_entries(),
                    (#[trigger] w.villager_entries()[j]).0,
                ) && tbl_val(w.satiation_entries(), w.villager_entries()[j].0) == 4u8
                    && w.villager_entries()[j].1.last_ate == 0,
            forall|j: int|
                0 <= j < i ==> tbl_has(w.coord_entries(), (#[trigger] w.farm_entries()[j]).0)
                    && tbl_val(w.coord_entries(), w.farm_entries()[j].0) == (
                config.starting_farms@[j].x,
                config.starting_farms@[j].y,
            ),
        decreases config.starting_farms@.len() - i,
    {
        let fc = config.starting_farms[i];
        w.add_farm_at(fc.x, fc.y);
        i = i + 1;
    }
    w
}

} // verus!
