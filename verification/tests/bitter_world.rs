use sweet_turnips::bitter::{
    can_move_in_dir, coords_after_move, Direction, WorldEvent, World, GRID_HEIGHT, GRID_WIDTH,
};
use sweet_turnips::config::{world_from_config, FarmConfig, VillagerConfig, WorldConfig};

fn one_villager_one_farm() -> WorldConfig {
    WorldConfig {
        starting_villagers: vec![VillagerConfig { x: 4, y: 4 }],
        starting_farms: vec![FarmConfig { x: 5, y: 4 }],
    }
}

#[test]
fn new_world_has_example_entities() {
    let w = World::new();
    assert_eq!(w.villager_count(), 2);
    assert_eq!(w.farm_count(), 3);
    assert_eq!(w.death_marker_count(), 0);
    assert!(w.villager_key_at(4, 4).is_some());
    assert!(w.villager_key_at(4, 5).is_some());
    assert!(w.villager_key_at(5, 4).is_none());
}

#[test]
fn empty_world_tick_is_idempotent() {
    let mut w = world_from_config(&WorldConfig {
        starting_villagers: vec![],
        starting_farms: vec![],
    });
    assert_eq!(w.villager_count(), 0);
    assert_eq!(w.farm_count(), 0);
    for _ in 0..5 {
        w.tick();
    }
    assert_eq!(w.villager_count(), 0);
    assert_eq!(w.farm_count(), 0);
    assert_eq!(w.death_marker_count(), 0);
}

#[test]
fn movement_is_clamped_to_the_grid_interior() {
    // blocked at the inset border on every edge
    assert_eq!(coords_after_move((1, 1), Direction::Up), (1, 1));
    assert_eq!(coords_after_move((1, 1), Direction::Left), (1, 1));
    assert_eq!(
        coords_after_move((GRID_WIDTH - 2, GRID_HEIGHT - 2), Direction::Down),
        (GRID_WIDTH - 2, GRID_HEIGHT - 2)
    );
    assert_eq!(
        coords_after_move((GRID_WIDTH - 2, GRID_HEIGHT - 2), Direction::Right),
        (GRID_WIDTH - 2, GRID_HEIGHT - 2)
    );
    // ordinary interior moves
    assert_eq!(coords_after_move((4, 4), Direction::Up), (4, 3));
    assert_eq!(coords_after_move((4, 4), Direction::Down), (4, 5));
    assert_eq!(coords_after_move((4, 4), Direction::Left), (3, 4));
    assert_eq!(coords_after_move((4, 4), Direction::Right), (5, 4));
    assert!(!can_move_in_dir((1, 1), Direction::Up));
    assert!(can_move_in_dir((1, 2), Direction::Up));
}

#[test]
fn every_villager_move_lands_on_the_grid() {
    for x in 0..GRID_WIDTH {
        for y in 0..GRID_HEIGHT {
            for dir in [
                Direction::Up,
                Direction::Down,
                Direction::Left,
                Direction::Right,
            ] {
                let (nx, ny) = coords_after_move((x, y), dir);
                assert!(nx < GRID_WIDTH && ny < GRID_HEIGHT);
            }
        }
    }
}

#[test]
fn harvest_feeds_the_villager_and_consumes_the_farm() {
    let mut w = world_from_config(&one_villager_one_farm());
    let vk = w.villager_key_at(4, 4).expect("villager at (4, 4)");
    assert_eq!(w.satiation_of(vk), Some(4));
    assert_eq!(w.farm_count(), 1);

    w.dispatch_event(WorldEvent::VillagerHarvested(vk));

    assert_eq!(w.farm_count(), 0);
    assert_eq!(w.satiation_of(vk), Some(5));
    assert_eq!(w.villager(vk).expect("villager lives").last_ate, 0);
}

#[test]
fn satiation_is_clamped_at_its_upper_bound() {
    let mut w = world_from_config(&WorldConfig {
        starting_villagers: vec![VillagerConfig { x: 4, y: 4 }],
        starting_farms: vec![
            FarmConfig { x: 5, y: 4 },
            FarmConfig { x: 5, y: 5 },
            FarmConfig { x: 5, y: 6 },
        ],
    });
    let vk = w.villager_key_at(4, 4).unwrap();
    w.dispatch_event(WorldEvent::VillagerHarvested(vk));
    w.dispatch_event(WorldEvent::VillagerHarvested(vk));
    w.dispatch_event(WorldEvent::VillagerHarvested(vk));
    assert_eq!(w.farm_count(), 0);
    assert_eq!(w.satiation_of(vk), Some(5));
}

#[test]
fn hunger_decrements_satiation_and_feeds_from_a_farm() {
    let mut w = world_from_config(&one_villager_one_farm());
    let vk = w.villager_key_at(4, 4).unwrap();
    for _ in 0..5 {
        w.tick();
    }
    // at tick 5 the villager hungers, spends one satiation point, and eats
    let v = w.villager(vk).expect("villager lives");
    assert_eq!(v.last_ate, 5);
    assert_eq!(w.satiation_of(vk), Some(4));
    // one farm was harvested; one grew at tick 4
    assert_eq!(w.farm_count(), 1);
}

#[test]
fn starving_villager_dies_and_leaves_one_marker_for_one_tick() {
    let mut w = world_from_config(&WorldConfig {
        starting_villagers: vec![VillagerConfig { x: 4, y: 4 }],
        starting_farms: vec![],
    });
    let vk = w.villager_key_at(4, 4).unwrap();
    // satiation falls by one every fifth tick: 4, 3, 2, 1, 0, then death
    for _ in 0..24 {
        w.tick();
    }
    assert_eq!(w.villager_count(), 1);
    assert_eq!(w.satiation_of(vk), Some(0));

    w.tick();
    assert_eq!(w.villager_count(), 0);
    // the graves were cleared before the death, so the marker survives
    // this tick: the stage stack runs GravesCleared first and the hunger
    // cascade after it
    assert_eq!(w.death_marker_count(), 1);

    w.tick();
    assert_eq!(w.death_marker_count(), 0);
}

#[test]
fn farm_growth_picks_a_free_neighbouring_cell() {
    let mut w = world_from_config(&WorldConfig {
        starting_villagers: vec![],
        starting_farms: vec![FarmConfig { x: 1, y: 1 }],
    });
    for _ in 0..4 {
        w.tick();
    }
    // the farm at (1, 1) can only grow down or right
    assert_eq!(w.farm_count(), 2);
    let mut cells = vec![];
    for i in 0..w.farm_count() {
        let (k, _) = w.farm_entry_at(i);
        cells.push(w.coords_of(k).unwrap());
    }
    assert!(cells.contains(&(1, 1)));
    let new_cell = cells.into_iter().find(|c| *c != (1, 1)).unwrap();
    assert!(new_cell == (1, 2) || new_cell == (2, 1));
}

#[test]
fn grown_farms_never_stack_on_one_cell() {
    let mut w = world_from_config(&WorldConfig {
        starting_villagers: vec![],
        starting_farms: vec![
            FarmConfig { x: 2, y: 2 },
            FarmConfig { x: 5, y: 5 },
            FarmConfig { x: 2, y: 5 },
        ],
    });
    for _ in 0..12 {
        w.tick();
    }
    assert!(w.farm_count() > 3);
    let mut cells = vec![];
    for i in 0..w.farm_count() {
        let (k, _) = w.farm_entry_at(i);
        cells.push(w.coords_of(k).unwrap());
    }
    for a in 0..cells.len() {
        for b in (a + 1)..cells.len() {
            assert_ne!(cells[a], cells[b]);
        }
    }
}

#[test]
fn egg_spawn_hatches_a_villager_at_the_cursor_cell() {
    let mut w = world_from_config(&WorldConfig {
        starting_villagers: vec![],
        starting_farms: vec![],
    });
    w.request_egg_spawn((3, 3));
    assert_eq!(w.villager_count(), 1);
    let vk = w.villager_key_at(3, 3).expect("hatched villager");
    assert_eq!(w.satiation_of(vk), Some(4));
}

#[test]
fn egg_spawn_off_the_grid_is_ignored() {
    let mut w = world_from_config(&WorldConfig {
        starting_villagers: vec![],
        starting_farms: vec![],
    });
    w.request_egg_spawn((200, 3));
    w.request_egg_spawn((3, 200));
    assert_eq!(w.villager_count(), 0);
}

#[test]
fn villagers_stay_on_the_grid_across_many_ticks() {
    let mut w = World::new();
    for _ in 0..30 {
        w.tick();
        for i in 0..w.villager_count() {
            let (k, _) = w.villager_entry_at(i);
            let (x, y) = w.coords_of(k).unwrap();
            assert!(x < GRID_WIDTH && y < GRID_HEIGHT);
        }
    }
}

#[test]
fn growth_event_before_the_patience_runs_out_is_a_no_op() {
    let mut w = world_from_config(&WorldConfig {
        starting_villagers: vec![],
        starting_farms: vec![FarmConfig { x: 4, y: 4 }],
    });
    let (fk, farm) = w.farm_entry_at(0);
    assert_eq!(farm.last_grew, 0);
    w.dispatch_event(WorldEvent::FarmGrew(fk));
    assert_eq!(w.farm_count(), 1);
    assert_eq!(w.farm_entry_at(0).1.last_grew, 0);
}

#[test]
fn growth_resets_the_farm_clock() {
    let mut w = world_from_config(&WorldConfig {
        starting_villagers: vec![],
        starting_farms: vec![FarmConfig { x: 4, y: 4 }],
    });
    for _ in 0..4 {
        w.tick();
    }
    // the farm grew at tick 4, so its clock reads 4
    assert_eq!(w.farm_entry_at(0).1.last_grew, 4);
}

#[test]
fn death_event_removes_the_villager_and_leaves_one_marker() {
    let mut w = world_from_config(&WorldConfig {
        starting_villagers: vec![VillagerConfig { x: 4, y: 4 }],
        starting_farms: vec![],
    });
    let vk = w.villager_key_at(4, 4).unwrap();
    w.dispatch_event(WorldEvent::VillagerDied(vk));
    assert_eq!(w.villager_count(), 0);
    assert_eq!(w.death_marker_count(), 1);
}

#[test]
fn no_villager_is_overdue_after_a_tick() {
    let mut w = World::new();
    let mut now: usize = 0;
    for _ in 0..20 {
        w.tick();
        now += 1;
        for i in 0..w.villager_count() {
            let (_, v) = w.villager_entry_at(i);
            assert!(now - v.last_ate <= 4);
        }
    }
}
