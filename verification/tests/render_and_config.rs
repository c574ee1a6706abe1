use sweet_turnips::bitter::World;
use sweet_turnips::config::{
    example_game_config, world_from_config, FarmConfig, VillagerConfig, WorldConfig,
};
use sweet_turnips::render::{invert_rgba, sprite_grid_from_world, SpriteGrid, SpriteType};
use sweet_turnips::{AppConfig, Cursor};
use sweet_turnips::bitter::Direction;

#[test]
fn example_config_lists_the_starting_entities() {
    let c = example_game_config();
    assert_eq!(
        c.world.starting_villagers,
        vec![VillagerConfig { x: 4, y: 4 }, VillagerConfig { x: 4, y: 5 }]
    );
    assert_eq!(
        c.world.starting_farms,
        vec![
            FarmConfig { x: 5, y: 4 },
            FarmConfig { x: 5, y: 5 },
            FarmConfig { x: 5, y: 6 },
        ]
    );
}

#[test]
fn world_from_config_places_exactly_the_configured_entities() {
    let w = world_from_config(&example_game_config().world);
    assert_eq!(w.villager_count(), 2);
    assert_eq!(w.farm_count(), 3);
    assert!(w.villager_key_at(4, 4).is_some());
    assert!(w.villager_key_at(4, 5).is_some());
    assert!(w.villager_key_at(3, 3).is_none());
}

#[test]
fn sprite_grid_layers_world_entities_over_the_border() {
    let w = World::new();
    let g = sprite_grid_from_world(&w, None);
    // border ring
    assert_eq!(g.sprite_type_at(0, 0), SpriteType::BigCircle);
    assert_eq!(g.sprite_type_at(7, 3), SpriteType::BigCircle);
    assert_eq!(g.sprite_type_at(3, 7), SpriteType::BigCircle);
    // villagers carry their satiation level
    assert_eq!(g.sprite_type_at(4, 4), SpriteType::Lizard(4));
    assert_eq!(g.sprite_type_at(4, 5), SpriteType::Lizard(4));
    // farms
    assert_eq!(g.sprite_type_at(5, 4), SpriteType::Turnip);
    assert_eq!(g.sprite_type_at(5, 5), SpriteType::Turnip);
    assert_eq!(g.sprite_type_at(5, 6), SpriteType::Turnip);
    // empty interior
    assert_eq!(g.sprite_type_at(2, 2), SpriteType::Empty);
}

#[test]
fn sprite_grid_shows_the_selected_villagers_satiation_meter() {
    let w = World::new();
    let vk = w.villager_key_at(4, 4).unwrap();
    let g = sprite_grid_from_world(&w, Some(vk));
    // four satiation points: turnips in columns 1 through 4 of the last row
    for x in 1..=4 {
        assert_eq!(g.sprite_type_at(x, 7), SpriteType::Turnip);
    }
    assert_eq!(g.sprite_type_at(5, 7), SpriteType::BigCircle);
    assert_eq!(g.sprite_type_at(6, 7), SpriteType::BigCircle);
}

#[test]
fn cursor_overlays_a_grid_cell() {
    let mut g = SpriteGrid::new();
    assert_eq!(g.sprite_type_at(3, 3), SpriteType::Empty);
    g.cursor_at(3, 3);
    assert_eq!(g.sprite_type_at(3, 3), SpriteType::Cursor);
    assert_eq!(g.sprite_type_at(3, 4), SpriteType::Empty);
}

#[test]
fn dead_villagers_leave_skulls_on_the_grid() {
    let mut w = world_from_config(&WorldConfig {
        starting_villagers: vec![VillagerConfig { x: 4, y: 4 }],
        starting_farms: vec![],
    });
    for _ in 0..25 {
        w.tick();
    }
    assert_eq!(w.death_marker_count(), 1);
    let g = sprite_grid_from_world(&w, None);
    let mut skulls = 0;
    for x in 0..8 {
        for y in 0..8 {
            if g.sprite_type_at(x, y) == SpriteType::Skull {
                skulls += 1;
            }
        }
    }
    assert_eq!(skulls, 1);
}

#[test]
fn invert_rgba_flips_colour_bytes_and_rewrites_alpha() {
    let bytes = vec![0u8, 255, 7, 200, 255, 0, 0, 255];
    let inverted = invert_rgba(&bytes);
    // colour bytes flip between black and white; every fourth byte becomes
    // transparent exactly when the preceding blue byte was white
    assert_eq!(inverted, vec![255u8, 0, 0, 255, 0, 255, 255, 255]);
}

#[test]
fn invert_rgba_keeps_the_length() {
    let bytes = vec![1u8; 256];
    assert_eq!(invert_rgba(&bytes).len(), 256);
}

#[test]
fn cursor_moves_with_villager_clamping() {
    let c = Cursor::new();
    assert_eq!((c.x, c.y), (2, 2));
    let c = c.moved(Direction::Up);
    assert_eq!((c.x, c.y), (2, 1));
    let c = c.moved(Direction::Up);
    assert_eq!((c.x, c.y), (2, 1));
    let c = c.moved(Direction::Right);
    assert_eq!((c.x, c.y), (3, 1));
}

#[test]
fn app_config_builders_replace_one_field_at_a_time() {
    let c = AppConfig::new((8, 8));
    assert_eq!(c.game_name_str(), "A Sweet Turnips Game");
    assert_eq!(c.author_name_str(), "Your Name Goes Here");
    assert_eq!(c.dims_pair(), (8, 8));

    let c = c.game_name("bitter-turnips").author_name("ggez");
    assert_eq!(c.game_name_str(), "bitter-turnips");
    assert_eq!(c.author_name_str(), "ggez");
    assert_eq!(c.dims_pair(), (8, 8));

    let c = c.grid_dimensions((10, 12));
    assert_eq!(c.dims_pair(), (10, 12));
    assert_eq!(c.game_name_str(), "bitter-turnips");
}
