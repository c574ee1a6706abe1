use sweet_turnips::bitter::Direction;
use sweet_turnips::tangy::{ship_coords_after_move, World, WorldEvent};

#[test]
fn enemy_ship_is_removed_exactly_when_it_passes_the_bottom_row() {
    let mut w = World::new();
    w.add_enemy_ship_at((3, 1));
    // six stages take it from row 1 to row 7; the seventh removes it
    for _ in 0..6 {
        w.dispatch_event(WorldEvent::EnemyShipsMoved);
        assert_eq!(w.enemy_ship_count(), 1);
    }
    w.dispatch_event(WorldEvent::EnemyShipsMoved);
    assert_eq!(w.enemy_ship_count(), 0);
    w.dispatch_event(WorldEvent::EnemyShipsMoved);
    assert_eq!(w.enemy_ship_count(), 0);
}

#[test]
fn enemy_ship_descends_one_row_per_stage() {
    let mut w = World::new();
    let ek = w.add_enemy_ship_at((3, 1));
    w.dispatch_event(WorldEvent::EnemyShipsMoved);
    assert_eq!(w.coords_of(ek), Some((3, 2)));
    w.dispatch_event(WorldEvent::EnemyShipsMoved);
    assert_eq!(w.coords_of(ek), Some((3, 3)));
}

#[test]
fn bullet_and_enemy_sharing_a_cell_both_vanish() {
    let mut w = World::new();
    w.add_enemy_ship_at((3, 4));
    w.add_player_ship_at((3, 6));
    w.request_bullets_fired();
    assert_eq!(w.player_bullet_count(), 1);

    // the bullet moves from (3, 5) to (3, 4), onto the enemy ship
    w.tick();

    assert_eq!(w.player_bullet_count(), 0);
    assert_eq!(w.enemy_ship_count(), 0);
    assert_eq!(w.player_ship_count(), 1);
}

#[test]
fn enemy_reaching_the_player_ship_kills_it() {
    let mut w = World::new();
    w.add_player_ship_at((3, 3));
    w.add_enemy_ship_at((3, 1));
    // enemies move down on even ticks: row 2 at tick 2, row 3 at tick 4
    for _ in 0..3 {
        w.tick();
    }
    assert_eq!(w.player_ship_count(), 1);
    w.tick();
    assert_eq!(w.player_ship_count(), 0);
    assert_eq!(w.enemy_ship_count(), 1);
}

#[test]
fn ship_movement_uses_the_asymmetric_bounds() {
    // vertical moves reach the outer rows; horizontal moves are inset
    assert_eq!(ship_coords_after_move((3, 0), Direction::Up), (3, 0));
    assert_eq!(ship_coords_after_move((3, 1), Direction::Up), (3, 0));
    assert_eq!(ship_coords_after_move((3, 7), Direction::Down), (3, 7));
    assert_eq!(ship_coords_after_move((3, 6), Direction::Down), (3, 7));
    assert_eq!(ship_coords_after_move((1, 3), Direction::Left), (1, 3));
    assert_eq!(ship_coords_after_move((2, 3), Direction::Left), (1, 3));
    assert_eq!(ship_coords_after_move((6, 3), Direction::Right), (6, 3));
    assert_eq!(ship_coords_after_move((5, 3), Direction::Right), (6, 3));
}

#[test]
fn move_request_moves_every_player_ship() {
    let mut w = World::new();
    let a = w.add_player_ship_at((3, 5));
    let b = w.add_player_ship_at((5, 5));
    w.request_ship_move(Direction::Left);
    assert_eq!(w.coords_of(a), Some((2, 5)));
    assert_eq!(w.coords_of(b), Some((4, 5)));
}

#[test]
fn shots_from_the_top_rows_spawn_no_bullet() {
    let mut w = World::new();
    w.add_player_ship_at((3, 1));
    w.request_bullets_fired();
    assert_eq!(w.player_bullet_count(), 0);

    let mut w2 = World::new();
    w2.add_player_ship_at((3, 2));
    w2.request_bullets_fired();
    assert_eq!(w2.player_bullet_count(), 1);
}

#[test]
fn bullets_leave_the_grid_past_the_top_row() {
    let mut w = World::new();
    w.add_player_ship_at((3, 2));
    w.request_bullets_fired();
    // the bullet starts at (3, 1): one tick to reach row 0, one to leave
    w.tick();
    assert_eq!(w.player_bullet_count(), 1);
    w.tick();
    assert_eq!(w.player_bullet_count(), 0);
}

#[test]
fn ship_move_event_moves_every_player_ship() {
    let mut w = World::new();
    let a = w.add_player_ship_at((3, 5));
    w.dispatch_event(WorldEvent::PlayerShipMoved(Direction::Up));
    assert_eq!(w.coords_of(a), Some((3, 4)));
}

#[test]
fn bullet_stage_event_moves_each_bullet_one_row_up() {
    let mut w = World::new();
    w.add_player_ship_at((3, 4));
    w.request_bullets_fired();
    assert_eq!(w.player_bullet_count(), 1);
    // the bullet starts at (3, 3); two stages bring it to (3, 1)
    w.dispatch_event(WorldEvent::PlayerBulletsMoved);
    w.dispatch_event(WorldEvent::PlayerBulletsMoved);
    assert_eq!(w.player_bullet_count(), 1);
    w.dispatch_event(WorldEvent::PlayerBulletsMoved);
    w.dispatch_event(WorldEvent::PlayerBulletsMoved);
    assert_eq!(w.player_bullet_count(), 0);
}
