use rust_multiplayer::math::Vector2X;
use rust_multiplayer::world::{
    entity_size, get_tiled_value, get_tiled_vec, EntityController, EntityState, PlayerRole, World,
    WorldError, NPC_DIRECTION_TICKS_MAX, NPC_DIRECTION_TICKS_MIN, TILE_SIZE,
};

#[test]
fn test_world_creation() {
    let world = World::new();
    assert_eq!(world.new_entity_id, 0);
}

#[test]
fn test_world_entity_creation_should_increase_entities_count() {
    let mut world = World::new();
    assert_eq!(world.new_entity_id, 0);

    let new_entity_id = world.create_entity_npc("Bob", Vector2X::new(10, 20), Vector2X::new(10, 10));
    assert_eq!(new_entity_id, 0);

    assert_eq!(world.new_entity_id, 1);
}

#[test]
fn test_world_entity_access_should_align_position() {
    let entity_name = "Bob";
    let entity_position = Vector2X::new(10, 20);
    let expected_position = Vector2X::new(0, 0);

    let mut world = World::new();
    let new_entity_id = world.create_entity_npc(entity_name, entity_position, Vector2X::new(10, 10));

    let entity = world.get_entity_by_id(new_entity_id).unwrap();
    assert_eq!(entity.name, entity_name);
    assert_eq!(entity.position, expected_position);
    assert_eq!(entity.state, EntityState::Idle);
}

#[test]
fn test_coords_positive_alignment() {
    // Ten tenths of a tile right of tile 0, and 2.7 tiles up: both snap down.
    let v1 = Vector2X::new(TILE_SIZE / 10, 2 * TILE_SIZE + (7 * TILE_SIZE) / 10);
    let v2 = World::get_grid_aligned_position(&v1);
    let v2_expected = Vector2X::new(0, 2 * TILE_SIZE);

    assert_eq!(v2, v2_expected, "v1={v1:?}");
}

#[test]
fn test_coords_negative_alignment() {
    let v1 = Vector2X::new(-TILE_SIZE / 10, -3 * TILE_SIZE - (7 * TILE_SIZE) / 10);
    let v2 = World::get_grid_aligned_position(&v1);
    let v2_expected = Vector2X::new(-TILE_SIZE, -4 * TILE_SIZE);

    assert_eq!(v2, v2_expected, "v1={v1:?}");
}

#[test]
fn test_alignment_is_idempotent() {
    let v1 = Vector2X::new(123, -7777);
    let once = World::get_grid_aligned_position(&v1);
    let twice = World::get_grid_aligned_position(&once);
    assert_eq!(once, twice);
}

#[test]
fn test_tiled_coords() {
    assert_eq!(0, get_tiled_value(0));
    assert_eq!(-TILE_SIZE, get_tiled_value(-1));
    assert_eq!(TILE_SIZE, get_tiled_value(1));

    assert_eq!(Vector2X::zero(), get_tiled_vec(0, 0));
    assert_eq!(Vector2X::new(-TILE_SIZE, -TILE_SIZE), get_tiled_vec(-1, -1));
    assert_eq!(Vector2X::new(TILE_SIZE, TILE_SIZE), get_tiled_vec(1, 1));
    assert_eq!(Vector2X::new(2 * TILE_SIZE, 0), get_tiled_vec(2, 0));
}

#[test]
fn test_world_entity_count_free_positions() {
    let world = World::new();

    let free_tiles_not_enough_range = world.get_free_tiles_positions(Vector2X::zero(), TILE_SIZE / 2);
    assert_eq!(free_tiles_not_enough_range.len(), 0);

    // Radius at the inner corner-sample distance (half a tile times the
    // diagonal, rounded up): the centre tile and its four neighbours.
    let free_tiles_one_tile_edge_case = world.get_free_tiles_positions(Vector2X::zero(), 36);
    assert_eq!(free_tiles_one_tile_edge_case.len(), 1 + 4);

    let free_tiles_one_tile_range = world.get_free_tiles_positions(Vector2X::zero(), TILE_SIZE);
    assert_eq!(free_tiles_one_tile_range.len(), 1 + 4);

    let free_tiles_captures_9_tiles = world.get_free_tiles_positions(Vector2X::zero(), 2 * TILE_SIZE);
    assert_eq!(free_tiles_captures_9_tiles.len(), 9 + 4);
}

#[test]
fn test_world_entity_free_positions() {
    let entity_name = "Bob";
    let entity_occupied_posiiton = get_tiled_vec(1, 1);

    let mut world = World::new();
    let _new_entity_id = world.create_entity_npc(entity_name, entity_occupied_posiiton, entity_size());

    let free_tiles = world.get_free_tiles_positions(Vector2X::zero(), get_tiled_value(3));

    assert!(!free_tiles.contains(&entity_occupied_posiiton));
}

#[test]
fn test_entities_positions_inrange() {
    let p1 = get_tiled_vec(1, 2);
    let p2 = get_tiled_vec(1, 3);
    assert!(World::is_entity_inrange(p1, p2));

    let p1 = get_tiled_vec(1, 2);
    let p2 = get_tiled_vec(2, 3);
    assert!(World::is_entity_inrange(p1, p2));
}

#[test]
fn test_entities_positions_not_inrange() {
    let p1 = get_tiled_vec(1, 2);
    let p2 = get_tiled_vec(1, 4);
    assert!(!World::is_entity_inrange(p1, p2));

    let p1 = get_tiled_vec(-1, 0);
    let p2 = get_tiled_vec(1, 0);
    assert!(!World::is_entity_inrange(p1, p2));
}

#[test]
fn test_entity_ids_survive_removal() {
    let mut world = World::new();
    let a = world.create_entity_npc("A", get_tiled_vec(0, 0), entity_size());
    let b = world.create_entity_npc("B", get_tiled_vec(1, 0), entity_size());
    assert_eq!((a, b), (0, 1));

    world.remove_entity(a).unwrap();
    let c = world.create_entity_npc("C", get_tiled_vec(2, 0), entity_size());
    // A removed id is never reused: the counter keeps increasing.
    assert_eq!(c, 2);
    assert!(world.get_entity_by_id(a).is_none());
    assert!(world.get_entity_by_id(b).is_some());
    assert!(world.get_entity_by_id(c).is_some());
}

#[test]
fn test_remove_unknown_entity_fails() {
    let mut world = World::new();
    assert_eq!(world.remove_entity(77), Err(WorldError::EntityNotExist));
}

#[test]
fn test_player_color_channel_is_in_range() {
    let mut world = World::new();
    let id = world.create_entity_player("Ann", get_tiled_vec(0, 0), entity_size());
    let entity = world.get_entity_by_id(id).unwrap();
    assert!(35 <= entity.color[0] && entity.color[0] < 150);
    assert_eq!(entity.color[0], entity.color[1]);
    assert_eq!(entity.color[0], entity.color[2]);
}

#[test]
fn test_npc_initial_cooldown_is_in_range() {
    let mut world = World::new();
    let id = world.create_entity_npc("Bob", get_tiled_vec(0, 0), entity_size());
    let entity = world.get_entity_by_id(id).unwrap();
    match &entity.controller {
        EntityController::Npc(npc) => {
            assert!(
                NPC_DIRECTION_TICKS_MIN <= npc.change_destination_counter
                    && npc.change_destination_counter < NPC_DIRECTION_TICKS_MAX
            );
        },
        EntityController::Player(_) => panic!("expected an NPC"),
    }
}

#[test]
fn test_player_tick_movement_reaches_destination() {
    let mut world = World::new();
    let id = world.create_entity_player("Ann", get_tiled_vec(0, 0), entity_size());
    let destination = get_tiled_vec(1, 0);
    world.try_start_move_entity_to(id, destination).unwrap();
    assert!(world.get_entity_by_id(id).unwrap().is_moving());

    // Player speed covers one tile within six ticks: 9 steps per tick over
    // a 50-step tile, arrival detected by the dot-product margin.
    for _ in 0..5 {
        world.tick();
        assert!(world.get_entity_by_id(id).unwrap().is_moving());
    }
    world.tick();
    let entity = world.get_entity_by_id(id).unwrap();
    assert!(!entity.is_moving());
    assert_eq!(entity.position, destination);
}

#[test]
fn test_move_to_occupied_tile_fails() {
    let mut world = World::new();
    let a = world.create_entity_player("Ann", get_tiled_vec(0, 0), entity_size());
    let _b = world.create_entity_player("Bob", get_tiled_vec(1, 0), entity_size());
    let res = world.try_start_move_entity_to(a, get_tiled_vec(1, 0));
    assert_eq!(res, Err(WorldError::EntityCannotMoveThere));
    assert!(!world.get_entity_by_id(a).unwrap().is_moving());
}

#[test]
fn test_role_operations_and_their_errors() {
    let mut world = World::new();
    let npc = world.create_entity_npc("N", get_tiled_vec(0, 0), entity_size());
    let player = world.create_entity_player("P", get_tiled_vec(1, 0), entity_size());

    assert_eq!(
        world.select_entity_as_seeker(npc, 2000, 3),
        Err(WorldError::EntityCannotBecameSeeker)
    );
    assert_eq!(world.select_entity_as_seeker(99, 2000, 3), Err(WorldError::EntityNotExist));

    // A fresh player is a covered hider.
    match world.get_entity_by_id(player).unwrap().get_player_role().unwrap() {
        PlayerRole::Hider { stats } => assert!(stats.covered),
        PlayerRole::Seeker { .. } => panic!("fresh players are hiders"),
    }

    // A hider cannot be punished; an NPC is no player at all.
    assert_eq!(world.punish_seeker(player), Err(WorldError::EntityNotSeeker));
    assert_eq!(world.punish_seeker(npc), Err(WorldError::EntityNotPlayer));
    assert_eq!(world.set_hider_covered(npc, false), Err(WorldError::EntityNotPlayer));

    world.select_entity_as_seeker(player, 2000, 3).unwrap();
    assert_eq!(world.set_hider_covered(player, false), Err(WorldError::EntityNotHider));

    // Punishing decrements the failure budget, saturating at zero.
    world.punish_seeker(player).unwrap();
    world.punish_seeker(player).unwrap();
    world.punish_seeker(player).unwrap();
    world.punish_seeker(player).unwrap();
    match world.get_entity_by_id(player).unwrap().get_player_role().unwrap() {
        PlayerRole::Seeker { stats } => assert_eq!(stats.remaining_failures, 0),
        PlayerRole::Hider { .. } => panic!("player was made the seeker"),
    }

    // Seeker time decrements one tick at a time, saturating at zero.
    world.tick_seeker_remaining_time();
    match world.get_entity_by_id(player).unwrap().get_player_role().unwrap() {
        PlayerRole::Seeker { stats } => assert_eq!(stats.remaining_ticks, 1999),
        PlayerRole::Hider { .. } => panic!("player was made the seeker"),
    }
}
