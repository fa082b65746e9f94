use corruption_spread::stage::{
    generate_stage, generate_stage_from_rolls, tile_kind_for_roll, MAX_CORRUPTION, SPAWN_TILE_X,
    SPAWN_TILE_Y, SPAWN_X, SPAWN_Y, STAGE_HEIGHT, STAGE_WIDTH,
};
use corruption_spread::tile::TileType;

#[test]
fn rolls_pick_kinds() {
    assert_eq!(tile_kind_for_roll(0, 0, 0, 100), TileType::Corruption);
    assert_eq!(tile_kind_for_roll(1, 23, 100, 0), TileType::Corruption);
    assert_eq!(tile_kind_for_roll(2, 0, 0, 100), TileType::Grass);
    assert_eq!(tile_kind_for_roll(4, 0, 0, 100), TileType::Grass);
    assert_eq!(tile_kind_for_roll(5, 0, 0, 100), TileType::Flower);
    assert_eq!(tile_kind_for_roll(6, 0, 0, 100), TileType::Flower);
    assert_eq!(tile_kind_for_roll(7, 0, 0, 100), TileType::Sand);
    assert_eq!(tile_kind_for_roll(8, 0, 0, 100), TileType::Green);
    assert_eq!(tile_kind_for_roll(99, 0, 0, 100), TileType::Green);
}

#[test]
fn low_rolls_that_may_not_seed_give_grass() {
    // too many seeds already
    assert_eq!(tile_kind_for_roll(0, 24, 0, 100), TileType::Grass);
    // off the border
    assert_eq!(tile_kind_for_roll(0, 0, 100, 100), TileType::Grass);
    assert_eq!(tile_kind_for_roll(1, 0, 64, 64), TileType::Grass);
}

#[test]
fn safe_radius_is_measured_from_the_stage_centre() {
    assert_eq!((SPAWN_X, SPAWN_Y), (512, 512));
    assert_eq!(SPAWN_TILE_X, STAGE_WIDTH / 2);
    assert_eq!(SPAWN_TILE_Y, STAGE_HEIGHT / 2);
    // the corner is about 724 px from the spawn point
    assert_eq!(tile_kind_for_roll(0, 0, 0, 0), TileType::Corruption);
    // the border tiles level with the spawn point are 512 px from it, the
    // nearest that a border tile gets, still beyond the 360 px radius
    assert_eq!(tile_kind_for_roll(0, 0, 0, 64), TileType::Corruption);
    assert_eq!(tile_kind_for_roll(1, 0, 64, 0), TileType::Corruption);
}

#[test]
fn calm_rolls_give_a_green_stage() {
    let (map, candidates) = generate_stage_from_rolls(4, 3, &vec![50; 12]);
    assert_eq!(map.width, 4);
    assert_eq!(map.height, 3);
    assert_eq!(map.tiles, vec![TileType::Green; 12]);
    assert!(candidates.is_empty());
}

#[test]
fn seeds_plant_their_live_neighbours() {
    // a 60 x 2 stage: seeds at (0, 0), (50, 0) and (51, 0)
    let mut rolls = vec![50u32; 120];
    rolls[0] = 0;
    rolls[50] = 1;
    rolls[51] = 0;
    rolls[111] = 6;
    let (map, candidates) = generate_stage_from_rolls(60, 2, &rolls);
    assert_eq!(map.get(0, 0), Some(TileType::Corruption));
    assert_eq!(map.get(50, 0), Some(TileType::Corruption));
    assert_eq!(map.get(51, 0), Some(TileType::Corruption));
    assert_eq!(map.get(51, 1), Some(TileType::Flower));
    assert_eq!(map.get(60, 0), None);
    assert_eq!(
        candidates.tiles,
        vec![(0, 1), (1, 0), (50, 1), (49, 0), (51, 1), (52, 0)]
    );
}

#[test]
fn seeding_stops_at_the_cap() {
    let (map, candidates) =
        generate_stage_from_rolls(STAGE_WIDTH, STAGE_HEIGHT, &vec![0; 128 * 128]);
    let mut seeds = 0;
    for y in 0..STAGE_HEIGHT {
        for x in 0..STAGE_WIDTH {
            if map.is_corrupted_at(x, y) {
                seeds += 1;
                assert!(x == 0 || y == 0);
            }
        }
    }
    assert_eq!(seeds, MAX_CORRUPTION);
    assert!(!candidates.is_empty());
    for &(x, y) in candidates.tiles.iter() {
        assert!(map.is_walkable(x, y));
    }
}

#[test]
fn random_stage_keeps_the_seeding_rules() {
    for _ in 0..5 {
        let (map, candidates) = generate_stage(STAGE_WIDTH, STAGE_HEIGHT);
        assert_eq!(map.tiles.len(), 128 * 128);
        let mut seeds = 0;
        for y in 0..STAGE_HEIGHT {
            for x in 0..STAGE_WIDTH {
                if map.is_corrupted_at(x, y) {
                    seeds += 1;
                    assert!(x == 0 || y == 0);
                    let dx = (x * 8 - 512) as i64;
                    let dy = (y * 8 - 512) as i64;
                    assert!(dx * dx + dy * dy >= 360 * 360);
                }
            }
        }
        assert!(seeds <= MAX_CORRUPTION);
        for &(x, y) in candidates.tiles.iter() {
            assert!(map.is_walkable(x, y));
        }
        // rolls over the whole range give a mixed stage, not one kind everywhere
        assert!(map.tiles.iter().any(|t| *t == TileType::Green));
        assert!(map.tiles.iter().any(|t| *t != TileType::Green));
    }
}
