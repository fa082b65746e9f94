use corruption_spread::grid::TileMap;
use corruption_spread::tile::TileType;

#[test]
fn get_and_set() {
    let mut map = TileMap::new(3, 2);
    assert_eq!(map.tiles.len(), 6);
    assert_eq!(map.get(2, 1), Some(TileType::Green));
    assert_eq!(map.get(3, 0), None);
    assert_eq!(map.get(0, 2), None);
    assert_eq!(map.get(-1, 0), None);
    map.set(2, 1, TileType::Sand);
    assert_eq!(map.get(2, 1), Some(TileType::Sand));
    assert_eq!(map.tiles[5], TileType::Sand);
    assert_eq!(map.get(1, 1), Some(TileType::Green));
}

#[test]
fn corrupted_tiles_block_movement() {
    let mut map = TileMap::new(3, 3);
    map.set(1, 1, TileType::Corruption);
    assert!(map.is_corrupted_at(1, 1));
    assert!(!map.is_walkable(1, 1));
    assert!(map.is_walkable(0, 1));
    assert!(!map.is_corrupted_at(0, 1));
    assert!(!map.is_walkable(5, 5));
    assert!(!map.is_corrupted_at(5, 5));
}

#[test]
fn kinds_and_textures() {
    assert!(TileType::Corruption.is_corrupted_tile());
    assert!(!TileType::Flower.is_corrupted_tile());
    assert_eq!(TileType::Green.texture(), "tile_0000.png");
    assert_eq!(TileType::Grass.texture(), "tile_0001.png");
    assert_eq!(TileType::Flower.texture(), "tile_0002.png");
    assert_eq!(TileType::Sand.texture(), "tile_0003.png");
    assert_eq!(TileType::Corruption.texture(), "corrupted_tile_1.png");
}
