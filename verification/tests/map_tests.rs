use rlr::map::GameMap;
use rlr::map::Tile;

#[test]
fn tiles_not_equal() {
    let mut map = GameMap::new(16, 16);
    map.data[2][3].transparent = false;
    map.data[3][2].transparent = true;
    assert_ne!(map.data[2][3], map.data[3][2]);
}

#[test]
fn new_tile_is_solid() {
    let t = Tile::new();
    assert!(!t.transparent);
    assert!(!t.walkable);
}

#[test]
fn new_map_has_requested_shape() {
    let map = GameMap::new(7, 5);
    assert_eq!(map.data.len(), 5);
    for row in map.data.iter() {
        assert_eq!(row.len(), 7);
    }
}

#[test]
fn at_reads_what_at_mut_wrote() {
    let mut map = GameMap::new(8, 8);
    {
        let tile = map.at_mut(3, 6);
        tile.walkable = true;
    }
    assert!(map.at(3, 6).walkable);
    assert!(!map.at(6, 3).walkable);
    assert!(!map.at(3, 6).transparent);
}
