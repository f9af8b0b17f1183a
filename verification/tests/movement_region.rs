use pop3::engine::movement::constants::CELL_HAS_BUILDING;
use pop3::engine::movement::region::spiral_neighbors;
use pop3::engine::movement::{RegionMap, TileCoord, WorldCoord};

#[test]
fn empty_map_all_same_region() {
    let map = RegionMap::new();
    assert!(map.same_region(WorldCoord::new(0x0500, 0x0500), WorldCoord::new(0x2000, 0x3000)));
}

#[test]
fn different_regions_detected() {
    let mut map = RegionMap::new();
    let tile_a = TileCoord::new(0x04, 0x04);
    let tile_b = TileCoord::new(0x10, 0x10);
    map.set_cell_region(tile_a, 1);
    map.set_cell_region(tile_b, 2);
    assert!(!map.same_region(tile_a.to_world(), tile_b.to_world()));
}

#[test]
fn same_region_detected() {
    let mut map = RegionMap::new();
    let tile_a = TileCoord::new(0x04, 0x04);
    let tile_b = TileCoord::new(0x10, 0x10);
    map.set_cell_region(tile_a, 5);
    map.set_cell_region(tile_b, 5);
    assert!(map.same_region(tile_a.to_world(), tile_b.to_world()));
}

#[test]
fn region_id_10bit_mask() {
    let mut map = RegionMap::new();
    let tile = TileCoord::new(0x02, 0x02);
    map.set_cell_region(tile, 1023);
    assert_eq!(map.region_at(tile), 1023);
    map.set_cell_region(tile, 0xFFFF);
    assert_eq!(map.region_at(tile), 1023);
}

#[test]
fn building_flag() {
    let mut map = RegionMap::new();
    let tile = TileCoord::new(0x06, 0x08);
    assert!(!map.has_building(tile));
    map.get_cell_mut(tile).flags_high = CELL_HAS_BUILDING;
    assert!(map.has_building(tile));
}

#[test]
fn default_terrain_walkable() {
    let map = RegionMap::new();
    let tile = TileCoord::new(0x04, 0x04);
    assert!(map.is_walkable(tile));
}

#[test]
fn unwalkable_terrain() {
    let mut map = RegionMap::new();
    let tile = TileCoord::new(0x04, 0x04);
    map.get_cell_mut(tile).terrain_type = 3;
    map.set_terrain_flags(3, 0x00);
    assert!(!map.is_walkable(tile));
}

#[test]
fn spiral_neighbors_count() {
    let offsets = spiral_neighbors(32);
    assert_eq!(offsets.len(), 32);
}

#[test]
fn spiral_neighbors_no_center() {
    let offsets = spiral_neighbors(32);
    assert!(!offsets.contains(&(0, 0)));
}

#[test]
fn spiral_neighbors_first_ring() {
    let offsets = spiral_neighbors(32);
    let ring1: Vec<_> = offsets.iter().filter(|(dx, dz)| dx.abs() <= 1 && dz.abs() <= 1).collect();
    assert_eq!(ring1.len(), 8);
}

#[test]
fn region_at_world_reads_the_tile_under_a_position() {
    let mut map = RegionMap::new();
    let tile = TileCoord::new(0x10, 0x20);
    map.set_cell_region(tile, 7);
    assert_eq!(map.region_at_world(tile.to_world()), 7);
    assert_eq!(map.region_at_world(WorldCoord::new(0x1000, 0x2000)), 7);
}

#[test]
fn spiral_neighbors_go_ring_by_ring() {
    let offsets = spiral_neighbors(24);
    assert_eq!(offsets.len(), 24);
    for (i, &(dx, dz)) in offsets.iter().enumerate() {
        let ring = dx.abs().max(dz.abs());
        assert_eq!(ring, if i < 8 { 1 } else { 2 });
    }
}

#[test]
fn spiral_neighbors_cardinals_before_diagonals() {
    assert_eq!(spiral_neighbors(6), vec![(0, 1), (1, 0), (0, -1), (-1, 0), (1, 1), (1, -1)]);
    let ring2 = &spiral_neighbors(24)[8..];
    assert_eq!(&ring2[..4], &[(0, 2), (2, 0), (0, -2), (-2, 0)]);
    assert_eq!(&ring2[4..6], &[(1, 2), (-1, 2)]);
    assert_eq!(&ring2[12..], &[(2, 2), (2, -2), (-2, -2), (-2, 2)]);
}
