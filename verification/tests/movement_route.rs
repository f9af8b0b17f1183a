use pop3::engine::movement::constants::FLAG1_BLOCKED;
use pop3::engine::movement::{
    adjust_target_for_walkability, route_table_lookup, state_goto, FailureCache, PersonMovement, RegionMap,
    RouteResult, SegmentPool, TileCoord, UsedTargetsCache, WorldCoord,
};

fn make_test_env() -> (RegionMap, SegmentPool, FailureCache, UsedTargetsCache) {
    (RegionMap::new(), SegmentPool::new(), FailureCache::new(), UsedTargetsCache::new())
}

#[test]
fn same_region_direct_walk() {
    let (map, mut pool, cache, _) = make_test_env();
    let mut person = PersonMovement::default();
    person.position = WorldCoord::new(0x0500, 0x0500);
    let target = WorldCoord::new(0x2000, 0x3000);
    let result = route_table_lookup(&map, &mut pool, &cache, &mut person, target);
    assert_eq!(result, RouteResult::DirectWalk);
    assert_eq!(person.segment_index, 0);
    assert_eq!(person.next_waypoint, target);
    assert_eq!(person.target_pos, target);
}

#[test]
fn cross_region_pathfinder_creates_segment() {
    let (mut map, mut pool, cache, _) = make_test_env();
    let src_tile = TileCoord::new(0x04, 0x04);
    let dst_tile = TileCoord::new(0x40, 0x40);
    map.set_cell_region(src_tile, 1);
    map.set_cell_region(dst_tile, 2);
    let mut person = PersonMovement::default();
    person.position = src_tile.to_world();
    let target = dst_tile.to_world();
    let result = route_table_lookup(&map, &mut pool, &cache, &mut person, target);
    match result {
        RouteResult::Segment(idx) => {
            assert!(idx > 0);
            assert_eq!(person.segment_index, idx);
            assert_eq!(person.waypoint_idx, 0);
        }
        other => panic!("Expected Segment, got {:?}", other),
    }
}

#[test]
fn cross_region_reuse_existing_segment() {
    let (mut map, mut pool, cache, _) = make_test_env();
    let src_tile = TileCoord::new(0x04, 0x04);
    let dst_tile = TileCoord::new(0x40, 0x40);
    map.set_cell_region(src_tile, 1);
    map.set_cell_region(dst_tile, 2);
    let seg_idx = pool.allocate().unwrap();
    pool.add_ref(seg_idx);
    let seg = pool.get_mut(seg_idx).unwrap();
    seg.start_tile_x = src_tile.x;
    seg.start_tile_z = src_tile.z;
    seg.end_tile_x = dst_tile.x;
    seg.end_tile_z = dst_tile.z;
    seg.waypoint_count = 1;
    seg.waypoints[0].tile_x = 0x20;
    seg.waypoints[0].tile_z = 0x20;
    let mut person = PersonMovement::default();
    person.position = src_tile.to_world();
    let target = dst_tile.to_world();
    let result = route_table_lookup(&map, &mut pool, &cache, &mut person, target);
    assert_eq!(result, RouteResult::Segment(seg_idx));
    assert_eq!(person.segment_index, seg_idx);
    assert_eq!(person.waypoint_idx, 0);
    let expected_wp = TileCoord::new(0x20, 0x20).to_world();
    assert_eq!(person.next_waypoint, expected_wp);
}

#[test]
fn cross_region_failure_cache_blocks_astar() {
    let (mut map, mut pool, mut cache, _) = make_test_env();
    let src_tile = TileCoord::new(0x04, 0x04);
    let dst_tile = TileCoord::new(0x40, 0x40);
    map.set_cell_region(src_tile, 1);
    map.set_cell_region(dst_tile, 2);
    cache.record_failure(src_tile, dst_tile);
    let mut person = PersonMovement::default();
    person.position = src_tile.to_world();
    let target = dst_tile.to_world();
    let result = route_table_lookup(&map, &mut pool, &cache, &mut person, target);
    assert_eq!(result, RouteResult::NoRoute);
}

#[test]
fn state_goto_sets_flags() {
    let (map, mut pool, cache, mut used) = make_test_env();
    let mut person = PersonMovement::default();
    person.position = WorldCoord::new(0x0500, 0x0500);
    person.flags1 = FLAG1_BLOCKED;
    let target = WorldCoord::new(0x2000, 0x3000);
    let result = state_goto(&map, &mut pool, &cache, &mut person, target, &mut used);
    assert_eq!(result, RouteResult::DirectWalk);
    assert!(person.is_moving());
    assert!(!person.is_blocked());
    assert_eq!(person.movement_dest, person.next_waypoint);
}

#[test]
fn walkable_target_unchanged() {
    let map = RegionMap::new();
    let person = PersonMovement::default();
    let mut used = UsedTargetsCache::new();
    let mut target = WorldCoord::new(0x0500, 0x0500);
    let original = target;
    adjust_target_for_walkability(&map, &person, &mut target, &mut used);
    assert_eq!(target, original);
}

#[test]
fn unwalkable_target_snaps_to_neighbor() {
    let mut map = RegionMap::new();
    let person = PersonMovement::default();
    let mut used = UsedTargetsCache::new();
    map.set_terrain_flags(5, 0x00);
    let target_tile = TileCoord::new(0x10, 0x10);
    map.get_cell_mut(target_tile).terrain_type = 5;
    let mut target = target_tile.to_world();
    adjust_target_for_walkability(&map, &person, &mut target, &mut used);
    assert_ne!(target, target_tile.to_world());
    assert!(map.is_walkable_world(target));
}

#[test]
fn used_targets_prevents_pileup() {
    let mut map = RegionMap::new();
    let person = PersonMovement::default();
    let mut used = UsedTargetsCache::new();
    map.set_terrain_flags(5, 0x00);
    let target_tile = TileCoord::new(0x10, 0x10);
    map.get_cell_mut(target_tile).terrain_type = 5;
    let mut target1 = target_tile.to_world();
    adjust_target_for_walkability(&map, &person, &mut target1, &mut used);
    let mut target2 = target_tile.to_world();
    adjust_target_for_walkability(&map, &person, &mut target2, &mut used);
    assert_ne!(target1, target_tile.to_world());
    assert_ne!(target2, target_tile.to_world());
    assert_ne!(target1, target2);
}

#[test]
fn reusing_a_segment_adds_exactly_one_reference() {
    let (mut map, mut pool, cache, _) = make_test_env();
    let src_tile = TileCoord::new(0x04, 0x04);
    let dst_tile = TileCoord::new(0x40, 0x40);
    map.set_cell_region(src_tile, 1);
    map.set_cell_region(dst_tile, 2);
    let seg_idx = pool.allocate().unwrap();
    pool.add_ref(seg_idx);
    {
        let seg = pool.get_mut(seg_idx).unwrap();
        seg.start_tile_x = src_tile.x;
        seg.start_tile_z = src_tile.z;
        seg.end_tile_x = dst_tile.x;
        seg.end_tile_z = dst_tile.z;
        seg.waypoint_count = 1;
        seg.waypoints[0].tile_x = 0x20;
        seg.waypoints[0].tile_z = 0x20;
    }
    let (hint, last, active) = (pool.next_free_hint, pool.last_assigned, pool.active_count);
    let mut person = PersonMovement::default();
    person.position = src_tile.to_world();
    let target = dst_tile.to_world();
    let result = route_table_lookup(&map, &mut pool, &cache, &mut person, target);
    assert_eq!(result, RouteResult::Segment(seg_idx));
    assert_eq!(pool.get(seg_idx).unwrap().ref_count, 2);
    assert_eq!((pool.next_free_hint, pool.last_assigned, pool.active_count), (hint, last, active));
    assert_eq!(person.target_pos, target);
}

#[test]
fn same_region_lookup_leaves_the_pool_alone() {
    let (map, mut pool, cache, _) = make_test_env();
    let mut person = PersonMovement::default();
    person.position = WorldCoord::new(0x0500, 0x0500);
    let target = WorldCoord::new(0x2000, 0x3000);
    let result = route_table_lookup(&map, &mut pool, &cache, &mut person, target);
    assert_eq!(result, RouteResult::DirectWalk);
    assert_eq!((pool.next_free_hint, pool.last_assigned, pool.active_count), (1, 0, 0));
    assert_eq!(person.next_waypoint, target);
}

#[test]
fn state_goto_routes_to_the_snapped_target() {
    let (mut map, mut pool, cache, mut used) = make_test_env();
    map.set_terrain_flags(5, 0x00);
    let target_tile = TileCoord::new(0x10, 0x10);
    map.get_cell_mut(target_tile).terrain_type = 5;
    let mut person = PersonMovement::default();
    person.position = WorldCoord::new(0x0500, 0x0500);
    let result = state_goto(&map, &mut pool, &cache, &mut person, target_tile.to_world(), &mut used);
    // The first spiral neighbour, (0, 1), is walkable.
    let snapped = TileCoord::new(0x10, 0x12).to_world();
    assert_eq!(result, RouteResult::DirectWalk);
    assert_eq!(person.target_pos, snapped);
    assert_eq!(person.next_waypoint, snapped);
    assert!(used.contains(TileCoord::new(0x10, 0x12)));
}
