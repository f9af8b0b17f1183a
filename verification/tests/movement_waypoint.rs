use pop3::engine::movement::{process_route_movement, PersonMovement, SegmentPool, TileCoord, WaypointResult, WorldCoord};

fn setup_segment_pool_with_path(waypoints: &[(u8, u8)]) -> (SegmentPool, u16) {
    let mut pool = SegmentPool::new();
    let idx = pool.allocate().unwrap();
    pool.add_ref(idx);
    let seg = pool.get_mut(idx).unwrap();
    seg.start_tile_x = waypoints[0].0;
    seg.start_tile_z = waypoints[0].1;
    if let Some(last) = waypoints.last() {
        seg.end_tile_x = last.0;
        seg.end_tile_z = last.1;
    }
    seg.waypoint_count = waypoints.len() as u8;
    for (i, &(tx, tz)) in waypoints.iter().enumerate() {
        seg.waypoints[i].tile_x = tx;
        seg.waypoints[i].tile_z = tz;
    }
    (pool, idx)
}

#[test]
fn no_segment_returns_immediately() {
    let mut pool = SegmentPool::new();
    let mut person = PersonMovement::default();
    person.segment_index = 0;
    let result = process_route_movement(&mut pool, &mut person);
    assert_eq!(result, WaypointResult::NoSegment);
}

#[test]
fn in_progress_when_far_from_waypoint() {
    let (mut pool, idx) = setup_segment_pool_with_path(&[(0x10, 0x10), (0x30, 0x30)]);
    let mut person = PersonMovement::default();
    person.segment_index = idx;
    person.waypoint_idx = 0;
    person.position = WorldCoord::new(0x0100, 0x0100);
    let result = process_route_movement(&mut pool, &mut person);
    assert_eq!(result, WaypointResult::InProgress);
    assert_eq!(person.waypoint_idx, 0);
}

#[test]
fn advances_when_close_to_waypoint() {
    let (mut pool, idx) = setup_segment_pool_with_path(&[(0x10, 0x10), (0x30, 0x30)]);
    let mut person = PersonMovement::default();
    person.segment_index = idx;
    person.waypoint_idx = 0;
    let wp0 = TileCoord::new(0x10, 0x10).to_world();
    person.position = WorldCoord::new(wp0.x + 10, wp0.z + 10);
    let result = process_route_movement(&mut pool, &mut person);
    assert_eq!(result, WaypointResult::Advanced);
    assert_eq!(person.waypoint_idx, 1);
    let wp1 = TileCoord::new(0x30, 0x30).to_world();
    assert_eq!(person.next_waypoint, wp1);
}

#[test]
fn completes_at_final_waypoint() {
    let (mut pool, idx) = setup_segment_pool_with_path(&[(0x10, 0x10), (0x30, 0x30)]);
    let mut person = PersonMovement::default();
    person.segment_index = idx;
    person.waypoint_idx = 1;
    person.target_pos = WorldCoord::new(0x5000, 0x6000);
    let wp1 = TileCoord::new(0x30, 0x30).to_world();
    person.position = WorldCoord::new(wp1.x + 5, wp1.z + 5);
    let result = process_route_movement(&mut pool, &mut person);
    assert_eq!(result, WaypointResult::Completed);
    assert_eq!(person.segment_index, 0);
    assert_eq!(person.waypoint_idx, 0);
    assert_eq!(person.next_waypoint, person.target_pos);
}

#[test]
fn segment_ref_count_decremented_on_complete() {
    let (mut pool, idx) = setup_segment_pool_with_path(&[(0x10, 0x10)]);
    pool.add_ref(idx);
    assert_eq!(pool.get(idx).unwrap().ref_count, 2);
    let mut person = PersonMovement::default();
    person.segment_index = idx;
    person.waypoint_idx = 0;
    person.target_pos = WorldCoord::new(0x5000, 0x6000);
    let wp0 = TileCoord::new(0x10, 0x10).to_world();
    person.position = WorldCoord::new(wp0.x, wp0.z);
    process_route_movement(&mut pool, &mut person);
    assert_eq!(pool.get(idx).unwrap().ref_count, 1);
}

#[test]
fn single_waypoint_segment_completes() {
    let (mut pool, idx) = setup_segment_pool_with_path(&[(0x10, 0x10)]);
    let mut person = PersonMovement::default();
    person.segment_index = idx;
    person.waypoint_idx = 0;
    person.target_pos = WorldCoord::new(0x5000, 0x6000);
    let wp0 = TileCoord::new(0x10, 0x10).to_world();
    person.position = WorldCoord::new(wp0.x, wp0.z);
    let result = process_route_movement(&mut pool, &mut person);
    assert_eq!(result, WaypointResult::Completed);
}

#[test]
fn multi_waypoint_full_traversal() {
    let (mut pool, idx) = setup_segment_pool_with_path(&[(0x10, 0x10), (0x20, 0x20), (0x30, 0x30)]);
    let mut person = PersonMovement::default();
    person.segment_index = idx;
    person.waypoint_idx = 0;
    person.target_pos = WorldCoord::new(0x5000, 0x6000);
    let wp0 = TileCoord::new(0x10, 0x10).to_world();
    person.position = WorldCoord::new(wp0.x, wp0.z);
    assert_eq!(process_route_movement(&mut pool, &mut person), WaypointResult::Advanced);
    assert_eq!(person.waypoint_idx, 1);
    let wp1 = TileCoord::new(0x20, 0x20).to_world();
    person.position = WorldCoord::new(wp1.x, wp1.z);
    assert_eq!(process_route_movement(&mut pool, &mut person), WaypointResult::Advanced);
    assert_eq!(person.waypoint_idx, 2);
    let wp2 = TileCoord::new(0x30, 0x30).to_world();
    person.position = WorldCoord::new(wp2.x, wp2.z);
    assert_eq!(process_route_movement(&mut pool, &mut person), WaypointResult::Completed);
    assert_eq!(person.segment_index, 0);
    assert_eq!(person.next_waypoint, person.target_pos);
}
