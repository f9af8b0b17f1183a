use pop3::engine::movement::constants::{FAILURE_CACHE_SIZE, MAX_SEGMENTS};
use pop3::engine::movement::{FailureCache, SegmentPool, TileCoord};

#[test]
fn pool_starts_empty() {
    let pool = SegmentPool::new();
    assert_eq!(pool.active_count, 0);
    assert_eq!(pool.segments.len(), MAX_SEGMENTS);
}

#[test]
fn allocate_and_release() {
    let mut pool = SegmentPool::new();
    let idx = pool.allocate().unwrap();
    assert_eq!(pool.active_count, 1);
    pool.add_ref(idx);
    assert_eq!(pool.segments[idx as usize].ref_count, 1);
    pool.release(idx);
    assert_eq!(pool.segments[idx as usize].ref_count, 0);
    assert_eq!(pool.active_count, 0);
}

#[test]
fn circular_allocation() {
    let mut pool = SegmentPool::new();
    let idx1 = pool.allocate().unwrap();
    pool.add_ref(idx1);
    let idx2 = pool.allocate().unwrap();
    assert_eq!(idx2, idx1 + 1);
    pool.add_ref(idx2);
    pool.release(idx1);
    let idx3 = pool.allocate().unwrap();
    assert_eq!(idx3, idx2 + 1);
}

#[test]
fn find_existing_segment() {
    let mut pool = SegmentPool::new();
    let idx = pool.allocate().unwrap();
    pool.add_ref(idx);
    let seg = pool.get_mut(idx).unwrap();
    seg.start_tile_x = 10;
    seg.start_tile_z = 20;
    seg.end_tile_x = 30;
    seg.end_tile_z = 40;
    let found = pool.find_existing(TileCoord::new(10, 20), TileCoord::new(30, 40));
    assert_eq!(found, Some(idx));
    let found = pool.find_existing(TileCoord::new(30, 40), TileCoord::new(10, 20));
    assert_eq!(found, None);
    pool.get_mut(idx).unwrap().flags = 0x02;
    let found = pool.find_existing(TileCoord::new(30, 40), TileCoord::new(10, 20));
    assert_eq!(found, Some(idx));
}

#[test]
fn waypoint_extraction() {
    let mut pool = SegmentPool::new();
    let idx = pool.allocate().unwrap();
    pool.add_ref(idx);
    let seg = pool.get_mut(idx).unwrap();
    seg.waypoint_count = 2;
    seg.waypoints[0].tile_x = 0x10;
    seg.waypoints[0].tile_z = 0x20;
    seg.waypoints[1].tile_x = 0x30;
    seg.waypoints[1].tile_z = 0x40;
    let wp0 = pool.get_waypoint(idx, 0).unwrap();
    assert_eq!(wp0.x, 0x1100);
    assert_eq!(wp0.z, 0x2100);
    let wp1 = pool.get_waypoint(idx, 1).unwrap();
    assert_eq!(wp1.x, 0x3100);
    assert_eq!(wp1.z, 0x4100);
    assert!(pool.get_waypoint(idx, 2).is_none());
}

#[test]
fn failure_cache_starts_empty() {
    let cache = FailureCache::new();
    assert!(!cache.is_failed(TileCoord::new(1, 2), TileCoord::new(3, 4)));
}

#[test]
fn record_and_check_failure() {
    let mut cache = FailureCache::new();
    let src = TileCoord::new(10, 20);
    let dst = TileCoord::new(30, 40);
    cache.record_failure(src, dst);
    assert!(cache.is_failed(src, dst));
    assert!(!cache.is_failed(dst, src));
}

#[test]
fn failure_cache_eviction() {
    let mut cache = FailureCache::new();
    for i in 0..FAILURE_CACHE_SIZE {
        cache.record_failure(TileCoord::new(i as u8, 0), TileCoord::new(i as u8, 1));
    }
    cache.increment(TileCoord::new(0, 0), TileCoord::new(0, 1));
    cache.record_failure(TileCoord::new(99, 0), TileCoord::new(99, 1));
    assert!(cache.is_failed(TileCoord::new(99, 0), TileCoord::new(99, 1)));
    assert!(cache.is_failed(TileCoord::new(0, 0), TileCoord::new(0, 1)));
}

#[test]
fn failure_cache_clear() {
    let mut cache = FailureCache::new();
    cache.record_failure(TileCoord::new(1, 2), TileCoord::new(3, 4));
    assert!(cache.is_failed(TileCoord::new(1, 2), TileCoord::new(3, 4)));
    cache.clear();
    assert!(!cache.is_failed(TileCoord::new(1, 2), TileCoord::new(3, 4)));
}

#[test]
fn allocation_never_hands_out_slot_zero() {
    let mut pool = SegmentPool::new();
    for _ in 0..MAX_SEGMENTS - 1 {
        let idx = pool.allocate().unwrap();
        assert_ne!(idx, 0);
        pool.add_ref(idx);
    }
    assert_eq!(pool.allocate(), None);
}

#[test]
fn get_out_of_range_is_none() {
    let pool = SegmentPool::new();
    assert!(pool.get(MAX_SEGMENTS as u16).is_none());
    assert!(pool.get_waypoint(MAX_SEGMENTS as u16, 0).is_none());
}
