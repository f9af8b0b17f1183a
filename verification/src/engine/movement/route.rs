//! Route lookup, the four-tier route cache: the same region means a direct
//! walk; otherwise a cached segment is reused, a recently failed route is
//! refused, and only then the pathfinder runs and its path is cached.

use vstd::prelude::*;

use super::constants::{MAX_SEGMENTS, MAX_WALKABILITY_SEARCH, MAX_WAYPOINTS};
use super::pathfinder::{pathfind, pathfind_outcome, PathfindResult};
use super::region::{ring_of, spiral_neighbors, spiral_offset, RegionMap};
use super::segment::{FailureCache, SegmentPool};
use super::types::{lemma_tile_world_roundtrip, PersonMovement, RouteSegment, TileCoord, UsedTargetsCache, Waypoint, WorldCoord};

verus! {

/// How a unit should move after a route lookup.
#[derive(Debug, Clone, Copy, PartialEq, Eq, Structural)]
pub enum RouteResult {
    /// Same region: walk straight to the target.
    DirectWalk,
    /// Follow the waypoints of this segment.
    Segment(u16),
    /// No route.
    NoRoute,
}

/// The even tile that spiral offset `o` (in cells) points at from `tile`,
/// if it lies within tiles 0..=254 on both axes.
pub open spec fn snap_tile(tile: TileCoord, o: (i8, i8)) -> Option<TileCoord> {
    let cx = tile.x + o.0 * 2;
    let cz = tile.z + o.1 * 2;
    if cx < 0 || cx > 254 || cz < 0 || cz > 254 {
        None
    } else {
        Some(TileCoord { x: (cx / 2 * 2) as u8, z: (cz / 2 * 2) as u8 })
    }
}

/// The first tile, from spiral offset `k` on (of the first 32), that is on
/// the map, walkable and not among `used`.
pub open spec fn snap_target(map: &RegionMap, used: Seq<TileCoord>, tile: TileCoord, k: int) -> Option<TileCoord>
    decreases 32 - k,
{
    if k >= 32 {
        None
    } else {
        match snap_tile(tile, spiral_offset(k)) {
            Some(c) => if map.walkable_spec(c) && !used.contains(c) {
                Some(c)
            } else {
                snap_target(map, used, tile, k + 1)
            },
            None => snap_target(map, used, tile, k + 1),
        }
    }
}

/// Snap an unwalkable move target to a nearby walkable tile: the first
/// neighbour in spiral order (up to 32) that is on the map, walkable and
/// not already handed out. The target becomes that tile's centre and the
/// tile is recorded as handed out. A walkable target, or one with no such
/// neighbour, is left as it is.
pub fn adjust_target_for_walkability(
    region_map: &RegionMap,
    _person: &PersonMovement,
    target: &mut WorldCoord,
    used_targets: &mut UsedTargetsCache,
)
    requires
        region_map.wf(),
    ensures
        region_map.walkable_spec(old(target).tile_spec()) ==> *final(target) == *old(target) && final(used_targets)@ == old(used_targets)@,
        (*final(target) == *old(target) && final(used_targets)@ == old(used_targets)@) || exists|c: TileCoord| {
            &&& region_map.walkable_spec(c)
            &&& !old(used_targets)@.contains(c)
            &&& c.x % 2 == 0 && c.z % 2 == 0
            &&& *final(target) == c.world_spec()
            &&& final(used_targets)@ == old(used_targets)@.push(c)
        },
        *final(target) != *old(target) ==> region_map.walkable_spec(final(target).tile_spec()),
        !region_map.walkable_spec(old(target).tile_spec()) ==> match snap_target(
            region_map,
            old(used_targets)@,
            old(target).tile_spec(),
            0,
        ) {
            None => *final(target) == *old(target) && final(used_targets)@ == old(used_targets)@,
            Some(c) => *final(target) == c.world_spec() && final(used_targets)@ == old(used_targets)@.push(c),
        },
{
    let target_tile = target.to_tile();
    if region_map.is_walkable(target_tile) {
        return;
    }
    let offsets = spiral_neighbors(MAX_WALKABILITY_SEARCH);
    let mut i: usize = 0;
    while i < offsets.len()
        invariant
            region_map.wf(),
            *target == *old(target),
            used_targets@ == old(used_targets)@,
            target_tile == old(target).tile_spec(),
            !region_map.walkable_spec(old(target).tile_spec()),
            forall|k: int| 0 <= k < offsets@.len() ==> 1 <= #[trigger] ring_of(offsets@[k]) <= 16,
            offsets@.len() == 32,
            forall|k: int| 0 <= k < offsets@.len() ==> #[trigger] offsets@[k] == spiral_offset(k),
            i <= 32,
            snap_target(region_map, old(used_targets)@, target_tile, 0) == snap_target(region_map, old(used_targets)@, target_tile, i as int),
        decreases offsets@.len() - i,
    {
        let (dx, dz) = offsets[i];
        assert(1 <= ring_of(offsets@[i as int]) <= 16);
        let cx = (target_tile.x as i16) + (dx as i16) * 2;
        let cz = (target_tile.z as i16) + (dz as i16) * 2;
        i += 1;
        if cx < 0 || cx > 254 || cz < 0 || cz > 254 {
            continue;
        }
        let ux = cx as u8;
        let uz = cz as u8;
        let bx = ux & 0xFE;
        let bz = uz & 0xFE;
        assert(bx % 2 == 0 && bx == ux / 2 * 2) by (bit_vector)
            requires bx == ux & 0xFE;
        assert(bz % 2 == 0 && bz == uz / 2 * 2) by (bit_vector)
            requires bz == uz & 0xFE;
        let candidate = TileCoord::new(bx, bz);
        if !region_map.is_walkable(candidate) {
            continue;
        }
        if used_targets.contains(candidate) {
            continue;
        }
        *target = candidate.to_world();
        used_targets.record(candidate);
        proof {
            lemma_tile_world_roundtrip(candidate);
            assert(candidate.world_spec().tile_spec() == candidate);
        }
        return;
    }
}

/// Slot `new` is slot `old` taken over for the route from `src` to `dst`:
/// one user, the ends of the route, and the first waypoints of `path` (at
/// most `MAX_WAYPOINTS`); its flags and later waypoint entries are kept.
pub open spec fn stored_segment(old: RouteSegment, new: RouteSegment, src: TileCoord, dst: TileCoord, path: Seq<Waypoint>) -> bool {
    let count = if path.len() < MAX_WAYPOINTS { path.len() as int } else { MAX_WAYPOINTS as int };
    &&& new.ref_count == 1
    &&& new.flags == old.flags
    &&& new.start_tile_x == src.x && new.start_tile_z == src.z
    &&& new.end_tile_x == dst.x && new.end_tile_z == dst.z
    &&& new.waypoint_count == count
    &&& forall|k: int| 0 <= k < count ==> #[trigger] new.waypoints[k] == path[k]
    &&& forall|k: int| count <= k < MAX_WAYPOINTS ==> #[trigger] new.waypoints[k] == old.waypoints[k]
}

/// The person follows slot `i` from its first waypoint (the target when the
/// segment has none).
pub open spec fn follows_segment(pool: &SegmentPool, m: PersonMovement, i: int, target: WorldCoord) -> bool {
    &&& m.segment_index == i
    &&& m.waypoint_idx == 0
    &&& m.next_waypoint == match pool.segments@[i].waypoint_world_spec(0) {
        Some(w) => w,
        None => target,
    }
}

/// No route: the pool is untouched and the person has no segment.
pub open spec fn no_route(p0: &SegmentPool, p1: &SegmentPool, m0: PersonMovement, m1: PersonMovement, r: RouteResult) -> bool {
    &&& r == RouteResult::NoRoute
    &&& p1.same_as(p0)
    &&& m1.segment_index == 0
    &&& m1.waypoint_idx == 0
    &&& m1.next_waypoint == m0.next_waypoint
}

/// What a route lookup does: from pool `p0` and person `m0` to pool `p1`,
/// person `m1` and result `r`, for a move to `target`.
pub open spec fn route_effect(
    map: &RegionMap,
    cache: &FailureCache,
    p0: &SegmentPool,
    p1: &SegmentPool,
    m0: PersonMovement,
    m1: PersonMovement,
    target: WorldCoord,
    r: RouteResult,
) -> bool {
    let src = m0.position.tile_spec();
    let dst = target.tile_spec();
    &&& m1.target_pos == target
    &&& m1.position == m0.position
    &&& m1.movement_dest == m0.movement_dest
    &&& m1.flags1 == m0.flags1
    &&& if map.region_spec(src) == map.region_spec(dst) {
        &&& r == RouteResult::DirectWalk
        &&& m1.next_waypoint == target
        &&& m1.segment_index == 0
        &&& m1.waypoint_idx == 0
        &&& p1.same_as(p0)
    } else if p0.has_live_match(src, dst) {
        &&& r matches RouteResult::Segment(i) && p0.first_live_match(i as int, src, dst)
            && p1.segments@ == p0.segments@.update(
                i as int,
                RouteSegment { ref_count: (p0.segments@[i as int].ref_count + 1) as i16, ..p0.segments@[i as int] },
            ) && follows_segment(p1, m1, i as int, target)
        &&& p1.next_free_hint == p0.next_free_hint
        &&& p1.last_assigned == p0.last_assigned
        &&& p1.active_count == p0.active_count
        &&& p1.force_route == p0.force_route
    } else if cache.failed_spec(src, dst) {
        no_route(p0, p1, m0, m1, r)
    } else {
        let o = pathfind_outcome(map, src, dst);
        if o is Some && o->0.len() > 0 && !p0.full() {
            &&& r matches RouteResult::Segment(i) && p0.next_free(i as int)
                && p1.segments@ == p0.segments@.update(i as int, p1.segments@[i as int])
                && stored_segment(p0.segments@[i as int], p1.segments@[i as int], src, dst, o->0)
                && p1.next_free_hint == (i as int % (MAX_SEGMENTS - 1) as int) + 1
                && p1.last_assigned == i
                && follows_segment(p1, m1, i as int, target)
            &&& p1.active_count == p0.active_count + 1
            &&& p1.force_route == p0.force_route
        } else {
            no_route(p0, p1, m0, m1, r)
        }
    }
}

/// Look up the route from the person's position to `target`, storing the
/// target and setting the person's segment, waypoint index and next
/// waypoint.
///
/// - Same region at both ends: a direct walk to the target.
/// - Otherwise, the first cached segment in use for the route is shared
///   (one more reference) and its first waypoint (or the target, when it
///   has none) becomes the next waypoint.
/// - Otherwise a route in the failure cache gets no route.
/// - Otherwise the pathfinder runs; a path found is stored in a newly
///   allocated segment (one reference) that is followed from its first
///   waypoint. No path, or no free segment, gives no route.
pub fn route_table_lookup(
    region_map: &RegionMap,
    segment_pool: &mut SegmentPool,
    failure_cache: &FailureCache,
    person: &mut PersonMovement,
    target: WorldCoord,
) -> (r: RouteResult)
    requires
        region_map.wf(),
        old(segment_pool).wf(),
        old(segment_pool).active_count < i16::MAX,
        forall|i: int| 0 <= i < MAX_SEGMENTS ==> (#[trigger] old(segment_pool).segments@[i]).ref_count < i16::MAX,
    ensures
        final(segment_pool).wf(),
        route_effect(region_map, failure_cache, old(segment_pool), final(segment_pool), *old(person), *final(person), target, r),
{
    person.target_pos = target;
    let src_tile = person.position.to_tile();
    let dst_tile = target.to_tile();
    let src_region = region_map.region_at(src_tile);
    let dst_region = region_map.region_at(dst_tile);
    if src_region == dst_region {
        person.next_waypoint = target;
        person.segment_index = 0;
        person.waypoint_idx = 0;
        return RouteResult::DirectWalk;
    }
    // Tier 2: a cached segment for this route.
    if let Some(seg_idx) = segment_pool.find_existing(src_tile, dst_tile) {
        proof {
            assert(old(segment_pool).live_match(seg_idx as int, src_tile, dst_tile));
            assert(old(segment_pool).first_live_match(seg_idx as int, src_tile, dst_tile));
        }
        segment_pool.add_ref(seg_idx);
        person.segment_index = seg_idx;
        person.waypoint_idx = 0;
        match segment_pool.get_waypoint(seg_idx, 0) {
            Some(first_wp) => {
                person.next_waypoint = first_wp;
            },
            None => {
                person.next_waypoint = target;
            },
        }
        return RouteResult::Segment(seg_idx);
    }
    // Tier 3: a route that failed recently.
    if failure_cache.is_failed(src_tile, dst_tile) {
        person.segment_index = 0;
        person.waypoint_idx = 0;
        return RouteResult::NoRoute;
    }
    // Tier 4: the pathfinder.
    let found = pathfind(region_map, src_tile, dst_tile);
    if let PathfindResult::Found(waypoints) = found {
        if waypoints.len() > 0 {
            if let Some(seg_idx) = segment_pool.allocate() {
                proof {
                    assert(old(segment_pool).next_free(seg_idx as int));
                }
                segment_pool.add_ref(seg_idx);
                let idx = seg_idx as usize;
                let mut seg = segment_pool.segments[idx];
                seg.start_tile_x = src_tile.x;
                seg.start_tile_z = src_tile.z;
                seg.end_tile_x = dst_tile.x;
                seg.end_tile_z = dst_tile.z;
                let count = if waypoints.len() < MAX_WAYPOINTS { waypoints.len() } else { MAX_WAYPOINTS };
                seg.waypoint_count = count as u8;
                let ghost s0 = seg;
                let mut k: usize = 0;
                while k < count
                    invariant
                        count <= MAX_WAYPOINTS,
                        count <= waypoints@.len(),
                        k <= count,
                        seg.start_tile_x == src_tile.x && seg.start_tile_z == src_tile.z,
                        seg.end_tile_x == dst_tile.x && seg.end_tile_z == dst_tile.z,
                        seg.ref_count == s0.ref_count,
                        seg.flags == s0.flags,
                        seg.waypoint_count == s0.waypoint_count,
                        forall|j: int| 0 <= j < k ==> #[trigger] seg.waypoints[j] == waypoints@[j],
                        forall|j: int| k <= j < MAX_WAYPOINTS ==> #[trigger] seg.waypoints[j] == s0.waypoints[j],
                    decreases count - k,
                {
                    seg.waypoints[k] = waypoints[k];
                    k += 1;
                }
                segment_pool.segments.set(idx, seg);
                proof {
                    assert(segment_pool.segments@ =~= old(segment_pool).segments@.update(idx as int, seg));
                    assert(seg.ref_count == 1);
                    assert(seg.waypoint_count == count);
                    assert(stored_segment(old(segment_pool).segments@[idx as int], seg, src_tile, dst_tile, waypoints@));
                }
                person.segment_index = seg_idx;
                person.waypoint_idx = 0;
                match segment_pool.get_waypoint(seg_idx, 0) {
                    Some(first_wp) => {
                        person.next_waypoint = first_wp;
                    },
                    None => {
                        person.next_waypoint = target;
                    },
                }
                return RouteResult::Segment(seg_idx);
            }
        }
    }
    person.segment_index = 0;
    person.waypoint_idx = 0;
    RouteResult::NoRoute
}

/// The target after `adjust_target_for_walkability`: a walkable target
/// stays; otherwise the centre of `snap_target`, or the target itself when
/// there is none.
pub open spec fn adjusted_target(map: &RegionMap, used: Seq<TileCoord>, target: WorldCoord) -> WorldCoord {
    if map.walkable_spec(target.tile_spec()) {
        target
    } else {
        match snap_target(map, used, target.tile_spec(), 0) {
            Some(c) => c.world_spec(),
            None => target,
        }
    }
}

/// The handed-out tiles after `adjust_target_for_walkability`.
pub open spec fn adjusted_used(map: &RegionMap, used: Seq<TileCoord>, target: WorldCoord) -> Seq<TileCoord> {
    if map.walkable_spec(target.tile_spec()) {
        used
    } else {
        match snap_target(map, used, target.tile_spec(), 0) {
            Some(c) => used.push(c),
            None => used,
        }
    }
}

/// The move order dispatcher: snap the target to walkable ground, look up
/// the route, steer to the next waypoint and mark the person as moving.
pub fn state_goto(
    region_map: &RegionMap,
    segment_pool: &mut SegmentPool,
    failure_cache: &FailureCache,
    person: &mut PersonMovement,
    target: WorldCoord,
    used_targets: &mut UsedTargetsCache,
) -> (r: RouteResult)
    requires
        region_map.wf(),
        old(segment_pool).wf(),
        old(segment_pool).active_count < i16::MAX,
        forall|i: int| 0 <= i < MAX_SEGMENTS ==> (#[trigger] old(segment_pool).segments@[i]).ref_count < i16::MAX,
    ensures
        final(segment_pool).wf(),
        final(person).position == old(person).position,
        final(person).movement_dest == final(person).next_waypoint,
        final(person).flags1 == PersonMovement::goto_flags_spec(old(person).flags1),
        region_map.walkable_spec(target.tile_spec()) ==> final(person).target_pos == target,
        region_map.region_spec(old(person).position.tile_spec()) == region_map.region_spec(final(person).target_pos.tile_spec()) ==> (
            r == RouteResult::DirectWalk && final(person).next_waypoint == final(person).target_pos && final(person).segment_index == 0),
        final(person).target_pos != target ==> region_map.walkable_spec(final(person).target_pos.tile_spec()),
        final(used_targets)@ == adjusted_used(region_map, old(used_targets)@, target),
        route_effect(
            region_map,
            failure_cache,
            old(segment_pool),
            final(segment_pool),
            *old(person),
            PersonMovement { movement_dest: old(person).movement_dest, flags1: old(person).flags1, ..*final(person) },
            adjusted_target(region_map, old(used_targets)@, target),
            r,
        ),
{
    let mut adjusted_target = target;
    adjust_target_for_walkability(region_map, person, &mut adjusted_target, used_targets);
    let result = route_table_lookup(region_map, segment_pool, failure_cache, person, adjusted_target);
    person.movement_dest = person.next_waypoint;
    person.set_goto_flags();
    result
}

} // verus!
