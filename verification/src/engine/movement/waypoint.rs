//! Per-tick waypoint stepping along a route segment. It only updates where
//! the person heads next; moving the position is done elsewhere.

use vstd::prelude::*;

use super::constants::{MAX_SEGMENTS, SEGMENT_FLAG_PERSISTENT, WAYPOINT_ARRIVAL_THRESHOLD, WORLD_SIZE, WORLD_WRAP_THRESHOLD};
use super::math::abs_int;
use super::segment::SegmentPool;
use super::types::{PersonMovement, RouteSegment, WorldCoord};

verus! {

/// Outcome of one tick of waypoint stepping.
#[derive(Debug, Clone, Copy, PartialEq, Eq, Structural)]
pub enum WaypointResult {
    /// No segment is being followed.
    NoSegment,
    /// Still heading for the current waypoint.
    InProgress,
    /// Moved on to the next waypoint.
    Advanced,
    /// The last waypoint was reached and the segment released.
    Completed,
}

/// Distance along one axis on the torus (a difference longer than half the
/// world is taken the other way round).
pub open spec fn axis_distance(a: i16, b: i16) -> int {
    let d = abs_int(a - b);
    if d > WORLD_WRAP_THRESHOLD { WORLD_SIZE - d } else { d }
}

/// Whether `pos` is within the arrival threshold of `wp` on both axes.
pub open spec fn arrived_at(pos: WorldCoord, wp: WorldCoord) -> bool {
    axis_distance(pos.x, wp.x) <= WAYPOINT_ARRIVAL_THRESHOLD && axis_distance(pos.z, wp.z) <= WAYPOINT_ARRIVAL_THRESHOLD
}

/// The segment after its user released it: one reference less; at zero or
/// below a non-persistent segment's count is set to zero.
pub open spec fn released_segment(seg: RouteSegment) -> RouteSegment {
    let c = seg.ref_count - 1;
    RouteSegment {
        ref_count: if c <= 0 && seg.flags & SEGMENT_FLAG_PERSISTENT == 0 { 0 } else { c as i16 },
        ..seg
    }
}

/// The person after giving up its segment: no segment, waypoint 0, heading
/// straight for its target, moving.
pub open spec fn person_after_release(p: PersonMovement) -> PersonMovement {
    PersonMovement {
        segment_index: 0,
        waypoint_idx: 0,
        next_waypoint: p.target_pos,
        movement_dest: p.target_pos,
        flags1: PersonMovement::goto_flags_spec(p.flags1),
        ..p
    }
}

/// Release the person's segment after its last waypoint: one reference
/// less (a non-persistent segment whose count drops to zero is cleared and
/// every segment whose count drops to zero stops being active), and the
/// person walks straight to its final target.
pub fn release_segment(segment_pool: &mut SegmentPool, person: &mut PersonMovement)
    requires
        old(segment_pool).wf(),
        (old(person).segment_index as int) < MAX_SEGMENTS ==> old(segment_pool).segments@[old(person).segment_index as int].ref_count > i16::MIN,
        (old(person).segment_index as int) < MAX_SEGMENTS && old(segment_pool).segments@[old(person).segment_index as int].ref_count <= 1
            ==> old(segment_pool).active_count > i16::MIN,
    ensures
        final(segment_pool).wf(),
        *final(person) == person_after_release(*old(person)),
        ({
            let i = old(person).segment_index as int;
            if i < MAX_SEGMENTS {
                &&& final(segment_pool).segments@ == old(segment_pool).segments@.update(i, released_segment(old(segment_pool).segments@[i]))
                &&& final(segment_pool).active_count == if old(segment_pool).segments@[i].ref_count - 1 <= 0 { old(segment_pool).active_count - 1 } else { old(segment_pool).active_count as int }
            } else {
                &&& final(segment_pool).segments@ == old(segment_pool).segments@
                &&& final(segment_pool).active_count == old(segment_pool).active_count
            }
        }),
        final(segment_pool).next_free_hint == old(segment_pool).next_free_hint,
        final(segment_pool).last_assigned == old(segment_pool).last_assigned,
        final(segment_pool).force_route == old(segment_pool).force_route,
{
    let idx = person.segment_index as usize;
    if idx < segment_pool.segments.len() {
        let mut seg = segment_pool.segments[idx];
        seg.ref_count -= 1;
        let deactivate = if seg.ref_count <= 0 {
            if seg.flags & SEGMENT_FLAG_PERSISTENT == 0 {
                seg.ref_count = 0;
            }
            true
        } else {
            false
        };
        segment_pool.segments.set(idx, seg);
        if deactivate {
            segment_pool.active_count -= 1;
        }
    }
    person.segment_index = 0;
    person.waypoint_idx = 0;
    person.next_waypoint = person.target_pos;
    person.movement_dest = person.target_pos;
    person.set_goto_flags();
}

/// One tick of waypoint stepping.
///
/// Without a segment nothing happens. When the current waypoint does not
/// exist (index past the segment's count) the segment is released and the
/// route completed. While the person is farther than the arrival threshold
/// from the waypoint on either axis it keeps going. On arrival it moves on
/// to the next waypoint, or, at the last one, releases the segment.
pub fn process_route_movement(segment_pool: &mut SegmentPool, person: &mut PersonMovement) -> (r: WaypointResult)
    requires
        old(segment_pool).wf(),
        (old(person).segment_index as int) < MAX_SEGMENTS ==> old(segment_pool).segments@[old(person).segment_index as int].ref_count > i16::MIN,
        (old(person).segment_index as int) < MAX_SEGMENTS && old(segment_pool).segments@[old(person).segment_index as int].ref_count <= 1
            ==> old(segment_pool).active_count > i16::MIN,
    ensures
        final(segment_pool).wf(),
        final(segment_pool).next_free_hint == old(segment_pool).next_free_hint,
        final(segment_pool).last_assigned == old(segment_pool).last_assigned,
        final(segment_pool).force_route == old(segment_pool).force_route,
        final(segment_pool).active_count == if r == WaypointResult::Completed
            && old(segment_pool).segments@[old(person).segment_index as int].ref_count - 1 <= 0 {
            old(segment_pool).active_count - 1
        } else {
            old(segment_pool).active_count as int
        },
        ({
            let si = old(person).segment_index as int;
            let seg = old(segment_pool).segments@[si];
            let wi = old(person).waypoint_idx;
            if si == 0 {
                r == WaypointResult::NoSegment && *final(person) == *old(person) && final(segment_pool).segments@ == old(segment_pool).segments@
            } else if si >= MAX_SEGMENTS {
                &&& r == WaypointResult::NoSegment
                &&& *final(person) == PersonMovement { segment_index: 0, waypoint_idx: 0, ..*old(person) }
                &&& final(segment_pool).segments@ == old(segment_pool).segments@
            } else {
                match seg.waypoint_world_spec(wi) {
                    None => r == WaypointResult::Completed && *final(person) == person_after_release(*old(person))
                        && final(segment_pool).segments@ == old(segment_pool).segments@.update(si, released_segment(seg)),
                    Some(wp) => if !arrived_at(old(person).position, wp) {
                        r == WaypointResult::InProgress && *final(person) == *old(person) && final(segment_pool).segments@ == old(segment_pool).segments@
                    } else if wi + 1 >= seg.waypoint_count {
                        r == WaypointResult::Completed && *final(person) == person_after_release(*old(person))
                            && final(segment_pool).segments@ == old(segment_pool).segments@.update(si, released_segment(seg))
                    } else {
                        &&& r == WaypointResult::Advanced
                        &&& final(segment_pool).segments@ == old(segment_pool).segments@
                        &&& final(person).waypoint_idx == wi + 1
                        &&& final(person).segment_index == old(person).segment_index
                        &&& final(person).position == old(person).position
                        &&& final(person).target_pos == old(person).target_pos
                        &&& final(person).flags1 == PersonMovement::goto_flags_spec(old(person).flags1)
                        &&& (seg.waypoint_world_spec((wi + 1) as u8) matches Some(n) ==> final(person).next_waypoint == n && final(person).movement_dest == n)
                    },
                }
            }
        }),
{
    if person.segment_index == 0 {
        return WaypointResult::NoSegment;
    }
    let seg_idx = person.segment_index;
    let (waypoint_count, current_wp) = match segment_pool.get(seg_idx) {
        Some(seg) => {
            let wp_count = seg.waypoint_count;
            let wp = if person.waypoint_idx < wp_count {
                seg.get_waypoint_world(person.waypoint_idx)
            } else {
                None
            };
            (wp_count, wp)
        },
        None => {
            person.segment_index = 0;
            person.waypoint_idx = 0;
            return WaypointResult::NoSegment;
        },
    };
    let current_wp = match current_wp {
        Some(wp) => wp,
        None => {
            release_segment(segment_pool, person);
            return WaypointResult::Completed;
        },
    };
    let ddx = person.position.x as i32 - current_wp.x as i32;
    let ddz = person.position.z as i32 - current_wp.z as i32;
    let dx = if ddx < 0 { -ddx } else { ddx };
    let dz = if ddz < 0 { -ddz } else { ddz };
    let dx = if dx > WORLD_WRAP_THRESHOLD { WORLD_SIZE - dx } else { dx };
    let dz = if dz > WORLD_WRAP_THRESHOLD { WORLD_SIZE - dz } else { dz };
    let threshold = WAYPOINT_ARRIVAL_THRESHOLD;
    if dx > threshold || dz > threshold {
        return WaypointResult::InProgress;
    }
    let next_idx = person.waypoint_idx + 1;
    if next_idx >= waypoint_count {
        release_segment(segment_pool, person);
        WaypointResult::Completed
    } else {
        person.waypoint_idx = next_idx;
        if let Some(next_wp) = segment_pool.get_waypoint(seg_idx, next_idx) {
            person.next_waypoint = next_wp;
            person.movement_dest = next_wp;
        }
        person.set_goto_flags();
        WaypointResult::Advanced
    }
}

} // verus!
