//! The route segment pool (cached paths shared by reference count) and the
//! cache of recently failed routes.

use vstd::prelude::*;

use super::constants::{FAILURE_CACHE_SIZE, MAX_SEGMENTS};
use super::types::{FailureCacheEntry, RouteSegment, TileCoord, WorldCoord};

verus! {

/// Slot examined `k` steps into a circular scan that starts at `start`
/// (slot 0 is never visited).
pub open spec fn circular_slot(start: int, k: int) -> int {
    ((start - 1 + k) % (MAX_SEGMENTS - 1) as int) + 1
}

/// Every slot 1..MAX_SEGMENTS is reached by a circular scan within
/// MAX_SEGMENTS - 1 steps.
pub proof fn lemma_circular_cover(start: int, j: int) -> (k: int)
    requires
        start >= 1,
        1 <= j < MAX_SEGMENTS,
    ensures
        0 <= k < MAX_SEGMENTS - 1,
        circular_slot(start, k) == j,
{
    let a = (start - 1) % 399;
    let q = (start - 1) / 399;
    assert(start - 1 == 399 * q + a && 0 <= a < 399) by (nonlinear_arith)
        requires a == (start - 1) % 399, q == (start - 1) / 399, start >= 1;
    let k = if j - 1 - a >= 0 { j - 1 - a } else { j - 1 - a + 399 };
    let t = start - 1 + k;
    if j - 1 - a >= 0 {
        assert(t == 399 * q + (j - 1));
    } else {
        assert(t == 399 * (q + 1) + (j - 1));
    }
    assert(t % 399 == j - 1) by (nonlinear_arith)
        requires t == 399 * q + (j - 1) || t == 399 * (q + 1) + (j - 1), 0 <= j - 1 < 399;
    k
}

/// Slot where a circular scan starts for a given hint (at least 1).
pub open spec fn scan_start(hint: i16) -> int {
    if hint < 1 { 1 } else { hint as int }
}

/// The route segment pool: a circular buffer of `MAX_SEGMENTS` slots, slot 0
/// being the "no segment" sentinel.
pub struct SegmentPool {
    /// The segment slots.
    pub segments: Vec<RouteSegment>,
    /// Where the next circular scan for a free slot starts.
    pub next_free_hint: i16,
    /// Last slot handed out.
    pub last_assigned: i16,
    /// Number of slots handed out and not yet released.
    pub active_count: i16,
    /// Force-route flag.
    pub force_route: bool,
}

impl SegmentPool {
    pub open spec fn wf(&self) -> bool {
        self.segments@.len() == MAX_SEGMENTS
    }

    /// Two pools with the same slots and bookkeeping.
    pub open spec fn same_as(&self, other: &SegmentPool) -> bool {
        &&& self.segments@ == other.segments@
        &&& self.next_free_hint == other.next_free_hint
        &&& self.last_assigned == other.last_assigned
        &&& self.active_count == other.active_count
        &&& self.force_route == other.force_route
    }

    /// Slot `i` is in use and holds a segment from `src` to `dst`.
    pub open spec fn live_match(&self, i: int, src: TileCoord, dst: TileCoord) -> bool {
        1 <= i < MAX_SEGMENTS && self.segments@[i].ref_count > 0 && self.segments@[i].matches_spec(src, dst)
    }

    /// Some slot is in use for the route from `src` to `dst`.
    pub open spec fn has_live_match(&self, src: TileCoord, dst: TileCoord) -> bool {
        exists|i: int| #[trigger] self.live_match(i, src, dst)
    }

    /// Slot `i` is the first slot in use for the route.
    pub open spec fn first_live_match(&self, i: int, src: TileCoord, dst: TileCoord) -> bool {
        self.live_match(i, src, dst) && forall|j: int| 1 <= j < i ==> !#[trigger] self.live_match(j, src, dst)
    }

    /// Every slot but the sentinel is in use.
    pub open spec fn full(&self) -> bool {
        forall|j: int| 1 <= j < MAX_SEGMENTS ==> !(#[trigger] self.segments@[j]).is_free_spec()
    }

    /// Slot `i` is the first free slot of the circular scan from the hint,
    /// the one `allocate` hands out.
    pub open spec fn next_free(&self, i: int) -> bool {
        &&& 1 <= i < MAX_SEGMENTS
        &&& self.segments@[i].is_free_spec()
        &&& exists|k: int| 0 <= k < MAX_SEGMENTS - 1 && circular_slot(scan_start(self.next_free_hint), k) == i
            && forall|k2: int| 0 <= k2 < k ==> !(#[trigger] self.segments@[circular_slot(scan_start(self.next_free_hint), k2)]).is_free_spec()
    }

    /// A pool of empty slots; scanning starts at slot 1.
    pub fn new() -> (r: Self)
        ensures
            r.wf(),
            forall|i: int| 0 <= i < MAX_SEGMENTS ==> #[trigger] r.segments@[i].ref_count == 0 && r.segments@[i].waypoint_count == 0 && r.segments@[i].flags == 0,
            r.next_free_hint == 1,
            r.last_assigned == 0,
            r.active_count == 0,
            !r.force_route,
    {
        let mut segments: Vec<RouteSegment> = Vec::new();
        let mut i: usize = 0;
        while i < MAX_SEGMENTS
            invariant
                i <= MAX_SEGMENTS,
                segments@.len() == i,
                forall|j: int| 0 <= j < i ==> #[trigger] segments@[j].ref_count == 0 && segments@[j].waypoint_count == 0 && segments@[j].flags == 0,
            decreases MAX_SEGMENTS - i,
        {
            segments.push(RouteSegment::default());
            i += 1;
        }
        SegmentPool { segments, next_free_hint: 1, last_assigned: 0, active_count: 0, force_route: false }
    }

    /// The first slot (from 1 up) in use that leads from `src` to `dst` (or
    /// back, for a bidirectional segment).
    pub fn find_existing(&self, src: TileCoord, dst: TileCoord) -> (r: Option<u16>)
        requires
            self.wf(),
        ensures
            r matches Some(i) ==> {
                &&& 1 <= i < MAX_SEGMENTS
                &&& self.segments@[i as int].ref_count > 0
                &&& self.segments@[i as int].matches_spec(src, dst)
                &&& forall|j: int| 1 <= j < i ==> !(#[trigger] self.segments@[j].ref_count > 0 && self.segments@[j].matches_spec(src, dst))
            },
            r is None ==> forall|j: int| 1 <= j < MAX_SEGMENTS ==> !(#[trigger] self.segments@[j].ref_count > 0 && self.segments@[j].matches_spec(src, dst)),
    {
        let mut i: usize = 1;
        while i < self.segments.len()
            invariant
                self.wf(),
                1 <= i <= MAX_SEGMENTS,
                forall|j: int| 1 <= j < i ==> !(#[trigger] self.segments@[j].ref_count > 0 && self.segments@[j].matches_spec(src, dst)),
            decreases MAX_SEGMENTS - i,
        {
            if self.segments[i].ref_count > 0 && self.segments[i].matches_bidirectional(src, dst) {
                return Some(i as u16);
            }
            i += 1;
        }
        None
    }

    /// Hand out the first free slot in a circular scan from the hint (never
    /// slot 0). The slot's count is reset to 0, the hint moves past it and the
    /// active count grows by one. `None` when every slot is in use.
    pub fn allocate(&mut self) -> (r: Option<u16>)
        requires
            old(self).wf(),
            old(self).active_count < i16::MAX,
        ensures
            final(self).wf(),
            final(self).force_route == old(self).force_route,
            r matches Some(i) ==> {
                &&& 1 <= i < MAX_SEGMENTS
                &&& exists|k: int| 0 <= k < MAX_SEGMENTS - 1 && circular_slot(scan_start(old(self).next_free_hint), k) == i
                    && forall|k2: int| 0 <= k2 < k ==> !(#[trigger] old(self).segments@[circular_slot(scan_start(old(self).next_free_hint), k2)]).is_free_spec()
                &&& old(self).segments@[i as int].is_free_spec()
                &&& final(self).segments@ == old(self).segments@.update(i as int, RouteSegment { ref_count: 0, ..old(self).segments@[i as int] })
                &&& final(self).next_free_hint == (i as int % (MAX_SEGMENTS - 1) as int) + 1
                &&& final(self).last_assigned == i
                &&& final(self).active_count == old(self).active_count + 1
            },
            r is None ==> {
                &&& forall|j: int| 1 <= j < MAX_SEGMENTS ==> !(#[trigger] old(self).segments@[j]).is_free_spec()
                &&& final(self).segments@ == old(self).segments@
                &&& final(self).next_free_hint == old(self).next_free_hint
                &&& final(self).last_assigned == old(self).last_assigned
                &&& final(self).active_count == old(self).active_count
            },
    {
        let start: usize = if self.next_free_hint < 1 { 1 } else { self.next_free_hint as usize };
        let mut offset: usize = 0;
        while offset < MAX_SEGMENTS - 1
            invariant
                self.wf(),
                self.segments@ == old(self).segments@,
                self.next_free_hint == old(self).next_free_hint,
                self.active_count == old(self).active_count,
                self.last_assigned == old(self).last_assigned,
                self.force_route == old(self).force_route,
                old(self).active_count < i16::MAX,
                start == scan_start(old(self).next_free_hint),
                1 <= start <= i16::MAX,
                offset <= MAX_SEGMENTS - 1,
                forall|k2: int| 0 <= k2 < offset ==> !(#[trigger] old(self).segments@[circular_slot(start as int, k2)]).is_free_spec(),
            decreases MAX_SEGMENTS - 1 - offset,
        {
            let idx = ((start - 1 + offset) % (MAX_SEGMENTS - 1)) + 1;
            if self.segments[idx].is_free() {
                let mut seg = self.segments[idx];
                seg.ref_count = 0;
                self.segments.set(idx, seg);
                self.next_free_hint = ((idx % (MAX_SEGMENTS - 1)) + 1) as i16;
                self.last_assigned = idx as i16;
                self.active_count += 1;
                assert(circular_slot(start as int, offset as int) == idx);
                assert(0 <= offset < MAX_SEGMENTS - 1 && circular_slot(start as int, offset as int) == idx
                    && forall|k2: int| 0 <= k2 < offset ==> !(#[trigger] old(self).segments@[circular_slot(start as int, k2)]).is_free_spec());
                return Some(idx as u16);
            }
            offset += 1;
        }
        proof {
            assert forall|j: int| 1 <= j < MAX_SEGMENTS implies !(#[trigger] old(self).segments@[j]).is_free_spec() by {
                let k = lemma_circular_cover(start as int, j);
                assert(circular_slot(start as int, k) == j);
            }
        }
        None
    }

    /// Count one more user of a slot (slots beyond the pool are ignored).
    pub fn add_ref(&mut self, index: u16)
        requires
            old(self).wf(),
            (index as int) < MAX_SEGMENTS ==> old(self).segments@[index as int].ref_count < i16::MAX,
        ensures
            final(self).wf(),
            final(self).next_free_hint == old(self).next_free_hint,
            final(self).last_assigned == old(self).last_assigned,
            final(self).active_count == old(self).active_count,
            final(self).force_route == old(self).force_route,
            (index as int) < MAX_SEGMENTS ==> final(self).segments@ == old(self).segments@.update(
                index as int,
                RouteSegment { ref_count: (old(self).segments@[index as int].ref_count + 1) as i16, ..old(self).segments@[index as int] },
            ),
            (index as int) >= MAX_SEGMENTS ==> final(self).segments@ == old(self).segments@,
    {
        if (index as usize) < MAX_SEGMENTS {
            let mut seg = self.segments[index as usize];
            seg.ref_count += 1;
            self.segments.set(index as usize, seg);
        }
    }

    /// Count one user less of a slot. When the count drops to zero or below,
    /// it is set to zero and the slot stops being active.
    pub fn release(&mut self, index: u16)
        requires
            old(self).wf(),
            (index as int) < MAX_SEGMENTS ==> old(self).segments@[index as int].ref_count > i16::MIN,
            (index as int) < MAX_SEGMENTS && old(self).segments@[index as int].ref_count <= 1 ==> old(self).active_count > i16::MIN,
        ensures
            final(self).wf(),
            final(self).next_free_hint == old(self).next_free_hint,
            final(self).last_assigned == old(self).last_assigned,
            final(self).force_route == old(self).force_route,
            ({
                let old_count = old(self).segments@[index as int].ref_count;
                if (index as int) < MAX_SEGMENTS {
                    &&& final(self).segments@ == old(self).segments@.update(
                        index as int,
                        RouteSegment { ref_count: if old_count - 1 <= 0 { 0 } else { (old_count - 1) as i16 }, ..old(self).segments@[index as int] },
                    )
                    &&& final(self).active_count == if old_count - 1 <= 0 { old(self).active_count - 1 } else { old(self).active_count as int }
                } else {
                    &&& final(self).segments@ == old(self).segments@
                    &&& final(self).active_count == old(self).active_count
                }
            }),
    {
        let idx = index as usize;
        if idx < MAX_SEGMENTS {
            let mut seg = self.segments[idx];
            seg.ref_count -= 1;
            if seg.ref_count <= 0 {
                seg.ref_count = 0;
                self.active_count -= 1;
            }
            self.segments.set(idx, seg);
        }
    }

    /// The segment in a slot.
    pub fn get(&self, index: u16) -> (r: Option<&RouteSegment>)
        ensures
            (index as int) < self.segments@.len() ==> r == Some(&self.segments@[index as int]),
            (index as int) >= self.segments@.len() ==> r is None,
    {
        if (index as usize) < self.segments.len() {
            Some(&self.segments[index as usize])
        } else {
            None
        }
    }

    /// Mutable access to the segment in a slot.
    pub fn get_mut(&mut self, index: u16) -> (r: Option<&mut RouteSegment>)
        ensures
            (index as int) < old(self).segments@.len() ==> (r matches Some(s) && *s == old(self).segments@[index as int]
                && final(self).segments@ == old(self).segments@.update(index as int, *final(s))),
            (index as int) >= old(self).segments@.len() ==> r is None && final(self).segments@ == old(self).segments@,
            final(self).next_free_hint == old(self).next_free_hint,
            final(self).last_assigned == old(self).last_assigned,
            final(self).active_count == old(self).active_count,
            final(self).force_route == old(self).force_route,
    {
        if (index as usize) < self.segments.len() {
            Some(&mut self.segments[index as usize])
        } else {
            None
        }
    }

    /// World position of waypoint `wp_index` of a slot's segment.
    pub fn get_waypoint(&self, seg_index: u16, wp_index: u8) -> (r: Option<WorldCoord>)
        ensures
            (seg_index as int) < self.segments@.len() ==> r == self.segments@[seg_index as int].waypoint_world_spec(wp_index),
            (seg_index as int) >= self.segments@.len() ==> r is None,
    {
        match self.get(seg_index) {
            Some(seg) => seg.get_waypoint_world(wp_index),
            None => None,
        }
    }
}

impl Default for SegmentPool {
    fn default() -> (r: Self)
        ensures
            r.wf(),
            r.active_count == 0,
    {
        SegmentPool::new()
    }
}

/// Cache of recently failed routes, so that an impossible route is not
/// searched again and again.
pub struct FailureCache {
    entries: [FailureCacheEntry; FAILURE_CACHE_SIZE],
}

pub open spec fn new_failure_entry(src: TileCoord, dst: TileCoord) -> FailureCacheEntry {
    FailureCacheEntry { usage_count: 1, src_tile_x: src.x, src_tile_z: src.z, dst_tile_x: dst.x, dst_tile_z: dst.z }
}

pub open spec fn empty_failure_entry() -> FailureCacheEntry {
    FailureCacheEntry { usage_count: 0, src_tile_x: 0, src_tile_z: 0, dst_tile_x: 0, dst_tile_z: 0 }
}

impl View for FailureCache {
    type V = Seq<FailureCacheEntry>;

    closed spec fn view(&self) -> Seq<FailureCacheEntry> {
        self.entries@
    }
}

impl FailureCache {
    pub open spec fn failed_spec(&self, src: TileCoord, dst: TileCoord) -> bool {
        exists|i: int| 0 <= i < self@.len() && #[trigger] self@[i].matches_spec(src, dst)
    }

    pub proof fn lemma_len(&self)
        ensures
            self@.len() == FAILURE_CACHE_SIZE,
    {
    }

    /// An empty cache.
    pub fn new() -> (r: Self)
        ensures
            r@.len() == FAILURE_CACHE_SIZE,
            forall|i: int| 0 <= i < FAILURE_CACHE_SIZE ==> #[trigger] r@[i] == empty_failure_entry(),
    {
        FailureCache { entries: [FailureCacheEntry { usage_count: 0, src_tile_x: 0, src_tile_z: 0, dst_tile_x: 0, dst_tile_z: 0 }; FAILURE_CACHE_SIZE] }
    }

    /// Whether the route `src` to `dst` recently failed.
    pub fn is_failed(&self, src: TileCoord, dst: TileCoord) -> (r: bool)
        ensures
            r == self.failed_spec(src, dst),
    {
        let mut i: usize = 0;
        while i < FAILURE_CACHE_SIZE
            invariant
                i <= FAILURE_CACHE_SIZE,
                self@.len() == FAILURE_CACHE_SIZE,
                forall|j: int| 0 <= j < i ==> !(#[trigger] self@[j]).matches_spec(src, dst),
            decreases FAILURE_CACHE_SIZE - i,
        {
            if self.entries[i].matches(src, dst) {
                return true;
            }
            i += 1;
        }
        false
    }

    /// Record a failed route: in the first empty entry or, when none is
    /// empty, over the first entry with the lowest usage count.
    pub fn record_failure(&mut self, src: TileCoord, dst: TileCoord)
        ensures
            final(self)@.len() == FAILURE_CACHE_SIZE,
            exists|i: int| 0 <= i < FAILURE_CACHE_SIZE && final(self)@ == old(self)@.update(i, new_failure_entry(src, dst)) && {
                ||| (old(self)@[i].usage_count == 0 && forall|j: int| 0 <= j < i ==> (#[trigger] old(self)@[j]).usage_count != 0)
                ||| ((forall|j: int| 0 <= j < FAILURE_CACHE_SIZE ==> (#[trigger] old(self)@[j]).usage_count != 0)
                    && (forall|j: int| 0 <= j < FAILURE_CACHE_SIZE ==> old(self)@[i].usage_count <= (#[trigger] old(self)@[j]).usage_count)
                    && (forall|j: int| 0 <= j < i ==> old(self)@[i].usage_count < (#[trigger] old(self)@[j]).usage_count))
            },
    {
        let mut i: usize = 0;
        while i < FAILURE_CACHE_SIZE
            invariant
                i <= FAILURE_CACHE_SIZE,
                self@ == old(self)@,
                self@.len() == FAILURE_CACHE_SIZE,
                forall|j: int| 0 <= j < i ==> (#[trigger] self@[j]).usage_count != 0,
            decreases FAILURE_CACHE_SIZE - i,
        {
            if self.entries[i].is_empty() {
                self.entries[i] = FailureCacheEntry { usage_count: 1, src_tile_x: src.x, src_tile_z: src.z, dst_tile_x: dst.x, dst_tile_z: dst.z };
                assert(self@ == old(self)@.update(i as int, new_failure_entry(src, dst)));
                assert(0 <= i < FAILURE_CACHE_SIZE && self@ == old(self)@.update(i as int, new_failure_entry(src, dst)) && (
                    old(self)@[i as int].usage_count == 0 && forall|j: int| 0 <= j < i ==> (#[trigger] old(self)@[j]).usage_count != 0));
                return;
            }
            i += 1;
        }
        // No empty entry: overwrite the first one with the lowest usage count.
        let mut min_idx: usize = 0;
        let mut k: usize = 1;
        while k < FAILURE_CACHE_SIZE
            invariant
                1 <= k <= FAILURE_CACHE_SIZE,
                min_idx < k,
                self@ == old(self)@,
                self@.len() == FAILURE_CACHE_SIZE,
                forall|j: int| 0 <= j < k ==> self@[min_idx as int].usage_count <= (#[trigger] self@[j]).usage_count,
                forall|j: int| 0 <= j < min_idx ==> self@[min_idx as int].usage_count < (#[trigger] self@[j]).usage_count,
            decreases FAILURE_CACHE_SIZE - k,
        {
            if self.entries[k].usage_count < self.entries[min_idx].usage_count {
                min_idx = k;
            }
            k += 1;
        }
        self.entries[min_idx] = FailureCacheEntry { usage_count: 1, src_tile_x: src.x, src_tile_z: src.z, dst_tile_x: dst.x, dst_tile_z: dst.z };
        assert(self@ == old(self)@.update(min_idx as int, new_failure_entry(src, dst)));
        assert(0 <= min_idx < FAILURE_CACHE_SIZE && self@ == old(self)@.update(min_idx as int, new_failure_entry(src, dst)) && (
            (forall|j: int| 0 <= j < FAILURE_CACHE_SIZE ==> (#[trigger] old(self)@[j]).usage_count != 0)
            && (forall|j: int| 0 <= j < FAILURE_CACHE_SIZE ==> old(self)@[min_idx as int].usage_count <= (#[trigger] old(self)@[j]).usage_count)
            && (forall|j: int| 0 <= j < min_idx ==> old(self)@[min_idx as int].usage_count < (#[trigger] old(self)@[j]).usage_count)));
    }

    /// Count one more use of the first entry that records `src` to `dst`
    /// (saturating at 255).
    pub fn increment(&mut self, src: TileCoord, dst: TileCoord)
        ensures
            final(self)@.len() == FAILURE_CACHE_SIZE,
            !old(self).failed_spec(src, dst) ==> final(self)@ == old(self)@,
            old(self).failed_spec(src, dst) ==> exists|i: int| 0 <= i < FAILURE_CACHE_SIZE
                && old(self)@[i].matches_spec(src, dst)
                && (forall|j: int| 0 <= j < i ==> !(#[trigger] old(self)@[j]).matches_spec(src, dst))
                && final(self)@ == old(self)@.update(i, FailureCacheEntry {
                    usage_count: if old(self)@[i].usage_count == 255 { 255u8 } else { (old(self)@[i].usage_count + 1) as u8 },
                    ..old(self)@[i]
                }),
    {
        let mut i: usize = 0;
        while i < FAILURE_CACHE_SIZE
            invariant
                i <= FAILURE_CACHE_SIZE,
                self@ == old(self)@,
                self@.len() == FAILURE_CACHE_SIZE,
                forall|j: int| 0 <= j < i ==> !(#[trigger] self@[j]).matches_spec(src, dst),
            decreases FAILURE_CACHE_SIZE - i,
        {
            if self.entries[i].matches(src, dst) {
                let mut e = self.entries[i];
                e.usage_count = e.usage_count.saturating_add(1);
                self.entries[i] = e;
                return;
            }
            i += 1;
        }
    }

    /// Forget every failed route.
    pub fn clear(&mut self)
        ensures
            final(self)@.len() == FAILURE_CACHE_SIZE,
            forall|i: int| 0 <= i < FAILURE_CACHE_SIZE ==> #[trigger] final(self)@[i] == empty_failure_entry(),
    {
        self.entries = [FailureCacheEntry { usage_count: 0, src_tile_x: 0, src_tile_z: 0, dst_tile_x: 0, dst_tile_z: 0 }; FAILURE_CACHE_SIZE];
    }
}

impl Default for FailureCache {
    fn default() -> (r: Self)
        ensures
            r@.len() == FAILURE_CACHE_SIZE,
    {
        FailureCache::new()
    }
}

/// A recorded failure is found again: after `record_failure(src, dst)` the
/// cache reports the route `src` to `dst` as failed.
pub proof fn lemma_recorded_failure_is_found(before: FailureCache, after: FailureCache, src: TileCoord, dst: TileCoord)
    requires
        after@.len() == FAILURE_CACHE_SIZE,
        exists|i: int| 0 <= i < FAILURE_CACHE_SIZE && after@ == before@.update(i, new_failure_entry(src, dst)),
    ensures
        after.failed_spec(src, dst),
{
    let i = choose|i: int| 0 <= i < FAILURE_CACHE_SIZE && after@ == before@.update(i, new_failure_entry(src, dst));
    assert(after@[i].matches_spec(src, dst));
}

/// A cleared cache reports no route as failed.
pub proof fn lemma_cleared_cache_has_no_failures(c: FailureCache, src: TileCoord, dst: TileCoord)
    requires
        c@.len() == FAILURE_CACHE_SIZE,
        forall|i: int| 0 <= i < FAILURE_CACHE_SIZE ==> #[trigger] c@[i] == empty_failure_entry(),
    ensures
        !c.failed_spec(src, dst),
{
    assert forall|i: int| 0 <= i < c@.len() implies !(#[trigger] c@[i]).matches_spec(src, dst) by {
        assert(c@[i] == empty_failure_entry());
    }
}

} // verus!
