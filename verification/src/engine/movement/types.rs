use vstd::prelude::*;

use super::constants::{
    FLAG1_BLOCKED, FLAG1_MOVING, MAX_WAYPOINTS, REGION_ID_MASK, SEGMENT_FLAG_BIDIRECTIONAL,
    CELL_HAS_BUILDING,
};

verus! {

/// A position in world units. The world is a torus of `WORLD_SIZE` units per
/// axis; a coordinate is kept as its 16-bit two's complement value.
#[derive(Debug, Clone, Copy, PartialEq, Eq, Structural)]
pub struct WorldCoord {
    pub x: i16,
    pub z: i16,
}

/// A map tile coordinate. Tiles step by two; the low bit selects nothing,
/// so `x >> 1` and `z >> 1` are the cell column and row (0..128).
#[derive(Debug, Clone, Copy, PartialEq, Eq, Structural)]
pub struct TileCoord {
    pub x: u8,
    pub z: u8,
}

/// Tile column (or row) of a world coordinate: the high byte with its low
/// bit cleared.
pub open spec fn world_to_tile_axis(v: i16) -> u8 {
    ((v as u16) / 512 * 2) as u8
}

/// World coordinate at the centre of a tile column (or row).
pub open spec fn tile_to_world_axis(t: u8) -> i16 {
    ((t / 2 * 2 + 1) * 256) as i16
}

/// Index of the 128x128 cell that holds a tile.
pub open spec fn tile_cell_index(x: u8, z: u8) -> int {
    (z / 2) * 128 + (x / 2)
}

impl WorldCoord {
    pub fn new(x: i16, z: i16) -> (r: Self)
        ensures
            r.x == x,
            r.z == z,
    {
        WorldCoord { x, z }
    }

    pub open spec fn tile_spec(self) -> TileCoord {
        TileCoord { x: world_to_tile_axis(self.x), z: world_to_tile_axis(self.z) }
    }

    /// The tile that contains this position.
    pub fn to_tile(&self) -> (r: TileCoord)
        ensures
            r == self.tile_spec(),
    {
        TileCoord { x: ((self.x as u16) / 512 * 2) as u8, z: ((self.z as u16) / 512 * 2) as u8 }
    }
}

impl Default for WorldCoord {
    fn default() -> (r: Self)
        ensures
            r.x == 0,
            r.z == 0,
    {
        WorldCoord { x: 0, z: 0 }
    }
}

impl TileCoord {
    pub fn new(x: u8, z: u8) -> (r: Self)
        ensures
            r.x == x,
            r.z == z,
    {
        TileCoord { x, z }
    }

    pub open spec fn world_spec(self) -> WorldCoord {
        WorldCoord { x: tile_to_world_axis(self.x), z: tile_to_world_axis(self.z) }
    }

    pub open spec fn cell_spec(self) -> int {
        tile_cell_index(self.x, self.z)
    }

    /// The world position at the centre of this tile.
    pub fn to_world(&self) -> (r: WorldCoord)
        ensures
            r == self.world_spec(),
    {
        let x = ((self.x as u16 / 2 * 2 + 1) * 256) as i16;
        let z = ((self.z as u16 / 2 * 2 + 1) * 256) as i16;
        WorldCoord { x, z }
    }

    /// Index of this tile's cell in a 128x128 grid, row-major by z.
    pub fn cell_index(&self) -> (r: usize)
        ensures
            r == self.cell_spec(),
            r < 16384,
    {
        (self.z as usize / 2) * 128 + (self.x as usize / 2)
    }
}

/// The centre of a tile lies in that tile: converting a tile to the world
/// and back clears only the low bit of each axis.
pub proof fn lemma_tile_world_roundtrip(t: TileCoord)
    ensures
        t.world_spec().tile_spec() == (TileCoord { x: (t.x / 2 * 2) as u8, z: (t.z / 2 * 2) as u8 }),
        t.world_spec().tile_spec().cell_spec() == t.cell_spec(),
{
    let x = t.x;
    let z = t.z;
    assert(world_to_tile_axis(tile_to_world_axis(x)) == (x / 2 * 2) as u8) by (bit_vector);
    assert(world_to_tile_axis(tile_to_world_axis(z)) == (z / 2 * 2) as u8) by (bit_vector);
}

/// One waypoint of a route segment, in tile coordinates.
#[derive(Debug, Clone, Copy, PartialEq, Eq, Structural)]
pub struct Waypoint {
    pub tile_x: u8,
    pub tile_z: u8,
    pub flags: u8,
    pub _pad: u8,
}

impl Default for Waypoint {
    fn default() -> (r: Self)
        ensures
            r.tile_x == 0 && r.tile_z == 0 && r.flags == 0 && r._pad == 0,
    {
        Waypoint { tile_x: 0, tile_z: 0, flags: 0, _pad: 0 }
    }
}

/// One cell of the region map.
#[derive(Debug, Clone, Copy, PartialEq, Eq, Structural)]
pub struct RegionMapCell {
    /// Terrain type; its low nibble is the terrain class.
    pub terrain_type: u8,
    /// Cell flags (`CELL_HAS_BUILDING`).
    pub flags_high: u8,
    /// Region id in the low ten bits, other data above.
    pub region_id_raw: u16,
}

impl RegionMapCell {
    pub open spec fn region_id_spec(self) -> u16 {
        self.region_id_raw & REGION_ID_MASK
    }

    pub open spec fn terrain_class_spec(self) -> u8 {
        self.terrain_type & 0x0F
    }

    /// Region id of the cell (ten bits).
    pub fn region_id(&self) -> (r: u16)
        ensures
            r == self.region_id_spec(),
    {
        self.region_id_raw & REGION_ID_MASK
    }

    /// Terrain class of the cell (low nibble of the terrain type).
    pub fn terrain_class(&self) -> (r: u8)
        ensures
            r == self.terrain_class_spec(),
            r < 16,
    {
        let t = self.terrain_type;
        assert(t & 0x0F < 16) by (bit_vector);
        t & 0x0F
    }

    /// Whether a building covers the cell.
    pub fn has_building(&self) -> (r: bool)
        ensures
            r == (self.flags_high & CELL_HAS_BUILDING != 0),
    {
        self.flags_high & CELL_HAS_BUILDING != 0
    }
}

impl Default for RegionMapCell {
    fn default() -> (r: Self)
        ensures
            r.terrain_type == 0 && r.flags_high == 0 && r.region_id_raw == 0,
    {
        RegionMapCell { terrain_type: 0, flags_high: 0, region_id_raw: 0 }
    }
}

/// A cached path between two tiles, shared by reference count.
#[derive(Debug, Clone, Copy)]
pub struct RouteSegment {
    pub ref_count: i16,
    pub flags: u8,
    pub start_tile_x: u8,
    pub start_tile_z: u8,
    pub end_tile_x: u8,
    pub end_tile_z: u8,
    pub waypoint_count: u8,
    pub waypoints: [Waypoint; MAX_WAYPOINTS],
}

impl RouteSegment {
    pub open spec fn is_free_spec(self) -> bool {
        self.ref_count <= 0
    }

    pub open spec fn matches_spec(self, src: TileCoord, dst: TileCoord) -> bool {
        ||| (self.start_tile_x == src.x && self.start_tile_z == src.z && self.end_tile_x == dst.x
            && self.end_tile_z == dst.z)
        ||| (self.flags & SEGMENT_FLAG_BIDIRECTIONAL != 0 && self.start_tile_x == dst.x
            && self.start_tile_z == dst.z && self.end_tile_x == src.x && self.end_tile_z == src.z)
    }

    /// World position of waypoint `i`, when the segment holds that many.
    pub open spec fn waypoint_world_spec(self, i: u8) -> Option<WorldCoord> {
        if (i as int) < self.waypoint_count && (i as int) < MAX_WAYPOINTS {
            Some(
                TileCoord {
                    x: self.waypoints[i as int].tile_x,
                    z: self.waypoints[i as int].tile_z,
                }.world_spec(),
            )
        } else {
            None
        }
    }

    /// A slot is free when no unit references it.
    pub fn is_free(&self) -> (r: bool)
        ensures
            r == self.is_free_spec(),
    {
        self.ref_count <= 0
    }

    /// Whether the segment leads from `src` to `dst` (or back, when it is
    /// bidirectional).
    pub fn matches_bidirectional(&self, src: TileCoord, dst: TileCoord) -> (r: bool)
        ensures
            r == self.matches_spec(src, dst),
    {
        (self.start_tile_x == src.x && self.start_tile_z == src.z && self.end_tile_x == dst.x
            && self.end_tile_z == dst.z) || (self.flags & SEGMENT_FLAG_BIDIRECTIONAL != 0
            && self.start_tile_x == dst.x && self.start_tile_z == dst.z && self.end_tile_x == src.x
            && self.end_tile_z == src.z)
    }

    /// World position of waypoint `i`.
    pub fn get_waypoint_world(&self, i: u8) -> (r: Option<WorldCoord>)
        ensures
            r == self.waypoint_world_spec(i),
    {
        if i < self.waypoint_count && (i as usize) < MAX_WAYPOINTS {
            let wp = self.waypoints[i as usize];
            Some(TileCoord { x: wp.tile_x, z: wp.tile_z }.to_world())
        } else {
            None
        }
    }
}

impl Default for RouteSegment {
    fn default() -> (r: Self)
        ensures
            r.ref_count == 0,
            r.flags == 0,
            r.waypoint_count == 0,
            r.start_tile_x == 0 && r.start_tile_z == 0 && r.end_tile_x == 0 && r.end_tile_z == 0,
    {
        RouteSegment {
            ref_count: 0,
            flags: 0,
            start_tile_x: 0,
            start_tile_z: 0,
            end_tile_x: 0,
            end_tile_z: 0,
            waypoint_count: 0,
            waypoints: [Waypoint { tile_x: 0, tile_z: 0, flags: 0, _pad: 0 }; MAX_WAYPOINTS],
        }
    }
}

/// One entry of the failed-route cache. A usage count of zero marks it empty.
#[derive(Debug, Clone, Copy, PartialEq, Eq, Structural)]
pub struct FailureCacheEntry {
    pub usage_count: u8,
    pub src_tile_x: u8,
    pub src_tile_z: u8,
    pub dst_tile_x: u8,
    pub dst_tile_z: u8,
}

impl FailureCacheEntry {
    pub open spec fn matches_spec(self, src: TileCoord, dst: TileCoord) -> bool {
        self.usage_count != 0 && self.src_tile_x == src.x && self.src_tile_z == src.z
            && self.dst_tile_x == dst.x && self.dst_tile_z == dst.z
    }

    /// Whether the entry is unused.
    pub fn is_empty(&self) -> (r: bool)
        ensures
            r == (self.usage_count == 0),
    {
        self.usage_count == 0
    }

    /// Whether the entry records the route `src` to `dst`.
    pub fn matches(&self, src: TileCoord, dst: TileCoord) -> (r: bool)
        ensures
            r == self.matches_spec(src, dst),
    {
        self.usage_count != 0 && self.src_tile_x == src.x && self.src_tile_z == src.z
            && self.dst_tile_x == dst.x && self.dst_tile_z == dst.z
    }
}

impl Default for FailureCacheEntry {
    fn default() -> (r: Self)
        ensures
            r.usage_count == 0 && r.src_tile_x == 0 && r.src_tile_z == 0 && r.dst_tile_x == 0
                && r.dst_tile_z == 0,
    {
        FailureCacheEntry { usage_count: 0, src_tile_x: 0, src_tile_z: 0, dst_tile_x: 0, dst_tile_z: 0 }
    }
}

/// Movement state of one person.
#[derive(Debug, Clone, Copy, PartialEq, Eq, Structural)]
pub struct PersonMovement {
    /// Current position.
    pub position: WorldCoord,
    /// Final destination of the current move order.
    pub target_pos: WorldCoord,
    /// Next point the person walks towards.
    pub next_waypoint: WorldCoord,
    /// Point the movement system steers to this tick.
    pub movement_dest: WorldCoord,
    /// Route segment being followed (0 = walk directly).
    pub segment_index: u16,
    /// Index of the current waypoint within the segment.
    pub waypoint_idx: u8,
    /// Movement flags (`FLAG1_MOVING`, `FLAG1_BLOCKED`).
    pub flags1: u32,
}

impl PersonMovement {
    pub open spec fn goto_flags_spec(flags: u32) -> u32 {
        (flags | FLAG1_MOVING) & !FLAG1_BLOCKED
    }

    /// Mark the person as moving and not blocked.
    pub fn set_goto_flags(&mut self)
        ensures
            final(self).flags1 == Self::goto_flags_spec(old(self).flags1),
            final(self).position == old(self).position,
            final(self).target_pos == old(self).target_pos,
            final(self).next_waypoint == old(self).next_waypoint,
            final(self).movement_dest == old(self).movement_dest,
            final(self).segment_index == old(self).segment_index,
            final(self).waypoint_idx == old(self).waypoint_idx,
    {
        self.flags1 = (self.flags1 | FLAG1_MOVING) & !FLAG1_BLOCKED;
    }

    /// Whether the moving flag is set.
    pub fn is_moving(&self) -> (r: bool)
        ensures
            r == (self.flags1 & FLAG1_MOVING != 0),
    {
        self.flags1 & FLAG1_MOVING != 0
    }

    /// Whether the blocked flag is set.
    pub fn is_blocked(&self) -> (r: bool)
        ensures
            r == (self.flags1 & FLAG1_BLOCKED != 0),
    {
        self.flags1 & FLAG1_BLOCKED != 0
    }
}

impl Default for PersonMovement {
    fn default() -> (r: Self)
        ensures
            r.position == (WorldCoord { x: 0, z: 0 }),
            r.target_pos == (WorldCoord { x: 0, z: 0 }),
            r.next_waypoint == (WorldCoord { x: 0, z: 0 }),
            r.movement_dest == (WorldCoord { x: 0, z: 0 }),
            r.segment_index == 0,
            r.waypoint_idx == 0,
            r.flags1 == 0,
    {
        let origin = WorldCoord { x: 0, z: 0 };
        PersonMovement {
            position: origin,
            target_pos: origin,
            next_waypoint: origin,
            movement_dest: origin,
            segment_index: 0,
            waypoint_idx: 0,
            flags1: 0,
        }
    }
}

/// Tiles already handed out as adjusted move targets, so that several units
/// sent to the same unwalkable spot spread over different tiles.
pub struct UsedTargetsCache {
    tiles: Vec<TileCoord>,
}

impl View for UsedTargetsCache {
    type V = Seq<TileCoord>;

    closed spec fn view(&self) -> Seq<TileCoord> {
        self.tiles@
    }
}

impl UsedTargetsCache {
    pub fn new() -> (r: Self)
        ensures
            r@ == Seq::<TileCoord>::empty(),
    {
        UsedTargetsCache { tiles: Vec::new() }
    }

    /// Whether `tile` was already handed out.
    pub fn contains(&self, tile: TileCoord) -> (r: bool)
        ensures
            r == self@.contains(tile),
    {
        let mut i: usize = 0;
        while i < self.tiles.len()
            invariant
                i <= self.tiles.len(),
                forall|j: int| 0 <= j < i ==> self.tiles@[j] != tile,
            decreases self.tiles.len() - i,
        {
            if self.tiles[i] == tile {
                return true;
            }
            i += 1;
        }
        false
    }

    /// Remember `tile` as handed out.
    pub fn record(&mut self, tile: TileCoord)
        ensures
            final(self)@ == old(self)@.push(tile),
    {
        self.tiles.push(tile);
    }
}

} // verus!
