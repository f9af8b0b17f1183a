use vstd::prelude::*;

verus! {

/// Half a turn in the 11-bit angle system (180 degrees).
pub const ANGLE_HALF: i32 = 0x400;
/// A full turn in the 11-bit angle system (360 degrees).
pub const ANGLE_FULL: i32 = 0x800;
/// Mask that reduces an angle to one turn.
pub const ANGLE_MASK: u16 = 0x7FF;

/// Size of the toroidal world in world units along each axis.
pub const WORLD_SIZE: i32 = 0x10000;
/// A coordinate difference larger than this wraps around the world.
pub const WORLD_WRAP_THRESHOLD: i32 = 0x8000;

/// Formation idle random number generator parameters.
pub const RNG_MULTIPLIER: u32 = 9377;
pub const RNG_INCREMENT: u32 = 0x24DF;
pub const RNG_ROTATE_BITS: u32 = 13;

/// The region map is a square grid of this many cells per side.
pub const REGION_GRID_SIZE: usize = 128;
/// Number of terrain classes in the terrain flags table.
pub const TERRAIN_FLAGS_COUNT: usize = 16;
/// Terrain flag bit that marks a terrain class walkable.
pub const TERRAIN_WALKABLE_BIT: u8 = 0x02;
/// The region id occupies the low ten bits of a cell's region word.
pub const REGION_ID_MASK: u16 = 0x03FF;
/// Cell flag bit that marks a cell covered by a building.
pub const CELL_HAS_BUILDING: u8 = 0x01;

/// Number of route segment slots (slot 0 is the "no segment" sentinel).
pub const MAX_SEGMENTS: usize = 400;
/// Waypoints stored per route segment.
pub const MAX_WAYPOINTS: usize = 24;
/// Entries in the failed-route cache.
pub const FAILURE_CACHE_SIZE: usize = 8;
/// Segment flag: the segment may be followed in both directions.
pub const SEGMENT_FLAG_BIDIRECTIONAL: u8 = 0x02;
/// Segment flag: the segment stays cached when its last user releases it.
pub const SEGMENT_FLAG_PERSISTENT: u8 = 0x04;

/// Pathfinder limits.
pub const PATHFIND_MAX_RETRIES: usize = 4;
pub const PATHFIND_MAX_ITERATIONS: usize = 1500;
pub const PATHFIND_MAX_POOL_WAYPOINTS: usize = 260;
pub const PATHFIND_ARM_MAX_WAYPOINTS: usize = 256;
pub const PATHFIND_MAX_SEGMENT_WAYPOINTS: usize = 24;

/// Search arm states.
pub const ARM_STATE_INIT: u8 = 0;
pub const ARM_STATE_FOUND: u8 = 1;
pub const ARM_STATE_STALLED: u8 = 2;
pub const ARM_STATE_EXPANDING: u8 = 3;

/// Cardinal steps indexed by direction (0 = south, 1 = east, 2 = north, 3 = west).
pub const DIRECTION_DX: [i32; 4] = [0, 1, 0, -1];
pub const DIRECTION_DZ: [i32; 4] = [1, 0, -1, 0];

/// Neighbours examined when a move target is not walkable.
pub const MAX_WALKABILITY_SEARCH: usize = 32;

/// Distance (per axis, world units) at which a waypoint counts as reached.
pub const WAYPOINT_ARRIVAL_THRESHOLD: i32 = 0x240;

/// Person movement flag: the person is moving.
pub const FLAG1_MOVING: u32 = 0x1000;
/// Person movement flag: the person is blocked.
pub const FLAG1_BLOCKED: u32 = 0x80;

} // verus!
