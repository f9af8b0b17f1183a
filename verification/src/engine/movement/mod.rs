//! Unit movement: the region map, the route segment cache, the dual-arm
//! wall-following pathfinder and per-tick waypoint stepping.

pub mod constants;
pub mod types;
pub mod tables;
pub mod math;
pub mod region;
pub mod segment;
pub mod pathfinder;
pub mod route;
pub mod waypoint;

pub use math::{
    angle_difference, atan2, distance, formation_rng_next, move_point_by_angle, rotation_direction,
};
pub use pathfinder::{pathfind, pathfind_debug, PathNode, PathfindDebug, PathfindResult, VisitedBitmap};
pub use region::RegionMap;
pub use route::{adjust_target_for_walkability, route_table_lookup, state_goto, RouteResult};
pub use segment::{FailureCache, SegmentPool};
pub use types::{PersonMovement, TileCoord, UsedTargetsCache, Waypoint, WorldCoord};
pub use waypoint::{process_route_movement, WaypointResult};
