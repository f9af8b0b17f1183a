//! The dual-arm wall-following pathfinder (a Bug2 variant). Two search arms
//! leave the start cell; each steps straight towards the goal while it can
//! and otherwise follows the obstacle wall, one turning right, the other
//! left. The first arm to reach the goal gives the path, which is then
//! deduplicated, shortened by line-of-sight checks and cut to the size of a
//! route segment.
//!
//! Cell-space coordinates are used throughout: a node's `x`, `z` are the
//! tile coordinates halved (0..128).

use vstd::prelude::*;

use super::constants::{
    ARM_STATE_EXPANDING, ARM_STATE_FOUND, ARM_STATE_STALLED, DIRECTION_DX, DIRECTION_DZ,
    PATHFIND_ARM_MAX_WAYPOINTS, PATHFIND_MAX_ITERATIONS, PATHFIND_MAX_POOL_WAYPOINTS,
    PATHFIND_MAX_RETRIES, PATHFIND_MAX_SEGMENT_WAYPOINTS, REGION_GRID_SIZE,
};
use super::region::RegionMap;
use super::types::{TileCoord, Waypoint};

verus! {

/// Tile coordinate of a cell-space coordinate: the low byte doubled.
pub open spec fn node_axis_tile(v: i32) -> u8 {
    ((v as u8) as int * 2 % 256) as u8
}

/// A search node in cell space.
#[derive(Debug, Clone, Copy, PartialEq, Eq, Structural)]
pub struct PathNode {
    /// Cell column.
    pub x: i32,
    /// Cell row.
    pub z: i32,
    /// Flags (bit 0 = water crossing).
    pub flags: u16,
}

impl PathNode {
    pub open spec fn on_map_spec(self) -> bool {
        0 <= self.x < REGION_GRID_SIZE && 0 <= self.z < REGION_GRID_SIZE
    }

    pub open spec fn tile_spec(self) -> TileCoord {
        TileCoord { x: node_axis_tile(self.x), z: node_axis_tile(self.z) }
    }

    pub open spec fn same_cell(self, other: PathNode) -> bool {
        self.x == other.x && self.z == other.z
    }

    pub open spec fn step_spec(self, dir: usize) -> PathNode {
        PathNode {
            x: (self.x + DIRECTION_DX[(dir % 4) as int]) as i32,
            z: (self.z + DIRECTION_DZ[(dir % 4) as int]) as i32,
            flags: self.flags,
        }
    }

    pub fn new(x: i32, z: i32) -> (r: Self)
        ensures
            r == (PathNode { x, z, flags: 0 }),
    {
        PathNode { x, z, flags: 0 }
    }

    /// The cell of a tile (tile coordinates halved).
    pub fn from_tile(tile: TileCoord) -> (r: Self)
        ensures
            r == (PathNode { x: (tile.x / 2) as i32, z: (tile.z / 2) as i32, flags: 0 }),
            r.on_map_spec(),
    {
        PathNode::new((tile.x / 2) as i32, (tile.z / 2) as i32)
    }

    /// The tile of a cell (cell coordinates doubled, in 8 bits).
    pub fn to_tile(&self) -> (r: TileCoord)
        ensures
            r == self.tile_spec(),
    {
        let x = (((self.x as u8) as u16 * 2) % 256) as u8;
        let z = (((self.z as u8) as u16 * 2) % 256) as u8;
        TileCoord::new(x, z)
    }

    /// The neighbouring cell in a cardinal direction (0 = south, +z;
    /// 1 = east, +x; 2 = north; 3 = west).
    pub fn step(&self, dir: usize) -> (r: Self)
        requires
            i32::MIN < self.x < i32::MAX,
            i32::MIN < self.z < i32::MAX,
        ensures
            r == self.step_spec(dir),
    {
        let d = dir % 4;
        PathNode { x: self.x + DIRECTION_DX[d], z: self.z + DIRECTION_DZ[d], flags: self.flags }
    }

    /// Whether the cell lies on the 128x128 map.
    pub fn on_map(&self) -> (r: bool)
        ensures
            r == self.on_map_spec(),
    {
        self.x >= 0 && self.x < REGION_GRID_SIZE as i32 && self.z >= 0 && self.z < REGION_GRID_SIZE as i32
    }
}

impl Default for PathNode {
    fn default() -> (r: Self)
        ensures
            r == (PathNode { x: 0, z: 0, flags: 0 }),
    {
        PathNode { x: 0, z: 0, flags: 0 }
    }
}

/// The tile of an on-map cell is the cell's coordinates doubled, so its cell
/// index is the cell's own.
pub proof fn lemma_node_tile(n: PathNode)
    requires
        n.on_map_spec(),
    ensures
        n.tile_spec().x == 2 * n.x,
        n.tile_spec().z == 2 * n.z,
        n.tile_spec().cell_spec() == n.z * 128 + n.x,
{
}

/// The cell of a tile, doubled back, lies in the same map cell.
pub proof fn lemma_tile_node_cell(t: TileCoord)
    ensures
        (PathNode { x: (t.x / 2) as i32, z: (t.z / 2) as i32, flags: 0 }).tile_spec().cell_spec() == t.cell_spec(),
        (PathNode { x: (t.x / 2) as i32, z: (t.z / 2) as i32, flags: 0 }).tile_spec() == (TileCoord { x: (t.x / 2 * 2) as u8, z: (t.z / 2 * 2) as u8 }),
{
}

/// A cell can be entered: it lies on the map and its terrain is walkable.
pub open spec fn passable_spec(map: &RegionMap, n: PathNode) -> bool {
    n.on_map_spec() && map.walkable_spec(n.tile_spec())
}

/// Bit index of a cell in the visited bitmap.
pub open spec fn visited_bit_index(x: i32, z: i32) -> int {
    z * 128 + x
}

/// Visited-cell bitmap: one bit per map cell, 2048 bytes.
pub struct VisitedBitmap {
    bits: [u8; 2048],
}

impl View for VisitedBitmap {
    type V = Seq<u8>;

    closed spec fn view(&self) -> Seq<u8> {
        self.bits@
    }
}

impl VisitedBitmap {
    pub open spec fn visited_spec(&self, x: i32, z: i32) -> bool {
        let idx = visited_bit_index(x, z);
        (self@[idx / 8] >> ((idx % 8) as u8)) & 1u8 != 0
    }

    pub proof fn lemma_len(&self)
        ensures
            self@.len() == 2048,
    {
    }

    /// A bitmap with no cell visited.
    pub fn new() -> (r: Self)
        ensures
            r@.len() == 2048,
            forall|i: int| 0 <= i < 2048 ==> #[trigger] r@[i] == 0,
    {
        VisitedBitmap { bits: [0u8; 2048] }
    }

    /// Whether a cell was visited.
    pub fn is_visited(&self, x: i32, z: i32) -> (r: bool)
        requires
            0 <= x < 128,
            0 <= z < 128,
        ensures
            r == self.visited_spec(x, z),
    {
        let idx = (z as usize) * REGION_GRID_SIZE + (x as usize);
        (self.bits[idx / 8] >> ((idx % 8) as u8)) & 1 != 0
    }

    /// Mark a cell visited.
    pub fn mark(&mut self, x: i32, z: i32)
        requires
            0 <= x < 128,
            0 <= z < 128,
        ensures
            final(self)@.len() == 2048,
            ({
                let idx = visited_bit_index(x, z);
                final(self)@ == old(self)@.update(idx / 8, old(self)@[idx / 8] | (1u8 << ((idx % 8) as u8)))
            }),
    {
        let idx = (z as usize) * REGION_GRID_SIZE + (x as usize);
        let byte = self.bits[idx / 8] | (1u8 << ((idx % 8) as u8));
        self.bits[idx / 8] = byte;
    }
}

impl Default for VisitedBitmap {
    fn default() -> (r: Self)
        ensures
            r@.len() == 2048,
    {
        VisitedBitmap::new()
    }
}

/// A marked cell reads as visited, and marking a cell leaves every other
/// cell as it was.
pub proof fn lemma_mark_then_visited(before: VisitedBitmap, after: VisitedBitmap, x: i32, z: i32, x2: i32, z2: i32)
    requires
        before@.len() == 2048,
        0 <= x < 128,
        0 <= z < 128,
        0 <= x2 < 128,
        0 <= z2 < 128,
        after@ == before@.update(visited_bit_index(x, z) / 8, before@[visited_bit_index(x, z) / 8] | (1u8 << ((visited_bit_index(x, z) % 8) as u8))),
    ensures
        after.visited_spec(x, z),
        (x2 != x || z2 != z) ==> after.visited_spec(x2, z2) == before.visited_spec(x2, z2),
{
    let idx = visited_bit_index(x, z);
    let b = before@[idx / 8];
    let s = (idx % 8) as u8;
    assert(s < 8);
    assert(((b | (1u8 << s)) >> s) & 1u8 != 0) by (bit_vector)
        requires s < 8;
    let idx2 = visited_bit_index(x2, z2);
    if (x2 != x || z2 != z) && idx2 / 8 == idx / 8 {
        let s2 = (idx2 % 8) as u8;
        assert(s2 != s);
        assert(((b | (1u8 << s)) >> s2) & 1u8 == (b >> s2) & 1u8) by (bit_vector)
            requires s < 8, s2 < 8, s2 != s;
    }
}

/// Result of a path search.
#[derive(Debug, Clone, PartialEq, Eq)]
pub enum PathfindResult {
    /// A path: waypoints in tile coordinates, the goal last.
    Found(Vec<Waypoint>),
    /// No path between start and goal.
    NotFound,
}

/// The pathfinder's result with what the search explored.
pub struct PathfindDebug {
    pub result: PathfindResult,
    /// Cells visited by the last search attempt.
    pub visited: VisitedBitmap,
    /// Cells stepped through by arm 0 (right-hand rule).
    pub arm0_trace: Vec<(i32, i32)>,
    /// Cells stepped through by arm 1 (left-hand rule).
    pub arm1_trace: Vec<(i32, i32)>,
}

/// One search arm, following walls in one turn direction.
pub struct SearchArm {
    /// Cells stepped through.
    pub waypoints: Vec<PathNode>,
    /// Current cell.
    pub pos: PathNode,
    /// Current facing (0 = south, 1 = east, 2 = north, 3 = west).
    pub facing: usize,
    /// 1 for the right-hand rule, 3 for the left-hand rule.
    pub turn_dir: usize,
    /// `ARM_STATE_EXPANDING`, `ARM_STATE_FOUND` or `ARM_STATE_STALLED`.
    pub state: u8,
    /// Where the arm started.
    pub start_pos: PathNode,
    /// Last cell reached by stepping straight towards the goal.
    pub checkpoint: PathNode,
    /// Facing at the start, for loop detection.
    pub initial_facing: usize,
}

/// An arm in a consistent state for searching towards `goal`.
pub open spec fn arm_ok(map: &RegionMap, arm: &SearchArm, goal: PathNode) -> bool {
    &&& arm.facing < 4
    &&& arm.initial_facing < 4
    &&& (arm.turn_dir == 1 || arm.turn_dir == 3)
    &&& arm.pos.on_map_spec()
    &&& arm.start_pos.on_map_spec()
    &&& arm.checkpoint.on_map_spec()
    &&& (arm.state == ARM_STATE_EXPANDING || arm.state == ARM_STATE_FOUND || arm.state == ARM_STATE_STALLED)
    &&& forall|i: int| 0 <= i < arm.waypoints@.len() ==> passable_spec(map, #[trigger] arm.waypoints@[i])
    &&& arm.state == ARM_STATE_FOUND ==> arm.pos.same_cell(goal) && arm.waypoints@.len() > 0
        && arm.waypoints@.last().same_cell(goal)
}

impl SearchArm {
    /// A fresh arm at `start`, expanding.
    pub fn new(start: PathNode, facing: usize, turn_dir: usize) -> (r: Self)
        ensures
            r.waypoints@ == Seq::<PathNode>::empty(),
            r.pos == start,
            r.facing == facing,
            r.turn_dir == turn_dir,
            r.state == ARM_STATE_EXPANDING,
            r.start_pos == start,
            r.checkpoint == start,
            r.initial_facing == facing,
    {
        SearchArm {
            waypoints: Vec::new(),
            pos: start,
            facing,
            turn_dir,
            state: ARM_STATE_EXPANDING,
            start_pos: start,
            checkpoint: start,
            initial_facing: facing,
        }
    }
}

/// Main and secondary axis directions from `start` to `goal`: the main one
/// along the longer axis (ties go to x), the secondary along the other.
pub open spec fn setup_directions_spec(start: PathNode, goal: PathNode) -> (usize, usize) {
    let dx = goal.x - start.x;
    let dz = goal.z - start.z;
    let adx = if dx < 0 { -dx } else { dx };
    let adz = if dz < 0 { -dz } else { dz };
    let primary: usize = if adx >= adz {
        if dx > 0 { 1 } else { 3 }
    } else if dz > 0 {
        0
    } else {
        2
    };
    let secondary: usize = if adx >= adz {
        if dz > 0 { 0 } else { 2 }
    } else if dx > 0 {
        1
    } else {
        3
    };
    (primary, secondary)
}

/// Compute the main and secondary search directions.
pub fn setup_directions(start: PathNode, goal: PathNode) -> (r: (usize, usize))
    requires
        start.on_map_spec(),
        goal.on_map_spec(),
    ensures
        r == setup_directions_spec(start, goal),
        r.0 < 4 && r.1 < 4,
{
    let dx = goal.x - start.x;
    let dz = goal.z - start.z;
    let adx = if dx < 0 { -dx } else { dx };
    let adz = if dz < 0 { -dz } else { dz };
    let primary: usize = if adx >= adz {
        if dx > 0 { 1 } else { 3 }
    } else if dz > 0 {
        0
    } else {
        2
    };
    let secondary: usize = if adx >= adz {
        if dz > 0 { 0 } else { 2 }
    } else if dx > 0 {
        1
    } else {
        3
    };
    (primary, secondary)
}

/// Direction that steps from `from` most directly towards `goal`.
pub fn goal_direction(from: PathNode, goal: PathNode) -> (r: usize)
    requires
        from.on_map_spec(),
        goal.on_map_spec(),
    ensures
        r == setup_directions_spec(from, goal).0,
        r < 4,
{
    let dx = goal.x - from.x;
    let dz = goal.z - from.z;
    let adx = if dx < 0 { -dx } else { dx };
    let adz = if dz < 0 { -dz } else { dz };
    if adx >= adz {
        if dx > 0 { 1 } else { 3 }
    } else if dz > 0 {
        0
    } else {
        2
    }
}

/// A direction reduced to a quarter turn: the two low bits.
pub fn low_two_bits(v: usize) -> (r: usize)
    ensures
        r == v & 3,
        r < 4,
{
    let r = v & 3;
    assert(r < 4) by (bit_vector)
        requires r == v & 3;
    r
}

/// Whether a cell can be entered.
pub fn is_cell_passable(region_map: &RegionMap, node: PathNode) -> (r: bool)
    requires
        region_map.wf(),
    ensures
        r == passable_spec(region_map, node),
{
    if !node.on_map() {
        return false;
    }
    let tile = node.to_tile();
    region_map.is_walkable(tile)
}

/// The arm stalls when it is back on its last straight-line cell (anti-loop
/// check); otherwise it is within bounds.
pub fn bounds_check_arm(arm: &SearchArm) -> (r: bool)
    ensures
        r == !(arm.pos.x == arm.checkpoint.x && arm.pos.z == arm.checkpoint.z),
{
    if arm.pos.x == arm.checkpoint.x && arm.pos.z == arm.checkpoint.z {
        return false;
    }
    true
}

/// A facing turned one quarter away from the wall: `turn` subtracted,
/// modulo 4.
pub open spec fn turn_away(d: usize, turn: usize) -> usize {
    (if d >= turn { d - turn } else { d + 4 - turn }) as usize
}

/// The facing after `k` quarter turns away from the wall.
pub open spec fn rotated(f: usize, turn: usize, k: nat) -> usize
    decreases k,
{
    if k == 0 {
        f
    } else {
        turn_away(rotated(f, turn, (k - 1) as nat), turn)
    }
}

/// The bitmap with cell (`x`, `z`) marked visited.
pub open spec fn marked(bits: Seq<u8>, x: i32, z: i32) -> Seq<u8> {
    let idx = visited_bit_index(x, z);
    bits.update(idx / 8, bits[idx / 8] | (1u8 << ((idx % 8) as u8)))
}

/// Whether cell (`x`, `z`) is marked in a visited bitmap's bytes.
pub open spec fn seen(bits: Seq<u8>, x: i32, z: i32) -> bool {
    let idx = visited_bit_index(x, z);
    (bits[idx / 8] >> ((idx % 8) as u8)) & 1u8 != 0
}

/// Whether an arm may step into cell `c`: it can be entered and it is the
/// goal or not yet visited.
pub open spec fn may_enter(map: &RegionMap, bits: Seq<u8>, c: PathNode, goal: PathNode) -> bool {
    passable_spec(map, c) && (c.same_cell(goal) || !seen(bits, c.x, c.z))
}

/// The first of the facings `f` and its turns away from the wall, from the
/// `k`-th on, that leads into a cell the arm may enter.
pub open spec fn open_facing(
    map: &RegionMap,
    visited: Seq<u8>,
    pos: PathNode,
    f: usize,
    turn: usize,
    goal: PathNode,
    k: nat,
) -> Option<usize>
    decreases 4 - k,
{
    if k >= 4 {
        None
    } else if may_enter(map, visited, pos.step_spec(rotated(f, turn, k)), goal) {
        Some(rotated(f, turn, k))
    } else {
        open_facing(map, visited, pos, f, turn, goal, k + 1)
    }
}

proof fn lemma_turn_away(d: usize, t: usize)
    requires
        d < 4,
        t == 1 || t == 3,
    ensures
        d.wrapping_sub(t) & 3 == turn_away(d, t),
        turn_away(d, t) < 4,
{
    let w = d.wrapping_sub(t);
    assert(w & 3 == w % 4) by (bit_vector);
    if d < t {
        assert(usize::MAX == 0xffff_ffff || usize::MAX == 0xffff_ffff_ffff_ffff);
        assert(w == d + 4 - t + (usize::MAX - 3));
    }
}

/// An arm as plain values: (cells stepped through, position, facing, turn
/// direction, state, start, checkpoint, initial facing).
pub type ArmModel = (Seq<PathNode>, PathNode, usize, usize, u8, PathNode, PathNode, usize);

/// The plain values of an arm.
pub open spec fn arm_model(a: SearchArm) -> ArmModel {
    (a.waypoints@, a.pos, a.facing, a.turn_dir, a.state, a.start_pos, a.checkpoint, a.initial_facing)
}

/// One expansion step of an arm (see `expand_arm`): the visited bits and
/// the arm after it.
#[verifier::opaque]
pub open spec fn expand_model(map: &RegionMap, bits: Seq<u8>, m: ArmModel, goal: PathNode) -> (Seq<u8>, ArmModel) {
    let gd = setup_directions_spec(m.1, goal).0;
    let gc = m.1.step_spec(gd);
    if m.4 != ARM_STATE_EXPANDING {
        (bits, m)
    } else if may_enter(map, bits, gc, goal) {
        (
            marked(bits, gc.x, gc.z),
            (m.0.push(gc), gc, gd, m.3, if gc.same_cell(goal) { ARM_STATE_FOUND } else { ARM_STATE_EXPANDING }, m.5, gc, m.7),
        )
    } else {
        match open_facing(map, bits, m.1, m.2, m.3, goal, 0) {
            None => (bits, (m.0, m.1, m.2, m.3, ARM_STATE_STALLED, m.5, m.6, m.7)),
            Some(d) => {
                let np = m.1.step_spec(d);
                let pd = ((m.3 + d) % 4) as usize;
                let facing = if !np.same_cell(goal) && passable_spec(map, np.step_spec(pd)) { pd } else { d };
                let state = if np.same_cell(goal) {
                    ARM_STATE_FOUND
                } else if np.same_cell(m.6) || m.0.len() + 1 >= PATHFIND_ARM_MAX_WAYPOINTS {
                    ARM_STATE_STALLED
                } else {
                    ARM_STATE_EXPANDING
                };
                (marked(bits, np.x, np.z), (m.0.push(np), np, facing, m.3, state, m.5, m.6, m.7))
            },
        }
    }
}

/// An arm that is not expanding is left as it is.
proof fn lemma_expand_idle(map: &RegionMap, bits: Seq<u8>, m: ArmModel, goal: PathNode)
    requires
        m.4 != ARM_STATE_EXPANDING,
    ensures
        expand_model(map, bits, m, goal) == (bits, m),
{
    reveal(expand_model);
}

/// Expand one arm by one step. First it tries to step straight towards the
/// goal; when that cell is blocked (or already visited) it follows the wall:
/// starting from its facing it rotates away from the wall until a cell can
/// be entered, steps there and turns towards the wall again if the wall
/// ends. It stalls when no neighbour can be entered, when it returns to its
/// checkpoint, or when its buffer is full.
#[verifier::rlimit(60)]
pub fn expand_arm(region_map: &RegionMap, visited: &mut VisitedBitmap, arm: &mut SearchArm, goal: PathNode)
    requires
        region_map.wf(),
        old(visited)@.len() == 2048,
        arm_ok(region_map, old(arm), goal),
        passable_spec(region_map, goal),
    ensures
        final(visited)@.len() == 2048,
        arm_ok(region_map, final(arm), goal),
        final(arm).waypoints@.len() <= old(arm).waypoints@.len() + 1,
        final(arm).start_pos == old(arm).start_pos,
        final(arm).initial_facing == old(arm).initial_facing,
        final(arm).turn_dir == old(arm).turn_dir,
        old(arm).state != ARM_STATE_EXPANDING ==> final(arm).waypoints@ == old(arm).waypoints@ && final(arm).state == old(arm).state,
        forall|i: int| 0 <= i < old(arm).waypoints@.len() ==> #[trigger] final(arm).waypoints@[i] == old(arm).waypoints@[i],
        (final(visited)@, arm_model(*final(arm))) == expand_model(region_map, old(visited)@, arm_model(*old(arm)), goal),
{
    proof {
        reveal(expand_model);
    }
    if arm.state != ARM_STATE_EXPANDING {
        return;
    }
    let ghost a = *arm;
    let ghost v0 = *visited;
    // Phase 0: step straight towards the goal when that cell is free.
    let goal_dir = goal_direction(arm.pos, goal);
    let goal_cell = arm.pos.step(goal_dir);
    let goal_is_target = goal_cell.x == goal.x && goal_cell.z == goal.z;
    let straight = goal_cell.on_map() && is_cell_passable(region_map, goal_cell) && (goal_is_target || !visited.is_visited(goal_cell.x, goal_cell.z));
    assert(straight == may_enter(region_map, v0@, goal_cell, goal));
    if straight {
        arm.facing = goal_dir;
        arm.pos = goal_cell;
        arm.checkpoint = arm.pos;
        visited.mark(arm.pos.x, arm.pos.z);
        arm.waypoints.push(arm.pos);
        if goal_is_target {
            arm.state = ARM_STATE_FOUND;
        }
        return;
    }
    // Phase 1: follow the wall, rotating away from it.
    let mut dir = arm.facing;
    let mut found_passable = false;
    let mut tries: usize = 0;
    let ghost open = open_facing(region_map, visited@, arm.pos, arm.facing, arm.turn_dir, goal, 0);
    while tries < 4 && !found_passable
        invariant
            region_map.wf(),
            arm_ok(region_map, arm, goal),
            arm.state == ARM_STATE_EXPANDING,
            dir < 4,
            tries <= 4,
            found_passable ==> passable_spec(region_map, arm.pos.step_spec(dir)),
            found_passable ==> open == Some(dir),
            !found_passable ==> dir == rotated(arm.facing, arm.turn_dir, tries as nat),
            !found_passable ==> open == open_facing(region_map, visited@, arm.pos, arm.facing, arm.turn_dir, goal, tries as nat),
        decreases 4 - tries,
    {
        let candidate = arm.pos.step(dir);
        let is_target = candidate.x == goal.x && candidate.z == goal.z;
        if candidate.on_map() && is_cell_passable(region_map, candidate) && (is_target || !visited.is_visited(candidate.x, candidate.z)) {
            found_passable = true;
        } else {
            let w = dir.wrapping_sub(arm.turn_dir);
            proof {
                lemma_turn_away(dir, arm.turn_dir);
            }
            dir = low_two_bits(w);
        }
        tries += 1;
    }
    if !found_passable {
        assert(open is None);
        arm.state = ARM_STATE_STALLED;
        return;
    }
    assert(open == Some(dir));
    // Step into the free cell.
    arm.facing = dir;
    arm.pos = arm.pos.step(dir);
    visited.mark(arm.pos.x, arm.pos.z);
    arm.waypoints.push(arm.pos);
    if arm.pos.x == goal.x && arm.pos.z == goal.z {
        arm.state = ARM_STATE_FOUND;
        return;
    }
    // Phase 2: turn towards the wall side when the wall has ended there.
    let sum = arm.turn_dir + arm.facing;
    assert(sum & 3 == sum % 4) by (bit_vector);
    let perp_dir = low_two_bits(sum);
    let perp_cell = arm.pos.step(perp_dir);
    if perp_cell.on_map() && is_cell_passable(region_map, perp_cell) {
        arm.facing = perp_dir;
    }
    if !bounds_check_arm(arm) {
        arm.state = ARM_STATE_STALLED;
    }
    if arm.waypoints.len() >= PATHFIND_ARM_MAX_WAYPOINTS {
        arm.state = ARM_STATE_STALLED;
    }
}

/// Bound on coordinates for the line-of-sight walk.
pub open spec fn los_coord_ok(n: PathNode) -> bool {
    -0x400_0000 <= n.x <= 0x400_0000 && -0x400_0000 <= n.z <= 0x400_0000
}

/// Whether the cell at (`x`, `z`) can be entered.
pub open spec fn cell_open(map: &RegionMap, x: int, z: int) -> bool {
    passable_spec(map, PathNode { x: x as i32, z: z as i32, flags: 0 })
}

/// The rest of a Bresenham walk towards (`tx`, `tz`) from (`x`, `z`) with
/// error term `err`, steps `sx`, `sz` and extents `dx`, `dz`: every cell
/// reached can be entered, and where the walk moves diagonally both cells
/// beside the corner can be entered too. `fuel` bounds the steps.
pub open spec fn los_walk(
    map: &RegionMap,
    x: int,
    z: int,
    err: int,
    tx: int,
    tz: int,
    dx: int,
    dz: int,
    sx: int,
    sz: int,
    fuel: nat,
) -> bool
    decreases fuel,
{
    if fuel == 0 {
        true
    } else if !cell_open(map, x, z) {
        false
    } else if x == tx && z == tz {
        true
    } else {
        let e2 = 2 * err;
        let step_x = e2 > -dz;
        let step_z = e2 < dx;
        if step_x && step_z && (!cell_open(map, x + sx, z) || !cell_open(map, x, z + sz)) {
            false
        } else {
            los_walk(
                map,
                if step_x { x + sx } else { x },
                if step_z { z + sz } else { z },
                err - (if step_x { dz } else { 0 }) + (if step_z { dx } else { 0 }),
                tx,
                tz,
                dx,
                dz,
                sx,
                sz,
                (fuel - 1) as nat,
            )
        }
    }
}

/// Whether there is a line of sight from `from` to `to` (see `los_walk`).
pub open spec fn los_spec(map: &RegionMap, from: PathNode, to: PathNode) -> bool {
    let dx = if to.x - from.x < 0 { from.x - to.x } else { to.x - from.x };
    let dz = if to.z - from.z < 0 { from.z - to.z } else { to.z - from.z };
    let sx: int = if to.x > from.x { 1 } else { -1 };
    let sz: int = if to.z > from.z { 1 } else { -1 };
    los_walk(map, from.x as int, from.z as int, dx - dz, to.x as int, to.z as int, dx, dz, sx, sz, 300)
}

/// Whether the straight (Bresenham) line from `from` to `to` crosses only
/// cells that can be entered, without slipping diagonally between two
/// blocked cells that share a corner.
pub fn line_of_sight(region_map: &RegionMap, from: PathNode, to: PathNode) -> (r: bool)
    requires
        region_map.wf(),
        los_coord_ok(from),
        los_coord_ok(to),
    ensures
        r == los_spec(region_map, from, to),
        r ==> passable_spec(region_map, PathNode { x: from.x, z: from.z, flags: 0 }),
        r ==> passable_spec(region_map, PathNode { x: to.x, z: to.z, flags: 0 }),
{
    let mut x = from.x;
    let mut z = from.z;
    let dx = if to.x - from.x < 0 { from.x - to.x } else { to.x - from.x };
    let dz = if to.z - from.z < 0 { from.z - to.z } else { to.z - from.z };
    let sx: i32 = if to.x > from.x { 1 } else { -1 };
    let sz: i32 = if to.z > from.z { 1 } else { -1 };
    let mut err = dx - dz;
    let ghost bound = 2 * (dx + dz);
    let mut first = true;
    let ghost mut fuel: nat = 300;
    let ghost total = los_spec(region_map, from, to);
    loop
        invariant
            region_map.wf(),
            total == los_spec(region_map, from, to),
            total == los_walk(region_map, x as int, z as int, err as int, to.x as int, to.z as int, dx as int, dz as int, sx as int, sz as int, fuel),
            first ==> fuel == 300,
            !first ==> fuel >= 1 + (if sx == 1 { 129 - x } else { x + 1 }) + (if sz == 1 { 129 - z } else { z + 1 }),
            0 <= dx <= 0x800_0000,
            0 <= dz <= 0x800_0000,
            bound == 2 * (dx + dz),
            -bound <= err <= bound,
            !first ==> -1 <= x <= 128,
            !first ==> -1 <= z <= 128,
            sx == 1 || sx == -1,
            sz == 1 || sz == -1,
            dx + dz > 0 || (x == to.x && z == to.z),
            first ==> x == from.x && z == from.z,
            los_coord_ok(from),
            los_coord_ok(to),
            !first ==> passable_spec(region_map, PathNode { x: from.x, z: from.z, flags: 0 }),
        ensures
            passable_spec(region_map, PathNode { x: from.x, z: from.z, flags: 0 }),
            passable_spec(region_map, PathNode { x: to.x, z: to.z, flags: 0 }),
            total,
        decreases (if sx == 1 { 129 - x } else { x + 1 }) + (if sz == 1 { 129 - z } else { z + 1 }),
    {
        let node = PathNode::new(x, z);
        if !node.on_map() || !is_cell_passable(region_map, node) {
            return false;
        }
        proof {
            if first {
                assert(fuel >= 1 + (if sx == 1 { 129 - x } else { x + 1 }) + (if sz == 1 { 129 - z } else { z + 1 }));
            }
        }
        first = false;
        if x == to.x && z == to.z {
            break;
        }
        let e2 = 2 * err;
        let step_x = e2 > -dz;
        let step_z = e2 < dx;
        if step_x && step_z {
            let corner_a = PathNode::new(x + sx, z);
            let corner_b = PathNode::new(x, z + sz);
            if !corner_a.on_map() || !is_cell_passable(region_map, corner_a) || !corner_b.on_map()
                || !is_cell_passable(region_map, corner_b) {
                return false;
            }
        }
        if step_x {
            err -= dz;
            x += sx;
        }
        if step_z {
            err += dx;
            z += sz;
        }
        proof {
            fuel = (fuel - 1) as nat;
        }
    }
    true
}

/// The farthest node among `i + 2 ..= j` in line of sight of node `i`, or
/// node `i + 1` when there is none.
pub open spec fn farthest_visible(map: &RegionMap, nodes: Seq<PathNode>, i: int, j: int) -> int
    decreases j - i,
{
    if j < i + 2 {
        i + 1
    } else if los_spec(map, nodes[i], nodes[j]) {
        j
    } else {
        farthest_visible(map, nodes, i, j - 1)
    }
}

/// The nodes kept after node `i`, jumping each time to the farthest node in
/// line of sight.
pub open spec fn los_chain(map: &RegionMap, nodes: Seq<PathNode>, i: int) -> Seq<PathNode>
    decreases nodes.len() - i,
{
    if i < 0 || i >= nodes.len() - 1 {
        seq![]
    } else {
        let j = farthest_visible(map, nodes, i, nodes.len() - 1);
        if j <= i || j >= nodes.len() {
            seq![]
        } else {
            seq![nodes[j]] + los_chain(map, nodes, j)
        }
    }
}

/// A path shortened by line of sight: paths of up to two nodes as they
/// are, longer ones from their first node along `los_chain`.
pub open spec fn los_shortened(map: &RegionMap, nodes: Seq<PathNode>) -> Seq<PathNode> {
    if nodes.len() <= 2 {
        nodes
    } else {
        seq![nodes[0]] + los_chain(map, nodes, 0)
    }
}

proof fn lemma_farthest_bounds(map: &RegionMap, nodes: Seq<PathNode>, i: int, j: int)
    requires
        0 <= i,
        j < nodes.len(),
        i + 1 < nodes.len(),
    ensures
        i < farthest_visible(map, nodes, i, j) < nodes.len(),
        farthest_visible(map, nodes, i, j) <= j || farthest_visible(map, nodes, i, j) == i + 1,
    decreases j - i,
{
    if j >= i + 2 && !los_spec(map, nodes[i], nodes[j]) {
        lemma_farthest_bounds(map, nodes, i, j - 1);
    }
}

/// Shorten a path: from each kept node, jump to the farthest later node that
/// is in line of sight (or to the next node).
pub fn optimize_path_los(region_map: &RegionMap, nodes: &[PathNode]) -> (r: Vec<PathNode>)
    requires
        region_map.wf(),
        forall|i: int| 0 <= i < nodes@.len() ==> los_coord_ok(#[trigger] nodes@[i]),
    ensures
        nodes@.len() <= 2 ==> r@ == nodes@,
        nodes@.len() > 2 ==> {
            &&& 2 <= r@.len() <= nodes@.len()
            &&& r@[0] == nodes@[0]
            &&& r@.last() == nodes@.last()
        },
        forall|k: int| 0 <= k < r@.len() ==> nodes@.contains(#[trigger] r@[k]),
        r@ == los_shortened(region_map, nodes@),
{
    if nodes.len() <= 2 {
        let v = vstd::slice::slice_to_vec(nodes);
        proof {
            assert forall|k: int| 0 <= k < v@.len() implies nodes@.contains(#[trigger] v@[k]) by {
                assert(nodes@[k] == v@[k]);
            }
        }
        return v;
    }
    let n = nodes.len();
    let mut result: Vec<PathNode> = Vec::new();
    result.push(nodes[0]);
    let mut i: usize = 0;
    while i < n - 1
        invariant
            region_map.wf(),
            n == nodes@.len(),
            n > 2,
            i < n,
            1 <= result@.len() <= i + 1,
            i > 0 ==> result@.len() >= 2,
            result@[0] == nodes@[0],
            result@.last() == nodes@[i as int],
            forall|k: int| 0 <= k < nodes@.len() ==> los_coord_ok(#[trigger] nodes@[k]),
            forall|k: int| 0 <= k < result@.len() ==> nodes@.contains(#[trigger] result@[k]),
            result@ + los_chain(region_map, nodes@, i as int) == los_shortened(region_map, nodes@),
        decreases n - i,
    {
        let mut best_j = i + 1;
        let mut j = n - 1;
        let mut found = false;
        while !found && j >= i + 2
            invariant
                region_map.wf(),
                n == nodes@.len(),
                i + 1 < n,
                i + 1 <= j < n,
                i + 1 <= best_j < n,
                forall|k: int| 0 <= k < nodes@.len() ==> los_coord_ok(#[trigger] nodes@[k]),
                found ==> best_j == farthest_visible(region_map, nodes@, i as int, n - 1),
                !found ==> best_j == i + 1,
                !found ==> farthest_visible(region_map, nodes@, i as int, n - 1) == farthest_visible(region_map, nodes@, i as int, j as int),
            decreases (if found { 0 } else { j + 1 }),
        {
            if line_of_sight(region_map, nodes[i], nodes[j]) {
                best_j = j;
                found = true;
            } else {
                j -= 1;
            }
        }
        assert(best_j == farthest_visible(region_map, nodes@, i as int, n - 1));
        proof {
            lemma_farthest_bounds(region_map, nodes@, i as int, n - 1);
        }
        assert(i < best_j < n);
        let ghost before = result@;
        result.push(nodes[best_j]);
        proof {
            assert(los_chain(region_map, nodes@, i as int) == seq![nodes@[best_j as int]] + los_chain(region_map, nodes@, best_j as int));
            assert(result@ + los_chain(region_map, nodes@, best_j as int) =~= before + los_chain(region_map, nodes@, i as int));
        }
        proof {
            assert forall|k: int| 0 <= k < result@.len() implies nodes@.contains(#[trigger] result@[k]) by {
                if k == result@.len() - 1 {
                    assert(result@[k] == nodes@[best_j as int]);
                }
            }
        }
        i = best_j;
    }
    proof {
        assert(los_chain(region_map, nodes@, i as int) =~= Seq::<PathNode>::empty());
        assert(result@ + los_chain(region_map, nodes@, i as int) =~= result@);
    }
    result
}

/// Waypoint of a node: its tile and its flags' low byte.
pub open spec fn node_waypoint(n: PathNode) -> Waypoint {
    Waypoint { tile_x: node_axis_tile(n.x), tile_z: node_axis_tile(n.z), flags: n.flags as u8, _pad: 0 }
}

/// The tile a waypoint stands on.
pub open spec fn waypoint_tile(w: Waypoint) -> TileCoord {
    TileCoord { x: w.tile_x, z: w.tile_z }
}

/// A path of waypoints that ends on the goal's tile, stands only on walkable
/// tiles and fits in a route segment.
pub open spec fn valid_path(map: &RegionMap, wps: Seq<Waypoint>, goal: PathNode) -> bool {
    &&& 1 <= wps.len() <= PATHFIND_MAX_SEGMENT_WAYPOINTS
    &&& waypoint_tile(wps.last()) == goal.tile_spec()
    &&& forall|i: int| 0 <= i < wps.len() ==> map.walkable_spec(waypoint_tile(#[trigger] wps[i]))
}

/// The first `k` cells with consecutive repeats (same cell) dropped.
pub open spec fn dedup_cells(s: Seq<PathNode>, k: int) -> Seq<PathNode>
    decreases k,
{
    if k <= 0 {
        seq![]
    } else {
        let p = dedup_cells(s, k - 1);
        if p.len() > 0 && p.last().x == s[k - 1].x && p.last().z == s[k - 1].z {
            p
        } else {
            p.push(s[k - 1])
        }
    }
}

/// Which of `len` nodes waypoint `i` of `m` takes when a path is cut to
/// `m` waypoints: evenly spaced, the last one last.
pub open spec fn sample_index(i: int, len: int, m: int) -> int {
    if i == m - 1 {
        len - 1
    } else {
        i * len / m
    }
}

/// A path cut to the size of a route segment.
pub open spec fn cut_path(s: Seq<PathNode>) -> Seq<Waypoint> {
    let m = PATHFIND_MAX_SEGMENT_WAYPOINTS as int;
    if s.len() <= m {
        Seq::new(s.len(), |i: int| node_waypoint(s[i]))
    } else {
        Seq::new(m as nat, |i: int| node_waypoint(s[sample_index(i, s.len() as int, m)]))
    }
}

/// The waypoint on the goal's tile.
pub open spec fn goal_waypoint(goal: PathNode) -> Waypoint {
    Waypoint { tile_x: goal.tile_spec().x, tile_z: goal.tile_spec().z, flags: 0, _pad: 0 }
}

/// A path made to end on the goal's tile: added when there is room, else
/// put in place of the last waypoint's tile.
pub open spec fn goal_last(w: Seq<Waypoint>, goal: PathNode) -> Seq<Waypoint> {
    let g = goal.tile_spec();
    if waypoint_tile(w.last()) == g {
        w
    } else if w.len() < PATHFIND_MAX_SEGMENT_WAYPOINTS {
        w.push(goal_waypoint(goal))
    } else {
        w.update(w.len() - 1, Waypoint { tile_x: g.x, tile_z: g.z, flags: w.last().flags, _pad: w.last()._pad })
    }
}

/// The path made of the cells an arm stepped through (see
/// `build_path_result`).
pub open spec fn path_from_cells(map: &RegionMap, goal: PathNode, raw: Seq<PathNode>) -> Seq<Waypoint> {
    if raw.len() == 0 {
        seq![goal_waypoint(goal)]
    } else {
        goal_last(cut_path(los_shortened(map, dedup_cells(raw, raw.len() as int))), goal)
    }
}

fn node_to_waypoint(node: &PathNode) -> (r: Waypoint)
    ensures
        r == node_waypoint(*node),
{
    let tile = node.to_tile();
    Waypoint { tile_x: tile.x, tile_z: tile.z, flags: node.flags as u8, _pad: 0 }
}

/// Turn the cells an arm stepped through into a path: drop consecutive
/// repeats, shorten by line of sight, cut to the size of a route segment
/// (keeping the first and last and evenly spaced ones between) and make sure
/// the goal comes last. With no cells the path is the goal alone.
pub fn build_path_result(region_map: &RegionMap, _start: PathNode, goal: PathNode, raw_waypoints: &[PathNode]) -> (r: PathfindResult)
    requires
        region_map.wf(),
        passable_spec(region_map, goal),
        forall|i: int| 0 <= i < raw_waypoints@.len() ==> passable_spec(region_map, #[trigger] raw_waypoints@[i]),
        raw_waypoints@.len() * PATHFIND_MAX_SEGMENT_WAYPOINTS <= usize::MAX,
    ensures
        r matches PathfindResult::Found(w) && valid_path(region_map, w@, goal) && w@ == path_from_cells(
            region_map,
            goal,
            raw_waypoints@,
        ),
{
    proof {
        lemma_node_tile(goal);
    }
    if raw_waypoints.len() == 0 {
        let tile = goal.to_tile();
        let mut v: Vec<Waypoint> = Vec::new();
        v.push(Waypoint { tile_x: tile.x, tile_z: tile.z, flags: 0, _pad: 0 });
        return PathfindResult::Found(v);
    }
    // Drop consecutive repeats.
    let mut deduped: Vec<PathNode> = Vec::new();
    let mut k: usize = 0;
    while k < raw_waypoints.len()
        invariant
            k <= raw_waypoints@.len(),
            deduped@.len() <= k,
            raw_waypoints@.len() * PATHFIND_MAX_SEGMENT_WAYPOINTS <= usize::MAX,
            forall|i: int| 0 <= i < raw_waypoints@.len() ==> passable_spec(region_map, #[trigger] raw_waypoints@[i]),
            forall|i: int| 0 <= i < deduped@.len() ==> passable_spec(region_map, #[trigger] deduped@[i]),
            k > 0 ==> deduped@.len() > 0,
            deduped@ == dedup_cells(raw_waypoints@, k as int),
        decreases raw_waypoints@.len() - k,
    {
        let wp = raw_waypoints[k];
        let keep = if deduped.len() == 0 {
            true
        } else {
            let prev = deduped[deduped.len() - 1];
            prev.x != wp.x || prev.z != wp.z
        };
        if keep {
            deduped.push(wp);
        }
        k += 1;
    }
    proof {
        assert forall|i: int| 0 <= i < deduped@.len() implies los_coord_ok(#[trigger] deduped@[i]) by {
            assert(passable_spec(region_map, deduped@[i]));
        }
    }
    let simplified = optimize_path_los(region_map, deduped.as_slice());
    proof {
        assert forall|i: int| 0 <= i < simplified@.len() implies passable_spec(region_map, #[trigger] simplified@[i]) by {
            assert(deduped@.contains(simplified@[i]));
            let j = choose|j: int| 0 <= j < deduped@.len() && deduped@[j] == simplified@[i];
            assert(passable_spec(region_map, deduped@[j]));
        }
        lemma_nodes_walkable(region_map, simplified@);
    }
    let len = simplified.len();
    let max_wps = if PATHFIND_MAX_SEGMENT_WAYPOINTS < len { PATHFIND_MAX_SEGMENT_WAYPOINTS } else { len };
    let mut waypoints: Vec<Waypoint> = Vec::new();
    if len <= max_wps {
        let mut i: usize = 0;
        while i < len
            invariant
                len == simplified@.len(),
                len <= PATHFIND_MAX_SEGMENT_WAYPOINTS,
                i <= len,
                waypoints@.len() == i,
                forall|j: int| 0 <= j < simplified@.len() ==> region_map.walkable_spec(waypoint_tile(node_waypoint(#[trigger] simplified@[j]))),
                forall|j: int| 0 <= j < waypoints@.len() ==> region_map.walkable_spec(waypoint_tile(#[trigger] waypoints@[j])),
                forall|j: int| 0 <= j < waypoints@.len() ==> #[trigger] waypoints@[j] == node_waypoint(simplified@[j]),
            decreases len - i,
        {
            let w = node_to_waypoint(&simplified[i]);
            proof {
                assert(region_map.walkable_spec(waypoint_tile(node_waypoint(simplified@[i as int]))));
            }
            waypoints.push(w);
            i += 1;
        }
    } else {
        let mut i: usize = 0;
        while i < max_wps
            invariant
                len == simplified@.len(),
                max_wps == PATHFIND_MAX_SEGMENT_WAYPOINTS,
                max_wps < len,
                len * PATHFIND_MAX_SEGMENT_WAYPOINTS <= usize::MAX,
                i <= max_wps,
                waypoints@.len() == i,
                forall|j: int| 0 <= j < simplified@.len() ==> region_map.walkable_spec(waypoint_tile(node_waypoint(#[trigger] simplified@[j]))),
                forall|j: int| 0 <= j < waypoints@.len() ==> region_map.walkable_spec(waypoint_tile(#[trigger] waypoints@[j])),
                forall|j: int| 0 <= j < waypoints@.len() ==> #[trigger] waypoints@[j] == node_waypoint(simplified@[sample_index(j, len as int, max_wps as int)]),
            decreases max_wps - i,
        {
            let idx = if i == max_wps - 1 {
                len - 1
            } else {
                proof {
                    assert(i * len < max_wps * len) by (nonlinear_arith)
                        requires i < max_wps, len > 0;
                    assert((i * len) as int / (max_wps as int) < len) by (nonlinear_arith)
                        requires i * len < max_wps * len, max_wps > 0;
                    assert(i * len <= 24 * len) by (nonlinear_arith)
                        requires i < 24;
                    assert(i * len <= usize::MAX);
                }
                i * len / max_wps
            };
            let w = node_to_waypoint(&simplified[idx]);
            proof {
                assert(region_map.walkable_spec(waypoint_tile(node_waypoint(simplified@[idx as int]))));
            }
            waypoints.push(w);
            i += 1;
        }
    }
    assert(waypoints@ =~= cut_path(simplified@));
    // Make sure the goal comes last.
    let goal_tile = goal.to_tile();
    let wl = waypoints.len();
    assert(wl >= 1);
    let last = waypoints[wl - 1];
    if last.tile_x != goal_tile.x || last.tile_z != goal_tile.z {
        if waypoints.len() < PATHFIND_MAX_SEGMENT_WAYPOINTS {
            waypoints.push(Waypoint { tile_x: goal_tile.x, tile_z: goal_tile.z, flags: 0, _pad: 0 });
        } else {
            let mut w = waypoints[wl - 1];
            w.tile_x = goal_tile.x;
            w.tile_z = goal_tile.z;
            waypoints.set(wl - 1, w);
        }
    }
    PathfindResult::Found(waypoints)
}

proof fn lemma_nodes_walkable(map: &RegionMap, s: Seq<PathNode>)
    requires
        forall|i: int| 0 <= i < s.len() ==> passable_spec(map, #[trigger] s[i]),
    ensures
        forall|j: int| 0 <= j < s.len() ==> map.walkable_spec(waypoint_tile(node_waypoint(#[trigger] s[j]))),
{
    assert forall|j: int| 0 <= j < s.len() implies map.walkable_spec(waypoint_tile(node_waypoint(#[trigger] s[j]))) by {
        assert(passable_spec(map, s[j]));
        assert(waypoint_tile(node_waypoint(s[j])) == s[j].tile_spec());
    }
}

fn arm_trace(arm: &SearchArm) -> (r: Vec<(i32, i32)>)
    ensures
        r@.len() == arm.waypoints@.len(),
        forall|i: int| 0 <= i < r@.len() ==> #[trigger] r@[i] == (arm.waypoints@[i].x, arm.waypoints@[i].z),
{
    let mut t: Vec<(i32, i32)> = Vec::new();
    let mut i: usize = 0;
    while i < arm.waypoints.len()
        invariant
            i <= arm.waypoints@.len(),
            t@.len() == i,
            forall|j: int| 0 <= j < i ==> #[trigger] t@[j] == (arm.waypoints@[j].x, arm.waypoints@[j].z),
        decreases arm.waypoints@.len() - i,
    {
        let n = arm.waypoints[i];
        t.push((n.x, n.z));
        i += 1;
    }
    t
}

/// The rest of a two-arm search, at most `fuel` more rounds: each round
/// expands arm 0, then arm 1; the cells of the first arm to reach the goal
/// are the outcome. The search gives up when both arms have stopped, when an
/// arm is back at the other's start facing the way it came, or when the
/// arms hold 260 cells between them.
pub open spec fn search_rounds(map: &RegionMap, goal: PathNode, bits: Seq<u8>, a0: ArmModel, a1: ArmModel, fuel: nat) -> Option<
    Seq<PathNode>,
>
    decreases fuel,
{
    if fuel == 0 {
        None
    } else {
        let e0 = expand_model(map, bits, a0, goal);
        let n0 = e0.1;
        if n0.4 == ARM_STATE_FOUND {
            Some(n0.0)
        } else {
            let e1 = expand_model(map, e0.0, a1, goal);
            let n1 = e1.1;
            if n1.4 == ARM_STATE_FOUND {
                Some(n1.0)
            } else if n0.4 != ARM_STATE_EXPANDING && n1.4 != ARM_STATE_EXPANDING {
                None
            } else if (n0.1 == n1.5 || n1.1 == n0.5) && ((n0.2 + 2) % 4 == n0.7 || (n1.2 + 2) % 4 == n1.7) {
                None
            } else if n0.0.len() + n1.0.len() >= PATHFIND_MAX_POOL_WAYPOINTS {
                None
            } else {
                search_rounds(map, goal, e1.0, n0, n1, (fuel - 1) as nat)
            }
        }
    }
}

/// The outcome of one search attempt from `start` facing `primary_dir`:
/// the start cell marked visited, arm 0 turning right and arm 1 left, at
/// most `PATHFIND_MAX_ITERATIONS` rounds.
pub open spec fn search_outcome(map: &RegionMap, start: PathNode, goal: PathNode, primary_dir: usize) -> Option<Seq<PathNode>> {
    let bits = marked(Seq::new(2048, |i: int| 0u8), start.x, start.z);
    let a0: ArmModel = (Seq::empty(), start, primary_dir, 1usize, ARM_STATE_EXPANDING, start, start, primary_dir);
    let a1: ArmModel = (Seq::empty(), start, primary_dir, 3usize, ARM_STATE_EXPANDING, start, start, primary_dir);
    search_rounds(map, goal, bits, a0, a1, PATHFIND_MAX_ITERATIONS as nat)
}

/// One search attempt with both arms, starting in direction `primary_dir`.
/// Returns the result, the visited cells and the two arms' traces.
pub fn path_search_execute_debug(
    region_map: &RegionMap,
    start: PathNode,
    goal: PathNode,
    primary_dir: usize,
    _secondary_dir: usize,
) -> (r: (PathfindResult, VisitedBitmap, Vec<(i32, i32)>, Vec<(i32, i32)>))
    requires
        region_map.wf(),
        start.on_map_spec(),
        passable_spec(region_map, goal),
        primary_dir < 4,
    ensures
        r.0 is Found <==> search_outcome(region_map, start, goal, primary_dir) is Some,
        r.0 matches PathfindResult::Found(w) ==> valid_path(region_map, w@, goal),
        r.0 matches PathfindResult::Found(w) ==> w@ == path_from_cells(
            region_map,
            goal,
            search_outcome(region_map, start, goal, primary_dir)->0,
        ),
{
    let mut visited = VisitedBitmap::new();
    assert(visited@ =~= Seq::new(2048, |i: int| 0u8));
    visited.mark(start.x, start.z);
    let mut arm0 = SearchArm::new(start, primary_dir, 1);
    let mut arm1 = SearchArm::new(start, primary_dir, 3);
    let mut iterations: usize = 0;
    let ghost outcome = search_outcome(region_map, start, goal, primary_dir);
    assert(arm_model(arm0) == (Seq::<PathNode>::empty(), start, primary_dir, 1usize, ARM_STATE_EXPANDING, start, start, primary_dir));
    assert(arm_model(arm1) == (Seq::<PathNode>::empty(), start, primary_dir, 3usize, ARM_STATE_EXPANDING, start, start, primary_dir));
    while iterations < PATHFIND_MAX_ITERATIONS
        invariant_except_break
            outcome == search_rounds(region_map, goal, visited@, arm_model(arm0), arm_model(arm1), (PATHFIND_MAX_ITERATIONS - iterations) as nat),
        invariant
            region_map.wf(),
            outcome == search_outcome(region_map, start, goal, primary_dir),
            visited@.len() == 2048,
            passable_spec(region_map, goal),
            arm_ok(region_map, &arm0, goal),
            arm_ok(region_map, &arm1, goal),
            arm0.state != ARM_STATE_FOUND,
            arm1.state != ARM_STATE_FOUND,
            iterations <= PATHFIND_MAX_ITERATIONS,
            arm0.waypoints@.len() <= iterations,
            arm1.waypoints@.len() <= iterations,
        ensures
            outcome is None,
        decreases PATHFIND_MAX_ITERATIONS - iterations,
    {
        let ghost b0 = visited@;
        let ghost m0 = arm_model(arm0);
        let ghost m1 = arm_model(arm1);
        iterations += 1;
        if arm0.state == ARM_STATE_EXPANDING {
            expand_arm(region_map, &mut visited, &mut arm0, goal);
        } else {
            proof {
                lemma_expand_idle(region_map, b0, m0, goal);
            }
        }
        assert((visited@, arm_model(arm0)) == expand_model(region_map, b0, m0, goal));
        let ghost b1 = visited@;
        if arm0.state == ARM_STATE_FOUND {
            let t0 = arm_trace(&arm0);
            let t1 = arm_trace(&arm1);
            let result = build_path_result(region_map, start, goal, arm0.waypoints.as_slice());
            return (result, visited, t0, t1);
        }
        if arm1.state == ARM_STATE_EXPANDING {
            expand_arm(region_map, &mut visited, &mut arm1, goal);
        } else {
            proof {
                lemma_expand_idle(region_map, b1, m1, goal);
            }
        }
        assert((visited@, arm_model(arm1)) == expand_model(region_map, b1, m1, goal));
        if arm1.state == ARM_STATE_FOUND {
            let t0 = arm_trace(&arm0);
            let t1 = arm_trace(&arm1);
            let result = build_path_result(region_map, start, goal, arm1.waypoints.as_slice());
            return (result, visited, t0, t1);
        }
        if arm0.state != ARM_STATE_EXPANDING && arm1.state != ARM_STATE_EXPANDING {
            break;
        }
        // Loop detection: an arm is back at the other's start facing home.
        let f0 = arm0.facing + 2;
        let f1 = arm1.facing + 2;
        assert(f0 & 3 == f0 % 4) by (bit_vector);
        assert(f1 & 3 == f1 % 4) by (bit_vector);
        if (arm0.pos.x == arm1.start_pos.x && arm0.pos.z == arm1.start_pos.z && arm0.pos.flags == arm1.start_pos.flags)
            || (arm1.pos.x == arm0.start_pos.x && arm1.pos.z == arm0.start_pos.z && arm1.pos.flags == arm0.start_pos.flags) {
            let reverse0 = low_two_bits(f0);
            let reverse1 = low_two_bits(f1);
            if reverse0 == arm0.initial_facing || reverse1 == arm1.initial_facing {
                break;
            }
        }
        let total = arm0.waypoints.len() + arm1.waypoints.len();
        if total >= PATHFIND_MAX_POOL_WAYPOINTS {
            break;
        }
    }
    let t0 = arm_trace(&arm0);
    let t1 = arm_trace(&arm1);
    (PathfindResult::NotFound, visited, t0, t1)
}

/// One search attempt with both arms.
pub fn path_search_execute(region_map: &RegionMap, start: PathNode, goal: PathNode, primary_dir: usize, secondary_dir: usize) -> (r: PathfindResult)
    requires
        region_map.wf(),
        start.on_map_spec(),
        passable_spec(region_map, goal),
        primary_dir < 4,
    ensures
        r is Found <==> search_outcome(region_map, start, goal, primary_dir) is Some,
        r matches PathfindResult::Found(w) ==> valid_path(region_map, w@, goal),
        r matches PathfindResult::Found(w) ==> w@ == path_from_cells(
            region_map,
            goal,
            search_outcome(region_map, start, goal, primary_dir)->0,
        ),
{
    let (result, _visited, _t0, _t1) = path_search_execute_debug(region_map, start, goal, primary_dir, secondary_dir);
    result
}

/// The cell of a tile.
pub open spec fn tile_node(tile: TileCoord) -> PathNode {
    PathNode { x: (tile.x / 2) as i32, z: (tile.z / 2) as i32, flags: 0 }
}

/// The search attempts of `pathfind` from attempt `k` on: attempt `k` starts
/// `k` quarter turns round from `primary`, and the first attempt whose
/// path has at least one waypoint gives that path.
pub open spec fn retry_outcome(map: &RegionMap, start: PathNode, goal: PathNode, primary: usize, k: int) -> Option<Seq<Waypoint>>
    decreases PATHFIND_MAX_RETRIES - k,
{
    if k >= PATHFIND_MAX_RETRIES {
        None
    } else {
        let o = search_outcome(map, start, goal, ((primary + k) % 4) as usize);
        if o is Some && path_from_cells(map, goal, o->0).len() > 0 {
            Some(path_from_cells(map, goal, o->0))
        } else {
            retry_outcome(map, start, goal, primary, k + 1)
        }
    }
}

/// What `pathfind` gives from `start` to `goal`: an empty path within one
/// cell; no path from or to an unwalkable tile; otherwise the first search
/// attempt, turning round from the primary direction, that finds a path
/// with waypoints.
pub open spec fn pathfind_outcome(map: &RegionMap, start: TileCoord, goal: TileCoord) -> Option<Seq<Waypoint>> {
    let s = tile_node(start);
    let g = tile_node(goal);
    if s.x == g.x && s.z == g.z {
        Some(Seq::empty())
    } else if !map.walkable_spec(start) || !map.walkable_spec(goal) {
        None
    } else {
        retry_outcome(map, s, g, setup_directions_spec(s, g).0, 0)
    }
}

/// Whether a pathfinder result is the given outcome.
pub open spec fn result_is(r: PathfindResult, o: Option<Seq<Waypoint>>) -> bool {
    match r {
        PathfindResult::Found(w) => o == Some(w@),
        PathfindResult::NotFound => o is None,
    }
}

/// Whether two tiles lie in the same map cell.
pub open spec fn same_cell_tiles(a: TileCoord, b: TileCoord) -> bool {
    a.x / 2 == b.x / 2 && a.z / 2 == b.z / 2
}

/// Find a path from `start` to `goal`: up to `PATHFIND_MAX_RETRIES` search
/// attempts, each starting one quarter turn further round.
pub fn pathfind(region_map: &RegionMap, start: TileCoord, goal: TileCoord) -> (r: PathfindResult)
    requires
        region_map.wf(),
    ensures
        same_cell_tiles(start, goal) ==> (r matches PathfindResult::Found(w) && w@.len() == 0),
        !same_cell_tiles(start, goal) ==> {
            &&& (!region_map.walkable_spec(start) || !region_map.walkable_spec(goal)) ==> r is NotFound
            &&& r matches PathfindResult::Found(w) ==> valid_path(region_map, w@, PathNode { x: (goal.x / 2) as i32, z: (goal.z / 2) as i32, flags: 0 })
        },
        result_is(r, pathfind_outcome(region_map, start, goal)),
{
    let start_node = PathNode::from_tile(start);
    let goal_node = PathNode::from_tile(goal);
    if start_node.x == goal_node.x && start_node.z == goal_node.z {
        return PathfindResult::Found(Vec::new());
    }
    if !region_map.is_walkable(start) || !region_map.is_walkable(goal) {
        return PathfindResult::NotFound;
    }
    proof {
        lemma_tile_node_cell(goal);
        lemma_node_tile(goal_node);
    }
    let (primary_dir, secondary_dir) = setup_directions(start_node, goal_node);
    let mut retry: usize = 0;
    while retry < PATHFIND_MAX_RETRIES
        invariant
            region_map.wf(),
            start_node.on_map_spec(),
            passable_spec(region_map, goal_node),
            primary_dir < 4,
            secondary_dir < 4,
            goal_node == (PathNode { x: (goal.x / 2) as i32, z: (goal.z / 2) as i32, flags: 0 }),
            start_node == (PathNode { x: (start.x / 2) as i32, z: (start.z / 2) as i32, flags: 0 }),
            !(start_node.x == goal_node.x && start_node.z == goal_node.z),
            region_map.walkable_spec(start) && region_map.walkable_spec(goal),
            (primary_dir, secondary_dir) == setup_directions_spec(start_node, goal_node),
            retry <= PATHFIND_MAX_RETRIES,
            retry_outcome(region_map, start_node, goal_node, primary_dir, 0) == retry_outcome(
                region_map,
                start_node,
                goal_node,
                primary_dir,
                retry as int,
            ),
        decreases PATHFIND_MAX_RETRIES - retry,
    {
        let turned = primary_dir + retry;
        let pdir = low_two_bits(turned);
        assert(turned & 3 == turned % 4) by (bit_vector);
        let sdir = low_two_bits(secondary_dir + retry);
        let result = path_search_execute(region_map, start_node, goal_node, pdir, sdir);
        let done = match &result {
            PathfindResult::Found(waypoints) => waypoints.len() > 0,
            PathfindResult::NotFound => false,
        };
        if done {
            return result;
        }
        retry += 1;
    }
    PathfindResult::NotFound
}

/// Run the pathfinder and also report what the last search attempt
/// explored.
pub fn pathfind_debug(region_map: &RegionMap, start: TileCoord, goal: TileCoord) -> (r: PathfindDebug)
    requires
        region_map.wf(),
    ensures
        same_cell_tiles(start, goal) ==> (r.result matches PathfindResult::Found(w) && w@.len() == 0),
        !same_cell_tiles(start, goal) ==> {
            &&& (!region_map.walkable_spec(start) || !region_map.walkable_spec(goal)) ==> r.result is NotFound
            &&& r.result matches PathfindResult::Found(w) ==> valid_path(region_map, w@, PathNode { x: (goal.x / 2) as i32, z: (goal.z / 2) as i32, flags: 0 })
        },
        result_is(r.result, pathfind_outcome(region_map, start, goal)),
{
    let start_node = PathNode::from_tile(start);
    let goal_node = PathNode::from_tile(goal);
    let mut debug = PathfindDebug {
        result: PathfindResult::NotFound,
        visited: VisitedBitmap::new(),
        arm0_trace: Vec::new(),
        arm1_trace: Vec::new(),
    };
    if start_node.x == goal_node.x && start_node.z == goal_node.z {
        debug.result = PathfindResult::Found(Vec::new());
        return debug;
    }
    if !region_map.is_walkable(start) || !region_map.is_walkable(goal) {
        return debug;
    }
    proof {
        lemma_tile_node_cell(goal);
        lemma_node_tile(goal_node);
    }
    let (primary_dir, secondary_dir) = setup_directions(start_node, goal_node);
    let mut retry: usize = 0;
    while retry < PATHFIND_MAX_RETRIES
        invariant
            region_map.wf(),
            start_node.on_map_spec(),
            passable_spec(region_map, goal_node),
            primary_dir < 4,
            secondary_dir < 4,
            goal_node == (PathNode { x: (goal.x / 2) as i32, z: (goal.z / 2) as i32, flags: 0 }),
            start_node == (PathNode { x: (start.x / 2) as i32, z: (start.z / 2) as i32, flags: 0 }),
            !(start_node.x == goal_node.x && start_node.z == goal_node.z),
            region_map.walkable_spec(start) && region_map.walkable_spec(goal),
            (primary_dir, secondary_dir) == setup_directions_spec(start_node, goal_node),
            retry <= PATHFIND_MAX_RETRIES,
            retry_outcome(region_map, start_node, goal_node, primary_dir, 0) == retry_outcome(
                region_map,
                start_node,
                goal_node,
                primary_dir,
                retry as int,
            ),
            debug.result is NotFound,
        decreases PATHFIND_MAX_RETRIES - retry,
    {
        let turned = primary_dir + retry;
        let pdir = low_two_bits(turned);
        assert(turned & 3 == turned % 4) by (bit_vector);
        let sdir = low_two_bits(secondary_dir + retry);
        let (result, visited, t0, t1) = path_search_execute_debug(region_map, start_node, goal_node, pdir, sdir);
        debug.visited = visited;
        debug.arm0_trace = t0;
        debug.arm1_trace = t1;
        let done = match &result {
            PathfindResult::Found(waypoints) => waypoints.len() > 0,
            PathfindResult::NotFound => false,
        };
        if done {
            debug.result = result;
            return debug;
        }
        retry += 1;
    }
    debug
}

} // verus!
