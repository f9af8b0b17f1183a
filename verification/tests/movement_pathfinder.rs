use pop3::engine::movement::constants::ARM_STATE_EXPANDING;
use pop3::engine::movement::pathfinder::{bounds_check_arm, line_of_sight, optimize_path_los, setup_directions, SearchArm};
use pop3::engine::movement::{pathfind, pathfind_debug, PathNode, PathfindDebug, PathfindResult, RegionMap, TileCoord, VisitedBitmap, Waypoint};

#[test]
fn same_tile_returns_empty_path() {
    let map = RegionMap::new();
    let tile = TileCoord::new(0x10, 0x10);
    let result = pathfind(&map, tile, tile);
    assert_eq!(result, PathfindResult::Found(vec![]));
}

#[test]
fn adjacent_walkable_tiles() {
    let map = RegionMap::new(); // All walkable by default
    let start = TileCoord::new(0x10, 0x10);
    let goal = TileCoord::new(0x12, 0x10); // One tile east
    let result = pathfind(&map, start, goal);
    match result {
        PathfindResult::Found(wps) => {
            assert!(!wps.is_empty());
            // Last waypoint should be at or near the goal
            let last = wps.last().unwrap();
            assert_eq!(last.tile_x, goal.x);
            assert_eq!(last.tile_z, goal.z);
        }
        PathfindResult::NotFound => panic!("Should find path between adjacent tiles"),
    }
}

#[test]
fn straight_line_path() {
    let map = RegionMap::new();
    let start = TileCoord::new(0x10, 0x10);
    let goal = TileCoord::new(0x20, 0x10); // 8 tiles east
    let result = pathfind(&map, start, goal);
    match result {
        PathfindResult::Found(wps) => {
            assert!(!wps.is_empty());
            let last = wps.last().unwrap();
            assert_eq!(last.tile_x, goal.x);
            assert_eq!(last.tile_z, goal.z);
        }
        PathfindResult::NotFound => panic!("Should find straight-line path"),
    }
}

#[test]
fn unwalkable_start_returns_not_found() {
    let mut map = RegionMap::new();
    let start = TileCoord::new(0x10, 0x10);
    let goal = TileCoord::new(0x20, 0x20);

    // Make start tile unwalkable
    map.get_cell_mut(start).terrain_type = 5;
    map.set_terrain_flags(5, 0x00);

    let result = pathfind(&map, start, goal);
    assert_eq!(result, PathfindResult::NotFound);
}

#[test]
fn unwalkable_goal_returns_not_found() {
    let mut map = RegionMap::new();
    let start = TileCoord::new(0x10, 0x10);
    let goal = TileCoord::new(0x20, 0x20);

    // Make goal tile unwalkable
    map.get_cell_mut(goal).terrain_type = 5;
    map.set_terrain_flags(5, 0x00);

    let result = pathfind(&map, start, goal);
    assert_eq!(result, PathfindResult::NotFound);
}

#[test]
fn path_around_obstacle() {
    let mut map = RegionMap::new();
    map.set_terrain_flags(5, 0x00); // terrain class 5 = unwalkable

    let start = TileCoord::new(0x10, 0x10);
    let goal = TileCoord::new(0x10, 0x1A); // 5 tiles south

    // Create a wall at z=0x14 spanning x=0x0E to 0x12
    // (blocking the direct path)
    for x in (0x0E..=0x12).step_by(2) {
        map.get_cell_mut(TileCoord::new(x, 0x14)).terrain_type = 5;
    }

    let result = pathfind(&map, start, goal);
    match result {
        PathfindResult::Found(wps) => {
            assert!(!wps.is_empty());
            let last = wps.last().unwrap();
            assert_eq!(last.tile_x, goal.x);
            assert_eq!(last.tile_z, goal.z);

            // Verify no waypoint is on an unwalkable cell
            for wp in &wps {
                let tile = TileCoord::new(wp.tile_x, wp.tile_z);
                assert!(
                    map.is_walkable(tile),
                    "Waypoint ({:#x}, {:#x}) is on unwalkable terrain",
                    wp.tile_x,
                    wp.tile_z
                );
            }
        }
        PathfindResult::NotFound => panic!("Should find path around obstacle"),
    }
}

#[test]
fn completely_enclosed_returns_not_found() {
    let mut map = RegionMap::new();
    map.set_terrain_flags(5, 0x00);

    let start = TileCoord::new(0x10, 0x10);
    let goal = TileCoord::new(0x30, 0x30);

    // Enclose start in a box of unwalkable terrain
    for x in (0x0C..=0x14).step_by(2) {
        map.get_cell_mut(TileCoord::new(x, 0x0E)).terrain_type = 5;
        map.get_cell_mut(TileCoord::new(x, 0x12)).terrain_type = 5;
    }
    for z in (0x0E..=0x12).step_by(2) {
        map.get_cell_mut(TileCoord::new(0x0C, z)).terrain_type = 5;
        map.get_cell_mut(TileCoord::new(0x14, z)).terrain_type = 5;
    }

    let result = pathfind(&map, start, goal);
    assert_eq!(result, PathfindResult::NotFound);
}

#[test]
fn path_node_tile_roundtrip() {
    let tile = TileCoord::new(0x20, 0x40);
    let node = PathNode::from_tile(tile);
    let back = node.to_tile();
    assert_eq!(back.x, tile.x);
    assert_eq!(back.z, tile.z);
}

#[test]
fn direction_step() {
    let node = PathNode::new(5, 5);
    // South: dz=+1
    let s = node.step(0);
    assert_eq!((s.x, s.z), (5, 6));
    // East: dx=+1
    let e = node.step(1);
    assert_eq!((e.x, e.z), (6, 5));
    // North: dz=-1
    let n = node.step(2);
    assert_eq!((n.x, n.z), (5, 4));
    // West: dx=-1
    let w = node.step(3);
    assert_eq!((w.x, w.z), (4, 5));
}

#[test]
fn setup_directions_east_dominant() {
    let start = PathNode::new(5, 5);
    let goal = PathNode::new(20, 8); // Mostly east, slightly south
    let (primary, secondary) = setup_directions(start, goal);
    assert_eq!(primary, 1); // East
    assert_eq!(secondary, 0); // South
}

#[test]
fn setup_directions_south_dominant() {
    let start = PathNode::new(5, 5);
    let goal = PathNode::new(7, 20); // Slightly east, mostly south
    let (primary, secondary) = setup_directions(start, goal);
    assert_eq!(primary, 0); // South
    assert_eq!(secondary, 1); // East
}

#[test]
fn los_optimizer_removes_collinear() {
    // A straight line east on open terrain should optimize to start and end
    let map = RegionMap::new();
    let nodes: Vec<PathNode> = (0..10).map(|i| PathNode::new(i, 0)).collect();
    let optimized = optimize_path_los(&map, &nodes);
    assert_eq!(optimized.len(), 2);
    assert_eq!(optimized[0], nodes[0]);
    assert_eq!(optimized[1], nodes[9]);
}

#[test]
fn los_optimizer_keeps_turns_around_wall() {
    // East then south — on open terrain, LOS can shortcut diagonally
    let map = RegionMap::new();
    let nodes = vec![
        PathNode::new(0, 0),
        PathNode::new(1, 0),
        PathNode::new(2, 0),
        PathNode::new(2, 1),
        PathNode::new(2, 2),
    ];
    let optimized = optimize_path_los(&map, &nodes);
    // On open terrain, LOS from (0,0) to (2,2) is clear → optimize to 2 points
    assert_eq!(optimized.len(), 2);
    assert_eq!(optimized[0], PathNode::new(0, 0));
    assert_eq!(optimized[1], PathNode::new(2, 2));
}

#[test]
fn los_rejects_corner_cutting() {
    // Diagonal LOS from (0,0) to (2,2) should be blocked when
    // corner cells form an L-shape obstacle.
    //
    //   (0,0) .  .       Path tries: (0,0) → (2,2) diagonally
    //      .  W  .       Wall at (1,0) — blocks corner
    //      .  .  (2,2)
    //
    let mut map = RegionMap::new();
    map.set_terrain_flags(1, 0x00); // terrain class 1 = unwalkable

    // Place wall at cell (1,0) — this is the corner cell
    set_wall(&mut map, 1, 0);

    // LOS from (0,0) to (2,2) cuts through the corner at (1,0)/(0,1)
    // With corner-cutting check, this should be rejected
    assert!(
        !line_of_sight(&map, PathNode::new(0, 0), PathNode::new(2, 2)),
        "LOS should be blocked when diagonal cuts through wall corner at (1,0)"
    );

    // But LOS along cardinal directions past the wall should still work
    assert!(line_of_sight(
        &map,
        PathNode::new(0, 0),
        PathNode::new(0, 2)
    ));

    // And LOS on open terrain diagonal should still work
    let clean_map = RegionMap::new();
    assert!(line_of_sight(
        &clean_map,
        PathNode::new(0, 0),
        PathNode::new(2, 2)
    ));
}

#[test]
fn los_optimizer_preserves_waypoints_at_corners() {
    // Path goes E then S around a wall corner.
    // The optimizer should NOT collapse to a diagonal that clips the corner.
    //
    //   S → C     S=(0,0), C=(1,0)   (path goes E then S)
    //   W   G     Wall at (0,1)       G=(1,1)
    //
    // Diagonal from S(0,0) to G(1,1) cuts through wall corner at (0,1).
    // Bresenham only visits (0,0) and (1,1) — both passable — so without
    // the corner check the optimizer collapses to 2 points.
    let mut map = RegionMap::new();
    map.set_terrain_flags(1, 0x00);
    set_wall(&mut map, 0, 1);

    let nodes = vec![
        PathNode::new(0, 0),
        PathNode::new(1, 0), // east
        PathNode::new(1, 1), // south
    ];
    let optimized = optimize_path_los(&map, &nodes);
    // With corner-cutting fix, the optimizer must keep the intermediate
    // waypoint at (1,0) since the diagonal (0,0)→(1,1) clips wall (0,1).
    assert!(
        optimized.len() >= 3,
        "Optimizer should preserve waypoints to avoid corner-cutting, got {} waypoints: {:?}",
        optimized.len(),
        optimized
    );
}

#[test]
fn los_optimizer_blocked_keeps_waypoints() {
    // LOS blocked by wall should preserve intermediate waypoints
    let mut map = RegionMap::new();
    map.set_terrain_flags(5, 0x00);
    // Wall at cell (1,1) — blocks direct LOS from (0,0) to (2,0)
    // Cells map to tiles at 2x, so cell (1,1) = tile (2,2)
    map.get_cell_mut(TileCoord::new(2, 2)).terrain_type = 5;

    let nodes = vec![
        PathNode::new(0, 0),
        PathNode::new(0, 2), // Go south around wall
        PathNode::new(2, 2), // Then east
    ];
    // LOS from (0,0) to (2,2) passes through (1,1) which is blocked
    let optimized = optimize_path_los(&map, &nodes);
    // Should keep the intermediate waypoint since LOS is blocked
    assert!(optimized.len() >= 2);
}

#[test]
fn long_diagonal_path() {
    let map = RegionMap::new();
    let start = TileCoord::new(0x10, 0x10);
    let goal = TileCoord::new(0x30, 0x30); // Diagonal, 16 tiles each axis
    let result = pathfind(&map, start, goal);
    match result {
        PathfindResult::Found(wps) => {
            assert!(!wps.is_empty());
            let last = wps.last().unwrap();
            assert_eq!(last.tile_x, goal.x);
            assert_eq!(last.tile_z, goal.z);
        }
        PathfindResult::NotFound => panic!("Should find diagonal path on open map"),
    }
}

#[test]
fn visited_bitmap_prevents_revisiting() {
    let mut bm = VisitedBitmap::new();
    assert!(!bm.is_visited(5, 5));
    bm.mark(5, 5);
    assert!(bm.is_visited(5, 5));
    assert!(!bm.is_visited(5, 6)); // Adjacent cell unaffected
    assert!(!bm.is_visited(6, 5));
}

#[test]
fn visited_bitmap_covers_full_grid() {
    let mut bm = VisitedBitmap::new();
    // Mark corners of the 128x128 grid
    for &(x, z) in &[(0, 0), (127, 0), (0, 127), (127, 127)] {
        bm.mark(x, z);
        assert!(bm.is_visited(x, z));
    }
}

#[test]
fn wall_follow_rotation_direction() {
    // Verify the SUB rotation goes the correct direction for each arm.
    // Right arm (turn_dir=1): facing = (facing - 1) & 3 → clockwise (S→W→N→E)
    let right_sequence: Vec<usize> = (0..4)
        .scan(0usize, |f, _| {
            let prev = *f;
            *f = f.wrapping_sub(1) & 3;
            Some(prev)
        })
        .collect();
    assert_eq!(right_sequence, vec![0, 3, 2, 1]); // S, W, N, E

    // Left arm (turn_dir=3): facing = (facing - 3) & 3 → counterclockwise (S→E→N→W)
    let left_sequence: Vec<usize> = (0..4)
        .scan(0usize, |f, _| {
            let prev = *f;
            *f = f.wrapping_sub(3) & 3;
            Some(prev)
        })
        .collect();
    assert_eq!(left_sequence, vec![0, 1, 2, 3]); // S, E, N, W
}

#[test]
fn bounding_box_rejects_exact_checkpoint() {
    // If arm position == checkpoint exactly, it stalls (anti-loop).
    // This is the only bounds check the 4-layer system keeps.
    let mut arm = SearchArm::new(PathNode::new(5, 5), 0, 1);
    arm.checkpoint = PathNode::new(5, 10);

    arm.pos = PathNode::new(5, 10); // exactly at checkpoint
    assert!(!bounds_check_arm(&arm));
}

#[test]
fn bounding_box_allows_far_positions() {
    // With the simplified bounds check (anti-loop only), positions far from
    // start/checkpoint are allowed — the visited bitmap and iteration limit
    // handle containment instead of a restrictive bounding box.
    let mut arm = SearchArm::new(PathNode::new(10, 10), 0, 1);
    arm.checkpoint = PathNode::new(10, 15);

    // Far from both parent and checkpoint — still allowed
    arm.pos = PathNode::new(10, 50);
    assert!(bounds_check_arm(&arm));

    arm.pos = PathNode::new(50, 10);
    assert!(bounds_check_arm(&arm));

    // Only exact checkpoint match is rejected
    arm.pos = PathNode::new(10, 15);
    assert!(!bounds_check_arm(&arm));
}

#[test]
fn checkpoint_advances_on_beeline() {
    // Verify that beeline steps advance the checkpoint
    let map = RegionMap::new();
    let start = TileCoord::new(0x10, 0x10);
    let goal = TileCoord::new(0x20, 0x10); // East
    let result = pathfind(&map, start, goal);
    // On open terrain, beeline should find the path
    assert!(matches!(result, PathfindResult::Found(_)));
}

// ── Demo test case infrastructure ────────────────────────────────────

/// Set a cell as unwalkable wall (terrain class 1) at cell coords.
fn set_wall(map: &mut RegionMap, x: usize, z: usize) {
    let tile = TileCoord::new((x * 2) as u8, (z * 2) as u8);
    map.get_cell_mut(tile).terrain_type = 1;
}

/// Replicate the demo's synthetic test map with all 8 obstacles.
fn build_test_map() -> RegionMap {
    let mut map = RegionMap::new();
    map.set_terrain_flags(1, 0x00); // terrain class 1 = wall

    // ③ Block 4×3 at (20,50)→(23,52)
    for z in 50..=52 {
        for x in 20..=23 {
            set_wall(&mut map, x, z);
        }
    }
    // ④ Long wall at z=55, x=45..=70
    for x in 45..=70 {
        set_wall(&mut map, x, 55);
    }
    // ⑤ U-trap: left/right walls + bottom, open top
    for z in 72..=90 {
        set_wall(&mut map, 60, z);
        set_wall(&mut map, 66, z);
    }
    for x in 60..=66 {
        set_wall(&mut map, x, 90);
    }
    // ⑥ Corridor: two offset vertical walls with gaps
    for z in 74..=81 {
        set_wall(&mut map, 20, z);
    }
    for z in 84..=86 {
        set_wall(&mut map, 20, z);
    }
    for z in 74..=76 {
        set_wall(&mut map, 28, z);
    }
    for z in 79..=86 {
        set_wall(&mut map, 28, z);
    }
    // ⑦ Enclosed box (85,38)→(95,48), solid fill
    for z in 38..=48 {
        for x in 85..=95 {
            set_wall(&mut map, x, z);
        }
    }
    // ⑧ L-wall: vertical x=50 z=18..=35, horizontal x=50..=62 z=18
    for z in 18..=35 {
        set_wall(&mut map, 50, z);
    }
    for x in 50..=62 {
        set_wall(&mut map, x, 18);
    }
    // ⑨ C-shape (open left)
    for x in 10..=18 {
        set_wall(&mut map, x, 105);
    }
    for z in 105..=120 {
        set_wall(&mut map, 18, z);
    }
    for x in 10..=18 {
        set_wall(&mut map, x, 120);
    }
    // ⑩ Small wall near map edge
    for z in 62..=63 {
        set_wall(&mut map, 3, z);
    }

    map
}

/// Convert cell coords to TileCoord for pathfinder input.
fn cell_to_tile(cx: usize, cz: usize) -> TileCoord {
    TileCoord::new((cx * 2) as u8, (cz * 2) as u8)
}

/// Waypoint → cell coords string.
fn wp_cell(wp: &Waypoint) -> (i32, i32) {
    (wp.tile_x as i32 >> 1, wp.tile_z as i32 >> 1)
}

/// Direction label between two cell-coord pairs.
fn dir_label(from: (i32, i32), to: (i32, i32)) -> &'static str {
    let dx = (to.0 - from.0).signum();
    let dz = (to.1 - from.1).signum();
    match (dx, dz) {
        (1, 0) => "E",
        (-1, 0) => "W",
        (0, 1) => "S",
        (0, -1) => "N",
        (1, 1) => "SE",
        (1, -1) => "NE",
        (-1, 1) => "SW",
        (-1, -1) => "NW",
        _ => "?",
    }
}

/// Print full debug diagnostics for a test case.
fn print_debug(name: &str, start: (usize, usize), goal: (usize, usize), debug: &PathfindDebug) {
    println!("\n=== {} ===", name);
    println!(
        "  Start: ({},{})  Goal: ({},{})",
        start.0, start.1, goal.0, goal.1
    );
    println!(
        "  arm0 steps: {}  arm1 steps: {}",
        debug.arm0_trace.len(),
        debug.arm1_trace.len()
    );
    match &debug.result {
        PathfindResult::Found(wps) => {
            println!("  Result: FOUND ({} waypoints)", wps.len());
            for (i, wp) in wps.iter().enumerate() {
                let c = wp_cell(wp);
                println!(
                    "    wp[{}]: tile=({:#04x},{:#04x}) cell=({},{})",
                    i, wp.tile_x, wp.tile_z, c.0, c.1
                );
            }
            // Direction chain
            let dirs: Vec<&str> = wps
                .windows(2)
                .map(|p| dir_label(wp_cell(&p[0]), wp_cell(&p[1])))
                .collect();
            println!("  Dirs: {}", dirs.join(","));
            // Endpoint check
            if let (Some(first), Some(last)) = (wps.first(), wps.last()) {
                let fc = wp_cell(first);
                let lc = wp_cell(last);
                let sd = (fc.0 - start.0 as i32).abs() + (fc.1 - start.1 as i32).abs();
                let gd = (lc.0 - goal.0 as i32).abs() + (lc.1 - goal.1 as i32).abs();
                println!("  Start wp dist: {}  Goal wp dist: {}", sd, gd);
            }
        }
        PathfindResult::NotFound => {
            println!("  Result: NOT FOUND");
        }
    }
    // Print last 5 positions of each arm trace for context
    if !debug.arm0_trace.is_empty() {
        let a0 = &debug.arm0_trace;
        let start_idx = a0.len().saturating_sub(5);
        println!("  arm0 tail: {:?}", &a0[start_idx..]);
    }
    if !debug.arm1_trace.is_empty() {
        let a1 = &debug.arm1_trace;
        let start_idx = a1.len().saturating_sub(5);
        println!("  arm1 tail: {:?}", &a1[start_idx..]);
    }
}

// ── Individual demo test cases ───────────────────────────────────────

#[test]
fn demo_case_01_beeline_straight() {
    let map = build_test_map();
    let start = (10, 20);
    let goal = (35, 20);
    let debug = pathfind_debug(
        &map,
        cell_to_tile(start.0, start.1),
        cell_to_tile(goal.0, goal.1),
    );
    print_debug("Case 1: Beeline straight", start, goal, &debug);
    match &debug.result {
        PathfindResult::Found(wps) => {
            assert!(
                wps.len() >= 2 && wps.len() <= 3,
                "expected 2-3 wps, got {}",
                wps.len()
            );
            let dirs: Vec<&str> = wps
                .windows(2)
                .map(|p| dir_label(wp_cell(&p[0]), wp_cell(&p[1])))
                .collect();
            assert!(
                dirs.iter().any(|d| *d == "E"),
                "expected E direction, got {:?}",
                dirs
            );
        }
        PathfindResult::NotFound => panic!("expected FOUND"),
    }
}

#[test]
fn demo_case_02_beeline_diagonal() {
    let map = build_test_map();
    let start = (10, 35);
    let goal = (30, 45);
    let debug = pathfind_debug(
        &map,
        cell_to_tile(start.0, start.1),
        cell_to_tile(goal.0, goal.1),
    );
    print_debug("Case 2: Beeline diagonal", start, goal, &debug);
    match &debug.result {
        PathfindResult::Found(wps) => {
            assert!(
                wps.len() >= 2 && wps.len() <= 3,
                "expected 2-3 wps, got {}",
                wps.len()
            );
            let dirs: Vec<&str> = wps
                .windows(2)
                .map(|p| dir_label(wp_cell(&p[0]), wp_cell(&p[1])))
                .collect();
            assert!(
                dirs.iter().any(|d| *d == "SE"),
                "expected SE direction, got {:?}",
                dirs
            );
        }
        PathfindResult::NotFound => panic!("expected FOUND"),
    }
}

#[test]
fn demo_case_03_around_block() {
    let map = build_test_map();
    let start = (16, 51);
    let goal = (28, 51);
    let debug = pathfind_debug(
        &map,
        cell_to_tile(start.0, start.1),
        cell_to_tile(goal.0, goal.1),
    );
    print_debug("Case 3: Around block", start, goal, &debug);
    match &debug.result {
        PathfindResult::Found(wps) => {
            assert!(
                wps.len() >= 3 && wps.len() <= 8,
                "expected 3-8 wps, got {}",
                wps.len()
            );
            // Check endpoints near start/goal
            let fc = wp_cell(wps.first().unwrap());
            let lc = wp_cell(wps.last().unwrap());
            assert!(
                (fc.0 - 16).abs() + (fc.1 - 51).abs() <= 2,
                "start wp {:?} too far from (16,51)",
                fc
            );
            assert!(
                (lc.0 - 28).abs() + (lc.1 - 51).abs() <= 2,
                "goal wp {:?} too far from (28,51)",
                lc
            );
        }
        PathfindResult::NotFound => panic!("expected FOUND"),
    }
}

#[test]
fn demo_case_04_long_wall() {
    let map = build_test_map();
    let start = (55, 50);
    let goal = (55, 60);
    let debug = pathfind_debug(
        &map,
        cell_to_tile(start.0, start.1),
        cell_to_tile(goal.0, goal.1),
    );
    print_debug("Case 4: Long wall", start, goal, &debug);
    match &debug.result {
        PathfindResult::Found(wps) => {
            assert!(
                wps.len() >= 3 && wps.len() <= 8,
                "expected 3-8 wps, got {}",
                wps.len()
            );
            let fc = wp_cell(wps.first().unwrap());
            let lc = wp_cell(wps.last().unwrap());
            assert!(
                (fc.0 - 55).abs() + (fc.1 - 50).abs() <= 2,
                "start wp {:?} too far from (55,50)",
                fc
            );
            assert!(
                (lc.0 - 55).abs() + (lc.1 - 60).abs() <= 2,
                "goal wp {:?} too far from (55,60)",
                lc
            );
        }
        PathfindResult::NotFound => panic!("expected FOUND"),
    }
}

#[test]
fn demo_case_05_u_trap() {
    let map = build_test_map();
    let start = (63, 70);
    let goal = (63, 95);
    let debug = pathfind_debug(
        &map,
        cell_to_tile(start.0, start.1),
        cell_to_tile(goal.0, goal.1),
    );
    print_debug("Case 5: U-trap", start, goal, &debug);
    match &debug.result {
        PathfindResult::Found(wps) => {
            assert!(
                wps.len() >= 3 && wps.len() <= 12,
                "expected 3-12 wps, got {}",
                wps.len()
            );
            let fc = wp_cell(wps.first().unwrap());
            let lc = wp_cell(wps.last().unwrap());
            assert!(
                (fc.0 - 63).abs() + (fc.1 - 70).abs() <= 2,
                "start wp {:?} too far from (63,70)",
                fc
            );
            assert!(
                (lc.0 - 63).abs() + (lc.1 - 95).abs() <= 2,
                "goal wp {:?} too far from (63,95)",
                lc
            );
        }
        PathfindResult::NotFound => panic!("expected FOUND"),
    }
}

#[test]
fn demo_case_06_corridor() {
    let map = build_test_map();
    let start = (15, 80);
    let goal = (35, 80);
    let debug = pathfind_debug(
        &map,
        cell_to_tile(start.0, start.1),
        cell_to_tile(goal.0, goal.1),
    );
    print_debug("Case 6: Corridor", start, goal, &debug);
    match &debug.result {
        PathfindResult::Found(wps) => {
            assert!(
                wps.len() >= 3 && wps.len() <= 10,
                "expected 3-10 wps, got {}",
                wps.len()
            );
            let fc = wp_cell(wps.first().unwrap());
            let lc = wp_cell(wps.last().unwrap());
            assert!(
                (fc.0 - 15).abs() + (fc.1 - 80).abs() <= 2,
                "start wp {:?} too far from (15,80)",
                fc
            );
            assert!(
                (lc.0 - 35).abs() + (lc.1 - 80).abs() <= 2,
                "goal wp {:?} too far from (35,80)",
                lc
            );
        }
        PathfindResult::NotFound => panic!("expected FOUND"),
    }
}

#[test]
fn demo_case_07_enclosed() {
    let map = build_test_map();
    let start = (80, 43);
    let goal = (90, 43);
    let debug = pathfind_debug(
        &map,
        cell_to_tile(start.0, start.1),
        cell_to_tile(goal.0, goal.1),
    );
    print_debug("Case 7: Enclosed", start, goal, &debug);
    assert!(
        matches!(debug.result, PathfindResult::NotFound),
        "expected NOT FOUND (goal inside solid box)"
    );
}

#[test]
fn demo_case_08_l_wall_corner() {
    let map = build_test_map();
    let start = (48, 25);
    let goal = (55, 25);
    let debug = pathfind_debug(
        &map,
        cell_to_tile(start.0, start.1),
        cell_to_tile(goal.0, goal.1),
    );
    print_debug("Case 8: L-wall corner", start, goal, &debug);
    match &debug.result {
        PathfindResult::Found(wps) => {
            assert!(
                wps.len() >= 3 && wps.len() <= 8,
                "expected 3-8 wps, got {}",
                wps.len()
            );
            let fc = wp_cell(wps.first().unwrap());
            let lc = wp_cell(wps.last().unwrap());
            assert!(
                (fc.0 - 48).abs() + (fc.1 - 25).abs() <= 2,
                "start wp {:?} too far from (48,25)",
                fc
            );
            assert!(
                (lc.0 - 55).abs() + (lc.1 - 25).abs() <= 2,
                "goal wp {:?} too far from (55,25)",
                lc
            );
        }
        PathfindResult::NotFound => panic!("expected FOUND"),
    }
}

#[test]
fn demo_case_09_c_shape() {
    let map = build_test_map();
    let start = (12, 110);
    let goal = (25, 110);
    let debug = pathfind_debug(
        &map,
        cell_to_tile(start.0, start.1),
        cell_to_tile(goal.0, goal.1),
    );
    print_debug("Case 9: C-shape", start, goal, &debug);
    match &debug.result {
        PathfindResult::Found(wps) => {
            assert!(
                wps.len() >= 3 && wps.len() <= 10,
                "expected 3-10 wps, got {}",
                wps.len()
            );
            let fc = wp_cell(wps.first().unwrap());
            let lc = wp_cell(wps.last().unwrap());
            assert!(
                (fc.0 - 12).abs() + (fc.1 - 110).abs() <= 2,
                "start wp {:?} too far from (12,110)",
                fc
            );
            assert!(
                (lc.0 - 25).abs() + (lc.1 - 110).abs() <= 2,
                "goal wp {:?} too far from (25,110)",
                lc
            );
        }
        PathfindResult::NotFound => panic!("expected FOUND"),
    }
}

#[test]
fn demo_case_10_map_edge() {
    let map = build_test_map();
    let start = (3, 55);
    let goal = (3, 70);
    let debug = pathfind_debug(
        &map,
        cell_to_tile(start.0, start.1),
        cell_to_tile(goal.0, goal.1),
    );
    print_debug("Case 10: Map edge", start, goal, &debug);
    match &debug.result {
        PathfindResult::Found(wps) => {
            assert!(
                wps.len() >= 3 && wps.len() <= 6,
                "expected 3-6 wps, got {}",
                wps.len()
            );
            let fc = wp_cell(wps.first().unwrap());
            let lc = wp_cell(wps.last().unwrap());
            assert!(
                (fc.0 - 3).abs() + (fc.1 - 55).abs() <= 2,
                "start wp {:?} too far from (3,55)",
                fc
            );
            assert!(
                (lc.0 - 3).abs() + (lc.1 - 70).abs() <= 2,
                "goal wp {:?} too far from (3,70)",
                lc
            );
        }
        PathfindResult::NotFound => panic!("expected FOUND"),
    }
}


#[test]
fn found_paths_stay_on_walkable_cells_and_end_at_the_goal() {
    let map = build_test_map();
    for &(s, g) in &[((10, 20), (35, 20)), ((16, 51), (28, 51)), ((63, 70), (63, 95))] {
        let start = cell_to_tile(s.0, s.1);
        let goal = cell_to_tile(g.0, g.1);
        match pathfind(&map, start, goal) {
            PathfindResult::Found(wps) => {
                assert!(!wps.is_empty() && wps.len() <= 24);
                let last = wps.last().unwrap();
                assert_eq!((last.tile_x, last.tile_z), (goal.x, goal.z));
                for wp in &wps {
                    assert!(map.is_walkable(TileCoord::new(wp.tile_x, wp.tile_z)));
                }
            }
            PathfindResult::NotFound => panic!("expected a path"),
        }
    }
}

#[test]
fn new_arm_starts_expanding_at_its_start() {
    let arm = SearchArm::new(PathNode::new(3, 4), 2, 3);
    assert_eq!(arm.state, ARM_STATE_EXPANDING);
    assert_eq!(arm.pos, PathNode::new(3, 4));
    assert_eq!(arm.checkpoint, PathNode::new(3, 4));
    assert!(arm.waypoints.is_empty());
}

#[test]
fn debug_run_finds_what_the_pathfinder_finds() {
    let mut map = RegionMap::new();
    map.set_terrain_flags(5, 0x00);
    for x in (0x0E..=0x12).step_by(2) {
        map.get_cell_mut(TileCoord::new(x, 0x14)).terrain_type = 5;
    }
    let cases = [
        (TileCoord::new(0x10, 0x10), TileCoord::new(0x10, 0x1A)),
        (TileCoord::new(0x10, 0x10), TileCoord::new(0x11, 0x11)),
        (TileCoord::new(0x10, 0x10), TileCoord::new(0x10, 0x14)),
        (TileCoord::new(0x20, 0x08), TileCoord::new(0x04, 0x30)),
    ];
    for (start, goal) in cases {
        assert_eq!(pathfind_debug(&map, start, goal).result, pathfind(&map, start, goal));
    }
}
