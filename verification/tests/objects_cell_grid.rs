use pop3::data::units::ModelType;
use pop3::engine::movement::WorldCoord;
use pop3::engine::objects::cell_grid::{CellGrid, CELL_GRID_SIZE, CELL_GRID_TOTAL};
use pop3::engine::objects::types::ObjectHeader;
use pop3::engine::objects::ObjectHandle;

/// A minimal occupied slot.
fn make_slot(handle: u16) -> Option<ObjectHeader> {
    Some(ObjectHeader {
        model_type: ModelType::Person,
        subtype: 0,
        tribe: 0,
        state: 0,
        state_phase: 0,
        flags1: 0,
        flags2: 0,
        flags3: 0,
        object_index: ObjectHandle::new(handle, 0),
        angle: 0,
        position: WorldCoord::new(0, 0),
        velocity: WorldCoord::new(0, 0),
        health: 100,
        max_health: 100,
        next_in_cell: None,
        prev_in_cell: None,
    })
}

fn get_next(slots: &[Option<ObjectHeader>], handle: u16) -> Option<u16> {
    match &slots[handle as usize] {
        Some(obj) => obj.next_in_cell,
        None => panic!("slot {} not occupied", handle),
    }
}

fn get_prev(slots: &[Option<ObjectHeader>], handle: u16) -> Option<u16> {
    match &slots[handle as usize] {
        Some(obj) => obj.prev_in_cell,
        None => panic!("slot {} not occupied", handle),
    }
}

#[test]
fn insert_one_object_sets_cell_head() {
    let mut grid = CellGrid::new();
    let mut slots = vec![make_slot(0)];
    let cell = 42;
    grid.insert_object(0, cell, &mut slots);
    assert_eq!(grid.cell_head(cell), Some(0));
    assert_eq!(get_next(&slots, 0), None);
    assert_eq!(get_prev(&slots, 0), None);
}

#[test]
fn insert_two_objects_both_reachable() {
    let mut grid = CellGrid::new();
    let mut slots = vec![make_slot(0), make_slot(1)];
    let cell = 10;
    grid.insert_object(0, cell, &mut slots);
    grid.insert_object(1, cell, &mut slots);
    assert_eq!(grid.cell_head(cell), Some(1));
    assert_eq!(get_next(&slots, 1), Some(0));
    assert_eq!(get_next(&slots, 0), None);
    assert_eq!(get_prev(&slots, 1), None);
    assert_eq!(get_prev(&slots, 0), Some(1));
}

#[test]
fn insert_three_objects_doubly_linked_integrity() {
    let mut grid = CellGrid::new();
    let mut slots = vec![make_slot(0), make_slot(1), make_slot(2)];
    let cell = 5;
    grid.insert_object(0, cell, &mut slots);
    grid.insert_object(1, cell, &mut slots);
    grid.insert_object(2, cell, &mut slots);
    assert_eq!(grid.cell_head(cell), Some(2));
    assert_eq!(get_next(&slots, 2), Some(1));
    assert_eq!(get_next(&slots, 1), Some(0));
    assert_eq!(get_next(&slots, 0), None);
    assert_eq!(get_prev(&slots, 2), None);
    assert_eq!(get_prev(&slots, 1), Some(2));
    assert_eq!(get_prev(&slots, 0), Some(1));
}

#[test]
fn remove_middle_object_from_chain() {
    let mut grid = CellGrid::new();
    let mut slots = vec![make_slot(0), make_slot(1), make_slot(2)];
    let cell = 5;
    grid.insert_object(0, cell, &mut slots);
    grid.insert_object(1, cell, &mut slots);
    grid.insert_object(2, cell, &mut slots);
    grid.remove_object(1, cell, &mut slots);
    assert_eq!(grid.cell_head(cell), Some(2));
    assert_eq!(get_next(&slots, 2), Some(0));
    assert_eq!(get_next(&slots, 0), None);
    assert_eq!(get_prev(&slots, 2), None);
    assert_eq!(get_prev(&slots, 0), Some(2));
    assert_eq!(get_next(&slots, 1), None);
    assert_eq!(get_prev(&slots, 1), None);
}

#[test]
fn remove_head_object_updates_cell_head() {
    let mut grid = CellGrid::new();
    let mut slots = vec![make_slot(0), make_slot(1)];
    let cell = 3;
    grid.insert_object(0, cell, &mut slots);
    grid.insert_object(1, cell, &mut slots);
    grid.remove_object(1, cell, &mut slots);
    assert_eq!(grid.cell_head(cell), Some(0));
    assert_eq!(get_prev(&slots, 0), None);
    assert_eq!(get_next(&slots, 0), None);
}

#[test]
fn remove_tail_object() {
    let mut grid = CellGrid::new();
    let mut slots = vec![make_slot(0), make_slot(1)];
    let cell = 3;
    grid.insert_object(0, cell, &mut slots);
    grid.insert_object(1, cell, &mut slots);
    grid.remove_object(0, cell, &mut slots);
    assert_eq!(grid.cell_head(cell), Some(1));
    assert_eq!(get_next(&slots, 1), None);
    assert_eq!(get_prev(&slots, 1), None);
}

#[test]
fn remove_only_object_empties_cell() {
    let mut grid = CellGrid::new();
    let mut slots = vec![make_slot(0)];
    let cell = 7;
    grid.insert_object(0, cell, &mut slots);
    grid.remove_object(0, cell, &mut slots);
    assert_eq!(grid.cell_head(cell), None);
    assert_eq!(get_next(&slots, 0), None);
    assert_eq!(get_prev(&slots, 0), None);
}

#[test]
fn set_position_same_cell_is_noop() {
    let mut grid = CellGrid::new();
    let mut slots = vec![make_slot(0)];
    let pos1 = WorldCoord::new(256, 256);
    let pos2 = WorldCoord::new(300, 300);
    assert_eq!(pos1.to_tile().cell_index(), pos2.to_tile().cell_index(), "positions must map to same cell for this test");
    let cell = pos1.to_tile().cell_index();
    grid.insert_object(0, cell, &mut slots);
    grid.set_position(0, &pos1, &pos2, &mut slots);
    assert_eq!(grid.cell_head(cell), Some(0));
    assert_eq!(get_next(&slots, 0), None);
    assert_eq!(get_prev(&slots, 0), None);
}

#[test]
fn set_position_different_cell_moves_object() {
    let mut grid = CellGrid::new();
    let mut slots = vec![make_slot(0)];
    let pos1 = WorldCoord::new(256, 256);
    let pos2 = WorldCoord::new(256 + 512, 256);
    let cell1 = pos1.to_tile().cell_index();
    let cell2 = pos2.to_tile().cell_index();
    assert_ne!(cell1, cell2, "positions must map to different cells");
    grid.insert_object(0, cell1, &mut slots);
    grid.set_position(0, &pos1, &pos2, &mut slots);
    assert_eq!(grid.cell_head(cell1), None);
    assert_eq!(grid.cell_head(cell2), Some(0));
}

#[test]
fn cell_objects_iteration_yields_all_objects() {
    let mut grid = CellGrid::new();
    let mut slots = vec![make_slot(0), make_slot(1), make_slot(2)];
    let cell = 20;
    grid.insert_object(0, cell, &mut slots);
    grid.insert_object(1, cell, &mut slots);
    grid.insert_object(2, cell, &mut slots);
    let mut collected = Vec::new();
    let mut current = grid.cell_head(cell);
    while let Some(handle) = current {
        collected.push(handle);
        current = get_next(&slots, handle);
    }
    assert_eq!(collected, vec![2, 1, 0]);
}

#[test]
fn removing_a_fresh_head_gives_the_cell_back() {
    let mut grid = CellGrid::new();
    let mut slots = vec![make_slot(0), make_slot(1)];
    grid.insert_object(0, 9, &mut slots);
    let before = slots.clone();
    grid.insert_object(1, 9, &mut slots);
    grid.remove_object(1, 9, &mut slots);
    assert_eq!(slots, before);
    assert_eq!(grid.cell_head(9), Some(0));
}

#[test]
fn empty_cell_iteration_yields_nothing() {
    let grid = CellGrid::new();
    assert_eq!(grid.cell_head(0), None);
}

#[test]
fn cell_index_from_world_matches_manual() {
    let pos = WorldCoord::new(512, 1024);
    let expected = pos.to_tile().cell_index();
    assert_eq!(CellGrid::cell_index_from_world(&pos), expected);
}

#[test]
fn grid_covers_every_cell_and_clears() {
    let mut grid = CellGrid::new();
    assert_eq!(CELL_GRID_SIZE * CELL_GRID_SIZE, CELL_GRID_TOTAL);
    assert_eq!(grid.cell_head(CELL_GRID_TOTAL - 1), None);
    grid.clear();
    assert_eq!(grid.cell_head(77), None);
    // 512 world units per tile, two tiles per cell index step.
    assert_eq!(CellGrid::cell_index_from_world(&WorldCoord::new(512, 1024)), 2 * 128 + 1);
}
