//! Where a building may be placed.

use vstd::prelude::*;

verus! {

/// Cells per side of the map.
pub const MAP_CELLS: usize = 128;

/// Walkability bit of water cells.
pub const WATER_BIT: u8 = 0x04;

/// Walkability bit of cells too steep to walk.
pub const STEEP_BIT: u8 = 0x02;

/// Why a building cannot be placed.
#[derive(Debug, Clone, Copy, PartialEq, Eq, Structural)]
pub enum PlacementError {
    Water,
    Occupied,
    TooSteep,
    OutOfBounds,
}

/// Preview of a building about to be placed.
#[derive(Debug)]
pub struct GhostPreview {
    pub building_subtype: u8,
    pub cell_x: i32,
    pub cell_y: i32,
    pub rotation: u16,
    pub valid: bool,
}

/// A map coordinate wrapped onto the 128-cell torus.
pub open spec fn wrap_cell(v: int) -> int {
    v % (MAP_CELLS as int)
}

/// What keeps a building off cell (`cx`, `cy`): water first, then another
/// building, then a steep slope.
pub open spec fn cell_error(
    walkability: [[u8; 128]; 128],
    building_flags: [[bool; 128]; 128],
    cx: int,
    cy: int,
) -> Option<PlacementError> {
    let w = walkability@[cy]@[cx];
    if w & WATER_BIT != 0 {
        Some(PlacementError::Water)
    } else if building_flags@[cy]@[cx] {
        Some(PlacementError::Occupied)
    } else if w & STEEP_BIT != 0 {
        Some(PlacementError::TooSteep)
    } else {
        None
    }
}

/// What keeps a building off footprint cell `k` placed at (`cell_x`, `cell_y`).
pub open spec fn footprint_error(
    cell_x: i32,
    cell_y: i32,
    footprint_cells: Seq<(i32, i32)>,
    walkability: [[u8; 128]; 128],
    building_flags: [[bool; 128]; 128],
    k: int,
) -> Option<PlacementError> {
    cell_error(
        walkability,
        building_flags,
        wrap_cell(cell_x + footprint_cells[k].0),
        wrap_cell(cell_y + footprint_cells[k].1),
    )
}

/// Whether the footprint's offsets from (`cell_x`, `cell_y`) fit in `i32`.
pub open spec fn footprint_in_range(cell_x: i32, cell_y: i32, footprint_cells: Seq<(i32, i32)>) -> bool {
    forall|k: int|
        0 <= k < footprint_cells.len() ==> i32::MIN <= cell_x + (#[trigger] footprint_cells[k]).0 <= i32::MAX
            && i32::MIN <= cell_y + footprint_cells[k].1 <= i32::MAX
}

fn wrap_to_cell(v: i32) -> (r: usize)
    ensures
        r == wrap_cell(v as int),
        r < MAP_CELLS,
{
    let m = v & 127;
    assert(m == v & 127 && 0 <= m < 128 && (v as int) % 128 == m as int) by (bit_vector)
        requires
            m == v & 127,
    ;
    m as usize
}

/// Check a building's footprint at (`cell_x`, `cell_y`), wrapping around the
/// map edges: the placement fails with the first footprint cell, in order,
/// that is water, holds a building or is too steep, and with that cell's
/// first reason.
pub fn validate_placement(
    cell_x: i32,
    cell_y: i32,
    footprint_cells: &[(i32, i32)],
    walkability: &[[u8; 128]; 128],
    building_flags: &[[bool; 128]; 128],
) -> (r: Result<(), PlacementError>)
    requires
        footprint_in_range(cell_x, cell_y, footprint_cells@),
    ensures
        r is Ok <==> forall|k: int|
            0 <= k < footprint_cells@.len() ==> (#[trigger] footprint_error(
                cell_x,
                cell_y,
                footprint_cells@,
                *walkability,
                *building_flags,
                k,
            )) is None,
        r matches Err(e) ==> exists|k: int|
            0 <= k < footprint_cells@.len() && (forall|j: int|
                0 <= j < k ==> (#[trigger] footprint_error(cell_x, cell_y, footprint_cells@, *walkability, *building_flags, j))
                    is None) && footprint_error(cell_x, cell_y, footprint_cells@, *walkability, *building_flags, k)
                == Some(e),
{
    let mut k: usize = 0;
    while k < footprint_cells.len()
        invariant
            k <= footprint_cells@.len(),
            footprint_in_range(cell_x, cell_y, footprint_cells@),
            forall|j: int|
                0 <= j < k ==> (#[trigger] footprint_error(cell_x, cell_y, footprint_cells@, *walkability, *building_flags, j))
                    is None,
        decreases footprint_cells@.len() - k,
    {
        let (dx, dy) = footprint_cells[k];
        assert(i32::MIN <= cell_x + footprint_cells@[k as int].0 <= i32::MAX);
        let cx = wrap_to_cell(cell_x + dx);
        let cy = wrap_to_cell(cell_y + dy);
        let row = &walkability[cy];
        let w = row[cx];
        let flagged = building_flags[cy][cx];
        assert(w == walkability@[cy as int]@[cx as int]);
        assert(flagged == building_flags@[cy as int]@[cx as int]);
        assert(footprint_error(cell_x, cell_y, footprint_cells@, *walkability, *building_flags, k as int)
            == cell_error(*walkability, *building_flags, cx as int, cy as int));
        if w & WATER_BIT != 0 {
            return Err(PlacementError::Water);
        }
        if flagged {
            return Err(PlacementError::Occupied);
        }
        if w & STEEP_BIT != 0 {
            return Err(PlacementError::TooSteep);
        }
        k += 1;
    }
    Ok(())
}

} // verus!
