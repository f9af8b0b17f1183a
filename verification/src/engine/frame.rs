//! What the simulation hands the renderer each frame that is not drawing
//! state of its own.

use vstd::prelude::*;

verus! {

/// The building placement preview: the building type, the cell and
/// rotation under the cursor, and whether the building may stand there.
#[derive(Debug, Clone, Copy)]
pub struct GhostPreviewState {
    pub building_type: u8,
    pub cell_x: i32,
    pub cell_y: i32,
    pub rotation: u8,
    pub valid: bool,
}

} // verus!
