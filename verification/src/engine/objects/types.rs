use vstd::prelude::*;

use super::handle::ObjectHandle;
use crate::data::units::ModelType;
use crate::engine::movement::types::WorldCoord;

verus! {

/// Fields common to every game object.
#[derive(Debug, Clone, Copy, PartialEq, Eq, Structural)]
pub struct ObjectHeader {
    pub model_type: ModelType,
    pub subtype: u8,
    pub tribe: u8,
    pub state: u8,
    pub state_phase: u8,
    pub flags1: u32,
    pub flags2: u32,
    pub flags3: u32,
    pub object_index: ObjectHandle,
    pub angle: u16,
    pub position: WorldCoord,
    pub velocity: WorldCoord,
    pub health: u16,
    pub max_health: u16,
    /// Next object in the same map cell.
    pub next_in_cell: Option<u16>,
    /// Previous object in the same map cell.
    pub prev_in_cell: Option<u16>,
}

} // verus!
