//! What a death leaves to do, and when a drum tower fires.

use vstd::prelude::*;

use crate::engine::objects::handle::ObjectHandle;

verus! {

/// What is left to do when a unit dies: take it off the cell grid and out
/// of the object pool, lower its tribe's population and, if it was killed
/// by another tribe, count the kill for that tribe.
#[derive(Debug, Clone, Copy, PartialEq, Eq, Structural)]
pub struct DeathActions {
    pub handle: ObjectHandle,
    pub tribe: u8,
    pub last_attacker_tribe: Option<u8>,
}

/// The actions for the death of unit `handle` of `tribe`.
pub fn process_death(handle: ObjectHandle, tribe: u8, last_attacker_tribe: Option<u8>) -> (r: DeathActions)
    ensures
        r == (DeathActions { handle, tribe, last_attacker_tribe }),
{
    DeathActions { handle, tribe, last_attacker_tribe }
}

/// Drum tower firing range in world units, about six cells.
pub const DRUM_TOWER_RANGE: u32 = 768;

/// Subtype value of the drum tower.
pub const DRUM_TOWER_SUBTYPE: u8 = 4;

/// A drum tower fires at a unit of another tribe within its range.
pub fn should_drum_tower_fire(tower_tribe: u8, target_tribe: u8, distance_sq: u64) -> (r: bool)
    ensures
        r == (tower_tribe != target_tribe && distance_sq <= DRUM_TOWER_RANGE * DRUM_TOWER_RANGE),
{
    tower_tribe != target_tribe && distance_sq <= (DRUM_TOWER_RANGE as u64 * DRUM_TOWER_RANGE as u64)
}

} // verus!
