//! Damage to buildings.

use vstd::prelude::*;

use super::state_machine::{on_destroy, transition_building_state};
use super::tick::{construction_progress_target, progress_target_spec};
use super::types::{max_health_spec, BuildingData, BuildingState, MAX_OCCUPANTS};
use crate::engine::objects::types::ObjectHeader;

verus! {

/// Ticks during which a damaged building takes no further damage.
pub const DAMAGE_COOLDOWN_TICKS: u8 = 4;

/// How far a damaged building shakes.
pub const DAMAGE_SHAKE: i16 = 8;

/// Whether a building takes damage now: it is active and not cooling down.
pub open spec fn takes_damage(b: BuildingData) -> bool {
    b.state == BuildingState::Active && b.damage_cooldown == 0
}

/// The building after taking `damage` that leaves it standing.
pub open spec fn damaged(b: BuildingData, damage: u16) -> BuildingData {
    BuildingData {
        damage_accumulated: (b.damage_accumulated + damage) as u16,
        damage_cooldown: DAMAGE_COOLDOWN_TICKS,
        shake_x: DAMAGE_SHAKE,
        shake_z: DAMAGE_SHAKE,
        ..b
    }
}

/// The building after taking damage that destroys it: it is emptied, its
/// damage is its maximum health, it is fully built up to crumble from, and
/// it is being destroyed.
pub open spec fn destroyed(b: BuildingData) -> BuildingData {
    BuildingData {
        occupant_slots: [None; MAX_OCCUPANTS],
        occupant_count: 0,
        damage_accumulated: max_health_spec(b.building_subtype),
        damage_cooldown: DAMAGE_COOLDOWN_TICKS,
        shake_x: DAMAGE_SHAKE,
        shake_z: DAMAGE_SHAKE,
        construction_progress: progress_target_spec(b.building_subtype),
        construction_phase: 4,
        state: BuildingState::Destroying,
        ..b
    }
}

/// Damage an active building that is not cooling down; report whether the
/// damage destroyed it. It shakes and cools down; the damage comes off its
/// health, and at zero health it is destroyed. Other buildings are left as
/// they are.
pub fn apply_building_damage(building: &mut BuildingData, header: &mut ObjectHeader, damage: u16) -> (r: bool)
    requires
        takes_damage(*old(building)) ==> old(building).damage_accumulated + damage <= u16::MAX,
    ensures
        !takes_damage(*old(building)) ==> !r && *final(building) == *old(building) && *final(header) == *old(header),
        takes_damage(*old(building)) ==> r == (old(header).health <= damage),
        takes_damage(*old(building)) && r ==> {
            &&& *final(building) == destroyed(*old(building))
            &&& *final(header) == (ObjectHeader { health: 0, ..*old(header) })
        },
        takes_damage(*old(building)) && !r ==> {
            &&& *final(building) == damaged(*old(building), damage)
            &&& *final(header) == (ObjectHeader { health: (old(header).health - damage) as u16, ..*old(header) })
        },
{
    if building.state != BuildingState::Active {
        return false;
    }
    if building.damage_cooldown > 0 {
        return false;
    }
    building.damage_accumulated = building.damage_accumulated + damage;
    building.damage_cooldown = DAMAGE_COOLDOWN_TICKS;
    building.shake_x = DAMAGE_SHAKE;
    building.shake_z = DAMAGE_SHAKE;
    if header.health <= damage {
        header.health = 0;
        on_destroy(building);
        building.construction_progress = construction_progress_target(building.building_subtype);
        building.construction_phase = 4;
        transition_building_state(building, BuildingState::Destroying);
        true
    } else {
        header.health = header.health - damage;
        false
    }
}

/// Radius, in cells, within which a destroyed building damages others.
pub fn chain_damage_radius() -> (r: u16)
    ensures
        r == 3,
{
    3
}

/// Damage that does not destroy an active building takes exactly that much
/// off its health and adds it to its accumulated damage; total health plus
/// accumulated damage stays the same.
pub proof fn lemma_damage_conserves(b: BuildingData, health: u16, damage: u16)
    requires
        takes_damage(b),
        damage < health,
        b.damage_accumulated + damage <= u16::MAX,
    ensures
        damaged(b, damage).damage_accumulated + (health - damage) == b.damage_accumulated + health,
        !takes_damage(damaged(b, damage)),
{
}

} // verus!
