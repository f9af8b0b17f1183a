//! The building life cycle.

use vstd::prelude::*;

use super::types::{behavior_flags_spec, building_behavior_flags, building_max_health, max_health_spec, BuildingData, BuildingState, MAX_OCCUPANTS};

verus! {

/// The legal transitions: Init -> ConstructionDone -> Active -> Destroying
/// -> Sinking -> FinalTeardown.
pub open spec fn legal_transition(from: BuildingState, to: BuildingState) -> bool {
    match (from, to) {
        (BuildingState::Init, BuildingState::ConstructionDone) => true,
        (BuildingState::ConstructionDone, BuildingState::Active) => true,
        (BuildingState::Active, BuildingState::Destroying) => true,
        (BuildingState::Destroying, BuildingState::Sinking) => true,
        (BuildingState::Sinking, BuildingState::FinalTeardown) => true,
        _ => false,
    }
}

/// Move a building to `new_state` when that is a legal step of its life
/// cycle; report whether it moved.
pub fn transition_building_state(building: &mut BuildingData, new_state: BuildingState) -> (r: bool)
    ensures
        r == legal_transition(old(building).state, new_state),
        r ==> *final(building) == (BuildingData { state: new_state, ..*old(building) }),
        !r ==> *final(building) == *old(building),
{
    let valid = match (building.state, new_state) {
        (BuildingState::Init, BuildingState::ConstructionDone) => true,
        (BuildingState::ConstructionDone, BuildingState::Active) => true,
        (BuildingState::Active, BuildingState::Destroying) => true,
        (BuildingState::Destroying, BuildingState::Sinking) => true,
        (BuildingState::Sinking, BuildingState::FinalTeardown) => true,
        _ => false,
    };
    if valid {
        building.state = new_state;
    }
    valid
}

/// On completion a building gets its subtype's behaviour flags.
pub fn on_construction_complete(building: &mut BuildingData)
    ensures
        *final(building) == (BuildingData { behavior_flags: behavior_flags_spec(old(building).building_subtype), ..*old(building) }),
{
    building.behavior_flags = building_behavior_flags(building.building_subtype);
}

/// On destruction a building loses its occupants and its damage is set to
/// its subtype's maximum health.
pub fn on_destroy(building: &mut BuildingData)
    ensures
        *final(building) == (BuildingData {
            occupant_slots: [None; MAX_OCCUPANTS],
            occupant_count: 0,
            damage_accumulated: max_health_spec(old(building).building_subtype),
            ..*old(building)
        }),
{
    let mut i: usize = 0;
    while i < MAX_OCCUPANTS
        invariant
            i <= MAX_OCCUPANTS,
            *building == (BuildingData { occupant_slots: building.occupant_slots, ..*old(building) }),
            forall|j: int| 0 <= j < i ==> building.occupant_slots[j] is None,
        decreases MAX_OCCUPANTS - i,
    {
        building.occupant_slots[i] = None;
        i += 1;
    }
    assert(building.occupant_slots =~= [None::<crate::engine::objects::handle::ObjectHandle>; MAX_OCCUPANTS]);
    building.occupant_count = 0;
    building.damage_accumulated = building_max_health(building.building_subtype);
}

/// Following legal transitions from Init, a building passes through every
/// state in order and ends in FinalTeardown, from which nothing is legal.
pub proof fn lemma_life_cycle_is_linear(s: BuildingState, t: BuildingState)
    ensures
        legal_transition(s, t) ==> crate::engine::buildings::types::building_state_value(t) == crate::engine::buildings::types::building_state_value(s) + 1,
        !legal_transition(BuildingState::FinalTeardown, t),
{
}

} // verus!
