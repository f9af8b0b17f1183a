use pop3::engine::buildings::{on_construction_complete, on_destroy, transition_building_state, BuildingData, BuildingState, BuildingSubtype};
use pop3::engine::objects::ObjectHandle;

fn h(slot: u16) -> ObjectHandle {
    ObjectHandle::new(slot, 1)
}

#[test]
fn valid_transition_init_to_construction_done() {
    let mut b = BuildingData::default();
    assert_eq!(b.state, BuildingState::Init);
    assert!(transition_building_state(&mut b, BuildingState::ConstructionDone));
    assert_eq!(b.state, BuildingState::ConstructionDone);
}

#[test]
fn valid_transition_construction_done_to_active() {
    let mut b = BuildingData::default();
    b.state = BuildingState::ConstructionDone;
    assert!(transition_building_state(&mut b, BuildingState::Active));
    assert_eq!(b.state, BuildingState::Active);
}

#[test]
fn valid_transition_active_to_destroying() {
    let mut b = BuildingData::default();
    b.state = BuildingState::Active;
    assert!(transition_building_state(&mut b, BuildingState::Destroying));
    assert_eq!(b.state, BuildingState::Destroying);
}

#[test]
fn valid_transition_destroying_to_sinking() {
    let mut b = BuildingData::default();
    b.state = BuildingState::Destroying;
    assert!(transition_building_state(&mut b, BuildingState::Sinking));
    assert_eq!(b.state, BuildingState::Sinking);
}

#[test]
fn valid_transition_sinking_to_final_teardown() {
    let mut b = BuildingData::default();
    b.state = BuildingState::Sinking;
    assert!(transition_building_state(&mut b, BuildingState::FinalTeardown));
    assert_eq!(b.state, BuildingState::FinalTeardown);
}

#[test]
fn invalid_transition_init_to_active() {
    let mut b = BuildingData::default();
    assert!(!transition_building_state(&mut b, BuildingState::Active));
    assert_eq!(b.state, BuildingState::Init); // unchanged
}

#[test]
fn invalid_transition_active_to_init() {
    let mut b = BuildingData::default();
    b.state = BuildingState::Active;
    assert!(!transition_building_state(&mut b, BuildingState::Init));
    assert_eq!(b.state, BuildingState::Active); // unchanged
}

#[test]
fn invalid_transition_skip_states() {
    let mut b = BuildingData::default();
    assert!(!transition_building_state(&mut b, BuildingState::Destroying));
    assert_eq!(b.state, BuildingState::Init);
}

#[test]
fn on_construction_complete_sets_flags() {
    let mut b = BuildingData::default();
    b.building_subtype = BuildingSubtype::SmallHut;
    on_construction_complete(&mut b);
    assert_eq!(b.behavior_flags, 0x20); // housing flag

    b.building_subtype = BuildingSubtype::WarriorTrain;
    on_construction_complete(&mut b);
    assert_eq!(b.behavior_flags, 0x01); // training flag
}

#[test]
fn on_destroy_clears_occupants_and_maxes_damage() {
    let mut b = BuildingData::default();
    b.building_subtype = BuildingSubtype::SmallHut;
    b.occupant_slots[0] = Some(h(42));
    b.occupant_slots[1] = Some(h(99));
    b.occupant_count = 2;
    on_destroy(&mut b);
    assert_eq!(b.occupant_count, 0);
    for slot in &b.occupant_slots {
        assert!(slot.is_none());
    }
    assert_eq!(b.damage_accumulated, 600); // SmallHut max health
}

