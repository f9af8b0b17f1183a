use pop3::engine::buildings::types::{building_behavior_flags, building_max_health};
use pop3::engine::buildings::{BuildingData, BuildingState, BuildingSubtype, MAX_OCCUPANTS};

#[test]
fn building_state_repr_values() {
    assert_eq!(BuildingState::Init.value(), 0x01);
    assert_eq!(BuildingState::ConstructionDone.value(), 0x02);
    assert_eq!(BuildingState::Active.value(), 0x03);
    assert_eq!(BuildingState::Destroying.value(), 0x04);
    assert_eq!(BuildingState::Sinking.value(), 0x05);
    assert_eq!(BuildingState::FinalTeardown.value(), 0x06);
}

#[test]
fn building_subtype_repr_values() {
    assert_eq!(BuildingSubtype::SmallHut.value(), 1);
    assert_eq!(BuildingSubtype::MediumHut.value(), 2);
    assert_eq!(BuildingSubtype::LargeHut.value(), 3);
    assert_eq!(BuildingSubtype::DrumTower.value(), 4);
    assert_eq!(BuildingSubtype::Temple.value(), 5);
    assert_eq!(BuildingSubtype::SpyTrain.value(), 6);
    assert_eq!(BuildingSubtype::WarriorTrain.value(), 7);
    assert_eq!(BuildingSubtype::SuperWarriorTrain.value(), 8);
    assert_eq!(BuildingSubtype::Reconversion.value(), 9);
    assert_eq!(BuildingSubtype::WallPiece.value(), 10);
    assert_eq!(BuildingSubtype::Gateway.value(), 11);
    assert_eq!(BuildingSubtype::BoatHut.value(), 13);
    assert_eq!(BuildingSubtype::AirshipHut.value(), 14);
    assert_eq!(BuildingSubtype::GuardPost.value(), 15);
    assert_eq!(BuildingSubtype::Prison.value(), 16);
    assert_eq!(BuildingSubtype::Vault.value(), 17);
    assert_eq!(BuildingSubtype::HeadQuarters.value(), 18);
}

#[test]
fn building_data_default() {
    let bd = BuildingData::default();
    assert_eq!(bd.state, BuildingState::Init);
    assert_eq!(bd.building_subtype, BuildingSubtype::SmallHut);
    assert_eq!(bd.wood_stored, 0);
    assert_eq!(bd.occupant_count, 0);
    assert_eq!(bd.construction_progress, 0);
    assert_eq!(bd.damage_accumulated, 0);
    assert_eq!(bd.damage_cooldown, 0);
    assert_eq!(bd.behavior_flags, 0);
    assert_eq!(bd.shake_x, 0);
    assert_eq!(bd.shake_z, 0);
    assert_eq!(bd.num_fighting, 0);
    assert!(bd.target_person.is_none());
    for slot in &bd.occupant_slots {
        assert!(slot.is_none());
    }
}

#[test]
fn max_occupants_is_six() {
    assert_eq!(MAX_OCCUPANTS, 6);
}

#[test]
fn behavior_flags_housing() {
    assert_eq!(building_behavior_flags(BuildingSubtype::SmallHut), 0x20);
    assert_eq!(building_behavior_flags(BuildingSubtype::MediumHut), 0x20);
    assert_eq!(building_behavior_flags(BuildingSubtype::LargeHut), 0x20);
}

#[test]
fn behavior_flags_training() {
    assert_eq!(building_behavior_flags(BuildingSubtype::SpyTrain), 0x01);
    assert_eq!(building_behavior_flags(BuildingSubtype::WarriorTrain), 0x01);
    assert_eq!(
        building_behavior_flags(BuildingSubtype::SuperWarriorTrain),
        0x01
    );
    assert_eq!(building_behavior_flags(BuildingSubtype::Reconversion), 0x01);
}

#[test]
fn behavior_flags_vehicle() {
    assert_eq!(building_behavior_flags(BuildingSubtype::BoatHut), 0x40);
    assert_eq!(building_behavior_flags(BuildingSubtype::AirshipHut), 0x40);
}

#[test]
fn max_health_values() {
    assert_eq!(building_max_health(BuildingSubtype::SmallHut), 600);
    assert_eq!(building_max_health(BuildingSubtype::MediumHut), 800);
    assert_eq!(building_max_health(BuildingSubtype::LargeHut), 1000);
    assert_eq!(building_max_health(BuildingSubtype::DrumTower), 1200);
    assert_eq!(building_max_health(BuildingSubtype::Temple), 1500);
    assert_eq!(building_max_health(BuildingSubtype::HeadQuarters), 2000);
}

