use pop3::data::units::ModelType;
use pop3::engine::buildings::tick::{construction_delivery_phase, construction_phase, construction_progress_target, construction_target, tick_building};
use pop3::engine::buildings::{BuildingData, BuildingState, BuildingSubtype, ConvertAction, SpawnAction};
use pop3::engine::movement::WorldCoord;
use pop3::engine::objects::{ObjectHandle, ObjectHeader};

fn h(slot: u16) -> ObjectHandle {
    ObjectHandle::new(slot, 1)
}

fn make_header() -> ObjectHeader {
    ObjectHeader {
        model_type: ModelType::Building,
        subtype: 1,
        tribe: 0,
        state: 0,
        state_phase: 0,
        flags1: 0,
        flags2: 0,
        flags3: 0,
        object_index: h(0),
        angle: 0,
        position: WorldCoord::default(),
        velocity: WorldCoord::default(),
        health: 600,
        max_health: 600,
        next_in_cell: None,
        prev_in_cell: None,
    }
}

fn dummy_handle() -> ObjectHandle {
    h(0)
}

#[test]
fn tick_decrements_damage_cooldown() {
    let mut b = BuildingData::default();
    b.state = BuildingState::Active;
    b.damage_cooldown = 3;
    let mut h = make_header();
    tick_building(&mut b, &mut h, dummy_handle());
    assert_eq!(b.damage_cooldown, 2);
}

#[test]
fn tick_decays_wobble() {
    let mut b = BuildingData::default();
    b.state = BuildingState::Active;
    b.shake_x = 8;
    b.shake_z = -6;
    let mut h = make_header();
    tick_building(&mut b, &mut h, dummy_handle());
    assert_eq!(b.shake_x, 4);
    assert_eq!(b.shake_z, -3);
}

#[test]
fn construction_does_not_advance_without_builder_work() {
    let mut b = BuildingData::default();
    b.building_subtype = BuildingSubtype::SmallHut;
    b.wood_stored = 10;
    b.construction_progress = 0;
    let mut h = make_header();
    tick_building(&mut b, &mut h, dummy_handle());
    assert_eq!(b.wood_stored, 10);
    assert_eq!(b.construction_progress, 0);
}

#[test]
fn construction_cannot_complete_from_a_building_tick() {
    let mut b = BuildingData::default();
    b.building_subtype = BuildingSubtype::SmallHut; // target = 3
    b.wood_stored = 10;
    b.construction_progress = 2; // one more tick to reach 3
    let mut h = make_header();
    tick_building(&mut b, &mut h, dummy_handle());
    assert_eq!(b.state, BuildingState::Init);
    assert_eq!(b.construction_progress, 2);
}

#[test]
fn construction_done_transitions_to_active_on_tick() {
    let mut b = BuildingData::default();
    b.state = BuildingState::ConstructionDone;
    b.building_subtype = BuildingSubtype::SmallHut;
    let mut h = make_header();
    tick_building(&mut b, &mut h, dummy_handle());
    assert_eq!(b.state, BuildingState::Active);
    assert_eq!(b.behavior_flags, 0x20); // housing flag set
}

#[test]
fn destroying_transitions_to_sinking() {
    let mut b = BuildingData::default();
    b.state = BuildingState::Destroying;
    b.damage_accumulated = 100;
    let mut h = make_header();
    tick_building(&mut b, &mut h, dummy_handle());
    assert_eq!(b.state, BuildingState::Sinking);
}

#[test]
fn destroying_stays_if_damage_low() {
    let mut b = BuildingData::default();
    b.state = BuildingState::Destroying;
    b.damage_accumulated = 50;
    b.construction_progress = 100;
    b.construction_phase = 1;
    let mut h = make_header();
    tick_building(&mut b, &mut h, dummy_handle());
    assert_eq!(b.state, BuildingState::Destroying);
    assert_eq!(b.construction_progress, 96);
}

#[test]
fn sinking_increments_progress_and_transitions() {
    let mut b = BuildingData::default();
    b.state = BuildingState::Sinking;
    b.construction_progress = 59;
    let mut h = make_header();
    tick_building(&mut b, &mut h, dummy_handle());
    assert_eq!(b.state, BuildingState::FinalTeardown);
}

#[test]
fn sinking_stays_if_not_done() {
    let mut b = BuildingData::default();
    b.state = BuildingState::Sinking;
    b.construction_progress = 0;
    let mut h = make_header();
    tick_building(&mut b, &mut h, dummy_handle());
    assert_eq!(b.state, BuildingState::Sinking);
    assert_eq!(b.construction_progress, 1);
}

#[test]
fn construction_target_values() {
    assert_eq!(construction_target(BuildingSubtype::SmallHut), 3);
    assert_eq!(construction_target(BuildingSubtype::MediumHut), 3);
    assert_eq!(construction_target(BuildingSubtype::LargeHut), 3);
    assert_eq!(construction_target(BuildingSubtype::DrumTower), 5);
    assert_eq!(construction_target(BuildingSubtype::Temple), 8);
    assert_eq!(construction_target(BuildingSubtype::WarriorTrain), 8);
    assert_eq!(construction_target(BuildingSubtype::WallPiece), 4); // default
}

#[test]
fn normalized_construction_phases_match_original_thresholds() {
    let total = construction_progress_target(BuildingSubtype::SmallHut);
    assert_eq!(total, 300);
    assert_eq!(construction_phase(0, total), 0);
    assert_eq!(construction_phase(74, total), 0);
    assert_eq!(construction_phase(75, total), 1);
    assert_eq!(construction_phase(149, total), 1);
    assert_eq!(construction_phase(150, total), 2);
    assert_eq!(construction_phase(224, total), 2);
    assert_eq!(construction_phase(225, total), 3);
    assert_eq!(construction_phase(299, total), 3);
    assert_eq!(construction_phase(300, total), 4);
}

#[test]
fn three_wood_deliveries_leave_room_for_the_final_scaffold_stage() {
    assert_eq!(construction_delivery_phase(0, 3), 0);
    assert_eq!(construction_delivery_phase(1, 3), 0);
    assert_eq!(construction_delivery_phase(2, 3), 1);
    assert_eq!(construction_delivery_phase(3, 3), 2);
}

#[test]
fn no_wood_no_construction_progress() {
    let mut b = BuildingData::default();
    b.building_subtype = BuildingSubtype::SmallHut;
    b.wood_stored = 0;
    b.construction_progress = 0;
    let mut h = make_header();
    tick_building(&mut b, &mut h, dummy_handle());
    assert_eq!(b.construction_progress, 0);
    assert_eq!(b.state, BuildingState::Init); // stuck without wood
}

#[test]
fn final_teardown_is_noop() {
    let mut b = BuildingData::default();
    b.state = BuildingState::FinalTeardown;
    let mut h = make_header();
    tick_building(&mut b, &mut h, dummy_handle());
    assert_eq!(b.state, BuildingState::FinalTeardown); // caller handles removal
}

#[test]
fn tick_active_returns_building_tick_actions() {
    let mut b = BuildingData::default();
    b.state = BuildingState::Active;
    b.building_subtype = BuildingSubtype::SmallHut;
    b.behavior_flags = 0x20; // housing flag
    b.construction_progress = 0;
    let mut h = make_header();
    let actions = tick_building(&mut b, &mut h, dummy_handle());
    // Spawn timer just incremented, not at threshold yet
    assert_eq!(actions.spawn, SpawnAction::Idle);
    assert_eq!(actions.convert, ConvertAction::Idle);
    assert!(actions.combat.is_empty());
}

#[test]
fn tick_active_returns_combat_actions() {
    let mut b = BuildingData::default();
    b.state = BuildingState::Active;
    b.building_subtype = BuildingSubtype::DrumTower;
    b.behavior_flags = 0x08; // fighting flag
    b.occupant_slots[0] = Some(h(10));
    b.occupant_count = 1;
    b.num_fighting = 1;
    b.target_person = Some(h(99));
    let mut h = make_header();
    let actions = tick_building(&mut b, &mut h, dummy_handle());
    assert_eq!(actions.combat.len(), 1);
}

