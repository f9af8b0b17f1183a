use pop3::engine::buildings::spawning::{population_band, population_scale_fixed, spawn_threshold};
use pop3::engine::buildings::{sprog_time_for_level, tick_spawn, BuildingData, BuildingState, BuildingSubtype, SpawnAction};

fn make_active_hut(subtype: BuildingSubtype) -> BuildingData {
    let mut b = BuildingData::default();
    b.state = BuildingState::Active;
    b.building_subtype = subtype;
    b.behavior_flags = 0x20; // housing flag
    b.construction_progress = 0;
    b
}

#[test]
fn sprog_time_small_hut() {
    assert_eq!(sprog_time_for_level(BuildingSubtype::SmallHut), 4000);
}

#[test]
fn sprog_time_medium_hut() {
    assert_eq!(sprog_time_for_level(BuildingSubtype::MediumHut), 3000);
}

#[test]
fn sprog_time_large_hut() {
    assert_eq!(sprog_time_for_level(BuildingSubtype::LargeHut), 2000);
}

#[test]
fn sprog_time_non_hut_is_max() {
    assert_eq!(sprog_time_for_level(BuildingSubtype::DrumTower), u16::MAX);
    assert_eq!(sprog_time_for_level(BuildingSubtype::Temple), u16::MAX);
}

#[test]
fn tick_spawn_increments_timer() {
    let mut b = make_active_hut(BuildingSubtype::SmallHut);
    let action = tick_spawn(&mut b, 0, true);
    assert_eq!(action, SpawnAction::Idle);
    assert_eq!(b.construction_progress, 2);
}

#[test]
fn tick_spawn_triggers_at_threshold() {
    let mut b = make_active_hut(BuildingSubtype::SmallHut);
    b.construction_progress = spawn_threshold(BuildingSubtype::SmallHut, 0) - 2;
    let action = tick_spawn(&mut b, 0, true);
    assert_eq!(action, SpawnAction::SpawnBrave);
    assert_eq!(b.construction_progress, 0); // reset
}

#[test]
fn tick_spawn_large_hut_threshold() {
    let mut b = make_active_hut(BuildingSubtype::LargeHut);
    b.construction_progress = spawn_threshold(BuildingSubtype::LargeHut, 0) - 2;
    let action = tick_spawn(&mut b, 0, true);
    assert_eq!(action, SpawnAction::SpawnBrave);
    assert_eq!(b.construction_progress, 0);
}

#[test]
fn tick_spawn_skips_without_spawn_flag() {
    let mut b = make_active_hut(BuildingSubtype::SmallHut);
    b.behavior_flags = 0; // no spawn flag
    let action = tick_spawn(&mut b, 0, true);
    assert_eq!(action, SpawnAction::Idle);
    assert_eq!(b.construction_progress, 0); // not incremented
}

#[test]
fn tick_spawn_skips_non_active_state() {
    let mut b = make_active_hut(BuildingSubtype::SmallHut);
    b.state = BuildingState::Init;
    let action = tick_spawn(&mut b, 0, true);
    assert_eq!(action, SpawnAction::Idle);
    assert_eq!(b.construction_progress, 0);
}

#[test]
fn population_bands_match_original_integer_math() {
    assert_eq!(population_band(0), 0);
    assert_eq!(population_band(9), 1);
    assert_eq!(population_band(198), 19);
    assert_eq!(population_band(999), 19);
    assert_eq!(population_scale_fixed(0), 76);
    assert_eq!(spawn_threshold(BuildingSubtype::SmallHut, 0), 1187);
    assert_eq!(spawn_threshold(BuildingSubtype::SmallHut, 198), 8000);
}

#[test]
fn occupants_accelerate_growth() {
    let mut b = make_active_hut(BuildingSubtype::SmallHut);
    b.occupant_count = 3;
    assert_eq!(tick_spawn(&mut b, 0, true), SpawnAction::Idle);
    assert_eq!(b.construction_progress, 8);
}

#[test]
fn completed_growth_waits_at_population_capacity() {
    let mut b = make_active_hut(BuildingSubtype::SmallHut);
    let threshold = spawn_threshold(BuildingSubtype::SmallHut, 0);
    b.construction_progress = threshold - 2;
    assert_eq!(tick_spawn(&mut b, 0, false), SpawnAction::Idle);
    assert_eq!(b.construction_progress, threshold);
    assert_eq!(tick_spawn(&mut b, 0, true), SpawnAction::SpawnBrave);
}

