use pop3::engine::buildings::training::conversion_time;
use pop3::engine::buildings::{start_training, tick_convert, training_mana_cost, training_output_subtype, BuildingData, BuildingState, BuildingSubtype, ConvertAction};
use pop3::engine::objects::ObjectHandle;

fn h(slot: u16) -> ObjectHandle {
    ObjectHandle::new(slot, 1)
}

fn make_active_trainer(subtype: BuildingSubtype) -> BuildingData {
    let mut b = BuildingData::default();
    b.state = BuildingState::Active;
    b.building_subtype = subtype;
    b.behavior_flags = 0x01; // training flag
    b.occupant_slots[0] = Some(h(42)); // an occupant to train
    b.occupant_count = 1;
    b
}

#[test]
fn conversion_time_warrior() {
    assert_eq!(conversion_time(3), 256);
}

#[test]
fn conversion_time_spy() {
    assert_eq!(conversion_time(5), 192);
}

#[test]
fn conversion_time_preacher() {
    assert_eq!(conversion_time(4), 192);
}

#[test]
fn conversion_time_super_warrior() {
    assert_eq!(conversion_time(6), 384);
}

#[test]
fn mana_cost_warrior() {
    assert_eq!(training_mana_cost(3), 500);
}

#[test]
fn mana_cost_spy() {
    assert_eq!(training_mana_cost(5), 300);
}

#[test]
fn mana_cost_preacher() {
    assert_eq!(training_mana_cost(4), 400);
}

#[test]
fn mana_cost_super_warrior() {
    assert_eq!(training_mana_cost(6), 800);
}

#[test]
fn training_output_warrior_train() {
    assert_eq!(training_output_subtype(BuildingSubtype::WarriorTrain), Some(3));
}

#[test]
fn training_output_spy_train() {
    assert_eq!(training_output_subtype(BuildingSubtype::SpyTrain), Some(5));
}

#[test]
fn training_output_temple() {
    assert_eq!(training_output_subtype(BuildingSubtype::Temple), Some(4));
}

#[test]
fn training_output_super_warrior_train() {
    assert_eq!(training_output_subtype(BuildingSubtype::SuperWarriorTrain), Some(6));
}

#[test]
fn training_output_non_trainer_returns_none() {
    assert_eq!(training_output_subtype(BuildingSubtype::SmallHut), None);
    assert_eq!(training_output_subtype(BuildingSubtype::DrumTower), None);
}

#[test]
fn tick_convert_countdown_decrements() {
    let mut b = make_active_trainer(BuildingSubtype::WarriorTrain);
    b.conversion_countdown = 10;
    let action = tick_convert(&mut b);
    assert_eq!(action, ConvertAction::Idle);
    assert_eq!(b.conversion_countdown, 9);
}

#[test]
fn tick_convert_emits_at_zero() {
    let mut b = make_active_trainer(BuildingSubtype::WarriorTrain);
    b.conversion_countdown = 1; // will hit zero this tick
    let action = tick_convert(&mut b);
    assert_eq!(
        action,
        ConvertAction::ConvertUnit {
            handle: h(42),
            new_subtype: 3
        }
    );
}

#[test]
fn tick_convert_spy_subtype() {
    let mut b = make_active_trainer(BuildingSubtype::SpyTrain);
    b.conversion_countdown = 1;
    let action = tick_convert(&mut b);
    assert_eq!(
        action,
        ConvertAction::ConvertUnit {
            handle: h(42),
            new_subtype: 5
        }
    );
}

#[test]
fn tick_convert_skips_without_training_flag() {
    let mut b = make_active_trainer(BuildingSubtype::WarriorTrain);
    b.behavior_flags = 0;
    b.conversion_countdown = 1;
    let action = tick_convert(&mut b);
    assert_eq!(action, ConvertAction::Idle);
}

#[test]
fn tick_convert_skips_non_active() {
    let mut b = make_active_trainer(BuildingSubtype::WarriorTrain);
    b.state = BuildingState::Init;
    b.conversion_countdown = 1;
    let action = tick_convert(&mut b);
    assert_eq!(action, ConvertAction::Idle);
}

#[test]
fn tick_convert_skips_zero_countdown() {
    let mut b = make_active_trainer(BuildingSubtype::WarriorTrain);
    b.conversion_countdown = 0;
    let action = tick_convert(&mut b);
    assert_eq!(action, ConvertAction::Idle);
}

#[test]
fn start_training_sets_countdown() {
    let mut b = make_active_trainer(BuildingSubtype::WarriorTrain);
    assert!(start_training(&mut b));
    assert_eq!(b.conversion_countdown, 256); // CONV_TIME_WARRIOR
}

#[test]
fn start_training_spy() {
    let mut b = make_active_trainer(BuildingSubtype::SpyTrain);
    assert!(start_training(&mut b));
    assert_eq!(b.conversion_countdown, 192); // CONV_TIME_SPY
}

#[test]
fn start_training_fails_non_trainer() {
    let mut b = make_active_trainer(BuildingSubtype::SmallHut);
    assert!(!start_training(&mut b));
}

