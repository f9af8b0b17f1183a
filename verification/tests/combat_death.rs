use pop3::engine::combat::{process_death, should_drum_tower_fire, DRUM_TOWER_RANGE};
use pop3::engine::objects::ObjectHandle;

fn h(slot: u16) -> ObjectHandle {
    ObjectHandle::new(slot, 1)
}

#[test]
fn process_death_returns_correct_actions() {
    let actions = process_death(h(42), 1, Some(2));
    assert_eq!(actions.handle, h(42));
    assert_eq!(actions.tribe, 1);
    assert_eq!(actions.last_attacker_tribe, Some(2));
}

#[test]
fn process_death_no_attacker() {
    let actions = process_death(h(10), 0, None);
    assert_eq!(actions.handle, h(10));
    assert_eq!(actions.tribe, 0);
    assert!(actions.last_attacker_tribe.is_none());
}

#[test]
fn should_drum_tower_fire_same_tribe_returns_false() {
    assert!(!should_drum_tower_fire(1, 1, 100));
}

#[test]
fn should_drum_tower_fire_beyond_range_returns_false() {
    let beyond = (DRUM_TOWER_RANGE as u64 + 1) * (DRUM_TOWER_RANGE as u64 + 1);
    assert!(!should_drum_tower_fire(0, 1, beyond));
}

#[test]
fn should_drum_tower_fire_enemy_in_range_returns_true() {
    let in_range = (DRUM_TOWER_RANGE as u64 - 1) * (DRUM_TOWER_RANGE as u64 - 1);
    assert!(should_drum_tower_fire(0, 1, in_range));
}

#[test]
fn should_drum_tower_fire_at_exact_range() {
    let exact = DRUM_TOWER_RANGE as u64 * DRUM_TOWER_RANGE as u64;
    assert!(should_drum_tower_fire(0, 1, exact));
}

#[test]
fn drum_tower_range_is_768() {
    assert_eq!(DRUM_TOWER_RANGE, 768);
}

