use pop3::engine::effects::{EffectPool, EFFECT_GRAVITY, EFFECT_LOOP, GRAVITY_ACCEL, MAX_EFFECTS};

#[test]
fn new_pool_has_512_free_slots_0_active() {
    let pool = EffectPool::new();
    assert_eq!(pool.active_count(), 0);
    // Free list should have 512 entries
    assert_eq!(pool.free_count(), MAX_EFFECTS);
}

#[test]
fn spawn_returns_id_and_increments_active() {
    let mut pool = EffectPool::new();
    let id = pool.spawn(0x01, 100, 200, 50, 0);
    assert!(id.is_some());
    assert_eq!(pool.active_count(), 1);
}

#[test]
fn spawn_512_fills_pool_513th_returns_none() {
    let mut pool = EffectPool::new();
    for i in 0..MAX_EFFECTS {
        assert!(
            pool.spawn(0x01, 0, 0, 0, 0).is_some(),
            "Failed to spawn effect {}",
            i
        );
    }
    assert!(pool.spawn(0x01, 0, 0, 0, 0).is_none());
}

#[test]
fn destroy_frees_slot_lifo_reuse() {
    let mut pool = EffectPool::new();
    let id1 = pool.spawn(0x01, 0, 0, 0, 0).unwrap();
    let id2 = pool.spawn(0x01, 0, 0, 0, 0).unwrap();
    pool.destroy(id2);
    pool.destroy(id1);
    // LIFO: id1 destroyed last, should be allocated first
    let id3 = pool.spawn(0x01, 0, 0, 0, 0).unwrap();
    assert_eq!(id3, id1);
    let id4 = pool.spawn(0x01, 0, 0, 0, 0).unwrap();
    assert_eq!(id4, id2);
}

#[test]
fn get_returns_spawned_effect_with_correct_position() {
    let mut pool = EffectPool::new();
    let id = pool.spawn(0x01, 100, 200, 50, 2).unwrap();
    let effect = pool.get(id).unwrap();
    assert_eq!(effect.x, 100);
    assert_eq!(effect.y, 200);
    assert_eq!(effect.z, 50);
    assert_eq!(effect.owner, 2);
    assert_eq!(effect.effect_type, 0x01);
}

#[test]
fn get_after_destroy_returns_none() {
    let mut pool = EffectPool::new();
    let id = pool.spawn(0x01, 0, 0, 0, 0).unwrap();
    pool.destroy(id);
    assert!(pool.get(id).is_none());
}

#[test]
fn update_all_advances_frame_counter() {
    let mut pool = EffectPool::new();
    let id = pool.spawn(0x01, 0, 0, 0, 0).unwrap();
    if let Some(e) = pool.get_mut(id) {
        e.max_frame = 10;
    }
    pool.update_all();
    let effect = pool.get(id).unwrap();
    assert_eq!(effect.frame, 1);
}

#[test]
fn update_all_applies_gravity() {
    let mut pool = EffectPool::new();
    let id = pool.spawn(0x01, 0, 0, 1000, 0).unwrap();
    if let Some(e) = pool.get_mut(id) {
        e.flags = EFFECT_GRAVITY;
        e.max_frame = 100;
    }
    pool.update_all();
    let effect = pool.get(id).unwrap();
    // velocity_z should have decreased by GRAVITY_ACCEL
    assert_eq!(effect.velocity_z, -GRAVITY_ACCEL);
}

#[test]
fn effect_reaching_max_frame_without_loop_becomes_inactive() {
    let mut pool = EffectPool::new();
    let id = pool.spawn(0x01, 0, 0, 0, 0).unwrap();
    if let Some(e) = pool.get_mut(id) {
        e.max_frame = 2;
        e.frame = 1; // one update will reach max_frame
        e.flags = 0; // no LOOP
    }
    pool.update_all();
    // Effect should be inactive now
    assert!(pool.get(id).is_none());
    assert_eq!(pool.active_count(), 0);
}

#[test]
fn effect_with_loop_wraps_frame() {
    let mut pool = EffectPool::new();
    let id = pool.spawn(0x01, 0, 0, 0, 0).unwrap();
    if let Some(e) = pool.get_mut(id) {
        e.max_frame = 4;
        e.frame = 3; // one update will reach max_frame
        e.flags = EFFECT_LOOP;
    }
    pool.update_all();
    let effect = pool.get(id).unwrap();
    assert_eq!(effect.frame, 0); // wrapped back to 0
}

