use pop3::engine::effects::spawn::{attach_to_entity, spawn_at, spawn_on_spell_impact, update_attached_positions, EntityPosition};
use pop3::engine::effects::types::effect_defaults;
use pop3::engine::effects::{EffectPool, EFFECT_ATTACHED, MAX_EFFECTS};

#[test]
fn spawn_at_creates_effect_with_defaults() {
    let mut pool = EffectPool::new();
    let id = spawn_at(&mut pool, 0x01, 100, 200, 50, 1).unwrap();
    let effect = pool.get(id).unwrap();
    assert_eq!(effect.effect_type, 0x01);
    assert_eq!(effect.x, 100);
    assert_eq!(effect.y, 200);
    assert_eq!(effect.z, 50);
    assert_eq!(effect.owner, 1);
    // BurnFlame defaults: max_frame=16, flags=LOOP, scale=0x100, alpha=0xC0
    let (max_frame, flags, scale, alpha) = effect_defaults(0x01);
    assert_eq!(effect.max_frame, max_frame);
    assert_eq!(effect.flags, flags);
    assert_eq!(effect.scale, scale);
    assert_eq!(effect.alpha, alpha);
}

#[test]
fn spawn_at_on_full_pool_returns_none() {
    let mut pool = EffectPool::new();
    for _ in 0..MAX_EFFECTS {
        pool.spawn(0x01, 0, 0, 0, 0);
    }
    assert!(spawn_at(&mut pool, 0x01, 0, 0, 0, 0).is_none());
}

#[test]
fn attach_to_entity_sets_target_and_flag() {
    let mut pool = EffectPool::new();
    let id = spawn_at(&mut pool, 0x33, 0, 0, 0, 0).unwrap(); // HitSpark (no flags by default)
    attach_to_entity(&mut pool, id, 42);
    let effect = pool.get(id).unwrap();
    assert_eq!(effect.target, Some(42));
    assert_ne!(effect.flags & EFFECT_ATTACHED, 0);
}

#[test]
fn update_attached_positions_syncs_position() {
    let mut pool = EffectPool::new();
    let id = spawn_at(&mut pool, 0x33, 0, 0, 0, 0).unwrap();
    attach_to_entity(&mut pool, id, 10);

    let entities = vec![EntityPosition {
        entity_id: 10,
        x: 500,
        y: 600,
        z: 100,
        alive: true,
    }];
    update_attached_positions(&mut pool, &entities);

    let effect = pool.get(id).unwrap();
    assert_eq!(effect.x, 500);
    assert_eq!(effect.y, 600);
    assert_eq!(effect.z, 100);
}

#[test]
fn update_attached_positions_detaches_on_dead_entity() {
    let mut pool = EffectPool::new();
    let id = spawn_at(&mut pool, 0x33, 0, 0, 0, 0).unwrap();
    attach_to_entity(&mut pool, id, 10);

    let entities = vec![EntityPosition {
        entity_id: 10,
        x: 500,
        y: 600,
        z: 100,
        alive: false, // dead
    }];
    update_attached_positions(&mut pool, &entities);

    let effect = pool.get(id).unwrap();
    assert_eq!(effect.target, None);
    assert_eq!(effect.flags & EFFECT_ATTACHED, 0);
}

// --- spawn_on_spell_impact tests ---

#[test]
fn spell_burn_spawns_effect() {
    let mut pool = EffectPool::new();
    spawn_on_spell_impact(&mut pool, 0x01, 100, 200, 50, 0);
    assert_eq!(pool.active_count(), 1);
}

#[test]
fn spell_blast_spawns_effect() {
    let mut pool = EffectPool::new();
    spawn_on_spell_impact(&mut pool, 0x02, 100, 200, 50, 0);
    assert_eq!(pool.active_count(), 1);
}

#[test]
fn spell_lightning_spawns_effect() {
    let mut pool = EffectPool::new();
    spawn_on_spell_impact(&mut pool, 0x03, 100, 200, 50, 0);
    assert_eq!(pool.active_count(), 1);
}

#[test]
fn unknown_spell_spawns_nothing() {
    let mut pool = EffectPool::new();
    spawn_on_spell_impact(&mut pool, 0xFF, 100, 200, 50, 0);
    assert_eq!(pool.active_count(), 0);
}

#[test]
fn all_12_spells_have_effect_mapping() {
    for spell_type in 0x01..=0x0C {
        let mut pool = EffectPool::new();
        spawn_on_spell_impact(&mut pool, spell_type, 0, 0, 0, 0);
        assert_eq!(
            pool.active_count(),
            1,
            "Spell type 0x{:02X} should spawn an effect",
            spell_type
        );
    }
}

